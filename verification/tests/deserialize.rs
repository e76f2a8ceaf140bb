use lsif::reader::deserialize::{
    deserialize_diagnostics, deserialize_document, deserialize_edge, deserialize_element,
    deserialize_hover, deserialize_metadata, deserialize_moniker, deserialize_package_info,
    deserialize_range, deserialize_value, deserialize_vertex, parse_line,
};
use lsif::reader::interner::Interner;
use lsif::reader::types::{Element, Payload, ProtocolError, Range};
use serde_json::{Number, Value};

fn decode(line: &str) -> Result<Element, ProtocolError> {
    let mut interner = Interner::new();
    deserialize_element(&mut interner, line.as_bytes())
}

fn text(s: &str) -> Value {
    Value::String(s.to_string())
}

fn number(n: u64) -> Value {
    Value::Number(Number::from(n))
}

fn object(members: Vec<(&str, Value)>) -> Value {
    let mut map = serde_json::Map::new();
    for (key, value) in members {
        map.insert(key.to_string(), value);
    }
    Value::Object(map)
}

#[test]
fn vertex_with_unknown_label_carries_nothing() {
    let el = decode(r#"{"id":5,"type":"vertex","label":"$event","kind":"begin","data":4}"#).unwrap();
    assert_eq!(el.id, 5);
    assert_eq!(el.el_type, "vertex");
    assert_eq!(el.label, "$event");
    assert!(el.payload.is_none());

    let el = decode(r#"{"id":6,"type":"vertex","label":"resultSet"}"#).unwrap();
    assert!(el.payload.is_none());
}

#[test]
fn moniker_with_empty_scheme_is_local() {
    let el = decode(
        r#"{"id":1,"type":"vertex","label":"moniker","kind":"export","scheme":"","identifier":"a:b"}"#,
    )
    .unwrap();
    match el.payload {
        Some(Payload::Moniker(m)) => {
            assert_eq!(m.kind, "export");
            assert_eq!(m.scheme, "local");
            assert_eq!(m.identifier, "a:b");
        }
        _ => panic!("not a moniker"),
    }
}

#[test]
fn moniker_keeps_a_given_scheme() {
    let el = decode(
        r#"{"id":1,"type":"vertex","label":"moniker","kind":"import","scheme":"npm","identifier":"x"}"#,
    )
    .unwrap();
    match el.payload {
        Some(Payload::Moniker(m)) => assert_eq!(m.scheme, "npm"),
        _ => panic!("not a moniker"),
    }
}

#[test]
fn moniker_without_identifier_is_refused() {
    let r = decode(r#"{"id":1,"type":"vertex","label":"moniker","kind":"import","scheme":"npm"}"#);
    match r {
        Err(ProtocolError::JSONParse(m)) => assert_eq!(m, "invalid or missing field: identifier"),
        _ => panic!("not refused"),
    }
}

#[test]
fn edge_with_string_identifiers_interns_them() {
    let mut interner = Interner::new();
    let el = deserialize_element(
        &mut interner,
        br#"{"id":"e","type":"edge","label":"next","outV":"from","inV":"to"}"#,
    )
    .unwrap();
    assert_eq!(el.id, 1);
    match el.payload {
        Some(Payload::Edge(e)) => {
            assert_eq!(e.out_v, 2);
            assert_eq!(e.in_v, 3);
            assert_eq!(e.in_vs, Vec::<u64>::new());
            assert_eq!(e.document, 0);
        }
        _ => panic!("not an edge"),
    }
    assert_eq!(interner.intern(br#""from""#), Ok(2));
    assert_eq!(interner.intern(br#""to""#), Ok(3));
    assert_eq!(interner.intern(br#""e""#), Ok(1));

    let mut direct = Interner::new();
    assert_eq!(direct.intern(br#""e""#), Ok(1));
    assert_eq!(direct.intern(br#""from""#), Ok(2));
    assert_eq!(direct.intern(br#""to""#), Ok(3));
}

#[test]
fn edge_holds_the_identifiers_of_texts_interned_before() {
    let mut interner = Interner::new();
    assert_eq!(interner.intern(br#""a""#), Ok(1));
    assert_eq!(interner.intern(br#""b""#), Ok(2));
    let value = object(vec![
        ("id", number(9)),
        ("type", text("edge")),
        ("label", text("next")),
        ("outV", text("b")),
        ("inV", text("a")),
    ]);
    match deserialize_edge(&mut interner, &value) {
        Ok(Payload::Edge(e)) => {
            assert_eq!(e.out_v, 2);
            assert_eq!(e.in_v, 1);
            assert!(e.in_vs.is_empty());
            assert_eq!(e.document, 0);
        }
        _ => panic!("not an edge"),
    }
    assert_eq!(interner.len(), 2);
    let el = deserialize_element(
        &mut interner,
        br#"{"id":9,"type":"edge","label":"next","outV":"b","inV":"a"}"#,
    )
    .unwrap();
    assert!(matches!(el.payload, Some(Payload::Edge(e)) if e.out_v == 2 && e.in_v == 1));
}

#[test]
fn empty_string_is_an_identifier_like_any_other_text() {
    let mut interner = Interner::new();
    let el = deserialize_element(
        &mut interner,
        br#"{"id":7,"type":"edge","label":"next","outV":"","inV":"x"}"#,
    )
    .unwrap();
    match el.payload {
        Some(Payload::Edge(e)) => {
            assert_eq!(e.out_v, 1);
            assert_eq!(e.in_v, 2);
        }
        _ => panic!("not an edge"),
    }
    assert_eq!(interner.intern(br#""""#), Ok(1));
    assert_eq!(interner.intern(br#""x""#), Ok(2));
}

#[test]
fn edge_identifiers_are_resolved_in_order() {
    let mut interner = Interner::new();
    let el = deserialize_element(
        &mut interner,
        br#"{"id":9,"type":"edge","label":"item","inVs":["c",7,"a","12"],"document":"d","inV":"b","outV":"a"}"#,
    )
    .unwrap();
    match el.payload {
        Some(Payload::Edge(e)) => {
            assert_eq!(e.out_v, 1);
            assert_eq!(e.in_v, 2);
            assert_eq!(e.document, 3);
            assert_eq!(e.in_vs, vec![4, 7, 1, 12]);
        }
        _ => panic!("not an edge"),
    }
    assert_eq!(interner.len(), 4);
}

#[test]
fn edge_members_left_out_are_zero() {
    let el = decode(r#"{"id":54,"type":"edge","label":"contains","outV":2,"inV":null,"inVs":null}"#)
        .unwrap();
    match el.payload {
        Some(Payload::Edge(e)) => {
            assert_eq!(e.out_v, 2);
            assert_eq!(e.in_v, 0);
            assert_eq!(e.document, 0);
            assert!(e.in_vs.is_empty());
        }
        _ => panic!("not an edge"),
    }
}

#[test]
fn edge_without_out_v_is_refused() {
    match decode(r#"{"id":54,"type":"edge","label":"contains","inVs":[4]}"#) {
        Err(ProtocolError::JSONParse(m)) => assert_eq!(m, "invalid or missing field: outV"),
        _ => panic!("not refused"),
    }
}

#[test]
fn edge_with_in_vs_that_is_no_list_is_refused_before_interning() {
    let mut interner = Interner::new();
    let r = deserialize_element(
        &mut interner,
        br#"{"id":54,"type":"edge","label":"contains","outV":"a","inVs":4}"#,
    );
    match r {
        Err(ProtocolError::JSONParse(m)) => assert_eq!(m, "invalid or missing field: inVs"),
        _ => panic!("not refused"),
    }
    assert_eq!(interner.len(), 0);
}

#[test]
fn edge_identifier_of_another_kind_is_refused() {
    for line in [
        r#"{"id":1,"type":"edge","label":"next","outV":null}"#,
        r#"{"id":1,"type":"edge","label":"next","outV":1.5}"#,
        r#"{"id":1,"type":"edge","label":"next","outV":2,"inV":-3}"#,
        r#"{"id":1,"type":"edge","label":"next","outV":2,"inVs":[true]}"#,
        r#"{"id":1,"type":"edge","label":"next","outV":2,"document":{}}"#,
    ] {
        match decode(line) {
            Err(ProtocolError::JSONParse(m)) => {
                assert_eq!(m, "invalid or missing field: identifier")
            }
            _ => panic!("not refused: {}", line),
        }
    }
}

#[test]
fn identifier_that_is_text_is_interned() {
    let mut interner = Interner::new();
    let el = deserialize_element(
        &mut interner,
        br#"{"id":"abc","type":"vertex","label":"project"}"#,
    )
    .unwrap();
    assert_eq!(el.id, 1);
    assert_eq!(interner.intern(br#""abc""#), Ok(1));

    let el = deserialize_element(
        &mut interner,
        br#"{"id":1,"type":"edge","label":"next","outV":2,"inVs":[3,"x","12a","abc"]}"#,
    )
    .unwrap();
    assert!(matches!(el.payload, Some(Payload::Edge(e)) if e.in_vs == vec![3, 2, 3, 1]));
    assert_eq!(interner.intern(br#""x""#), Ok(2));
    assert_eq!(interner.intern(br#""12a""#), Ok(3));
    assert_eq!(interner.len(), 3);
}

#[test]
fn identifier_with_quotes_in_its_text_is_a_text_of_its_own() {
    let mut interner = Interner::new();
    let plain = deserialize_element(
        &mut interner,
        br#"{"id":"a","type":"vertex","label":"project"}"#,
    )
    .unwrap();
    let quoted = deserialize_element(
        &mut interner,
        br#"{"id":"\"a\"","type":"vertex","label":"project"}"#,
    )
    .unwrap();
    let lone = deserialize_element(
        &mut interner,
        br#"{"id":"\"","type":"vertex","label":"project"}"#,
    )
    .unwrap();
    assert_eq!((plain.id, quoted.id, lone.id), (1, 2, 3));
    assert_eq!(interner.intern(br#""a""#), Ok(1));
    assert_eq!(interner.intern(br#"""a"""#), Ok(2));
    assert_eq!(interner.intern(br#"""""#), Ok(3));
}

#[test]
fn vertex_with_a_string_identifier_carries_what_its_label_says() {
    let mut interner = Interner::new();
    let el = deserialize_element(
        &mut interner,
        br#"{"id":"meta","type":"vertex","label":"metaData","version":"0.4.3","projectRoot":"file:///p"}"#,
    )
    .unwrap();
    assert_eq!(el.id, 1);
    assert_eq!(el.label, "metaData");
    assert!(matches!(
        el.payload,
        Some(Payload::MetaData(m)) if m.version == "0.4.3" && m.project_root == "file:///p"
    ));
    for (line, id) in [
        (r#"{"id":"doc","type":"vertex","label":"document","uri":"file:///d"}"#, 2),
        (
            r#"{"id":"rng","type":"vertex","label":"range","start":{"line":0,"character":1},"end":{"line":2,"character":3}}"#,
            3,
        ),
        (
            r#"{"id":"mon","type":"vertex","label":"moniker","kind":"k","scheme":"s","identifier":"i"}"#,
            4,
        ),
        (
            r#"{"id":"pkg","type":"vertex","label":"packageInformation","name":"n","version":"v"}"#,
            5,
        ),
        (r#"{"id":"meta","type":"vertex","label":"metaData","version":"1","projectRoot":"r"}"#, 1),
    ] {
        let el = deserialize_element(&mut interner, line.as_bytes()).unwrap();
        assert_eq!(el.id, id);
        assert!(el.payload.is_some());
    }
    assert!(matches!(
        deserialize_element(
            &mut interner,
            br#"{"id":"late","type":"vertex","label":"metaData","version":"1"}"#
        ),
        Err(ProtocolError::JSONParse(_))
    ));
    assert_eq!(interner.len(), 6);
}

#[test]
fn identifier_given_as_numeral_in_a_string_is_the_number() {
    let mut interner = Interner::new();
    for line in [
        r#"{"id":"123","type":"vertex","label":"project"}"#,
        r#"{"id":123,"type":"vertex","label":"project"}"#,
        r#"{"id":"+123","type":"vertex","label":"project"}"#,
        r#"{"id":"0123","type":"vertex","label":"project"}"#,
    ] {
        let el = deserialize_element(&mut interner, line.as_bytes()).unwrap();
        assert_eq!(el.id, 123);
    }
    assert_eq!(interner.len(), 0);
    assert_eq!(interner.intern(b"123"), Ok(123));
    assert_eq!(interner.intern(br#""123""#), Ok(123));
}

#[test]
fn identifier_of_another_kind_is_refused() {
    for line in [
        r#"{"id":null,"type":"vertex","label":"project"}"#,
        r#"{"id":-1,"type":"vertex","label":"project"}"#,
        r#"{"id":1.0,"type":"vertex","label":"project"}"#,
        r#"{"id":[1],"type":"vertex","label":"project"}"#,
        r#"{"id":true,"type":"vertex","label":"project"}"#,
    ] {
        match decode(line) {
            Err(ProtocolError::JSONParse(m)) => {
                assert_eq!(m, "invalid or missing field: identifier")
            }
            _ => panic!("not refused: {}", line),
        }
    }
}

#[test]
fn envelope_must_be_complete() {
    match decode(r#"{"type":"vertex","label":"project"}"#) {
        Err(ProtocolError::JSONParse(m)) => assert_eq!(m, "invalid or missing field: id"),
        _ => panic!("not refused"),
    }
    match decode(r#"{"id":1,"label":"project"}"#) {
        Err(ProtocolError::JSONParse(m)) => assert_eq!(m, "invalid or missing field: type"),
        _ => panic!("not refused"),
    }
    match decode(r#"{"id":1,"type":"vertex","label":7}"#) {
        Err(ProtocolError::JSONParse(m)) => assert_eq!(m, "invalid or missing field: label"),
        _ => panic!("not refused"),
    }
    match decode(r#"[1,"vertex","project"]"#) {
        Err(ProtocolError::JSONParse(m)) => assert_eq!(m, "invalid or missing field: id"),
        _ => panic!("not refused"),
    }
}

#[test]
fn line_that_is_no_json_is_refused_with_the_parser_s_words() {
    match decode(r#"{ id: 2, type: "vertex", label: "project", kind: "typescript" }"#) {
        Err(ProtocolError::JSONParse(m)) => assert_eq!(m, "key must be a string at line 1 column 3"),
        _ => panic!("not refused"),
    }
    match decode("") {
        Err(ProtocolError::JSONParse(m)) => {
            assert_eq!(m, "EOF while parsing a value at line 1 column 0")
        }
        _ => panic!("not refused"),
    }
}

#[test]
fn hover_result_is_not_decoded() {
    match decode(r#"{"id":1,"type":"vertex","label":"hoverResult","result":{"contents":[]}}"#) {
        Err(ProtocolError::Other(m)) => assert_eq!(m, "asd"),
        _ => panic!("not refused"),
    }
    match deserialize_hover() {
        Err(ProtocolError::Other(m)) => assert_eq!(m, "asd"),
        _ => panic!("not refused"),
    }
}

#[test]
fn meta_data_is_decoded() {
    let el = decode(
        r#"{"id":1,"type":"vertex","label":"metaData","version":"0.4.3","projectRoot":"file:///p","positionEncoding":"utf-16"}"#,
    )
    .unwrap();
    match el.payload {
        Some(Payload::MetaData(m)) => {
            assert_eq!(m.version, "0.4.3");
            assert_eq!(m.project_root, "file:///p");
        }
        _ => panic!("not meta data"),
    }
    match decode(r#"{"id":1,"type":"vertex","label":"metaData","version":"0.4.3"}"#) {
        Err(ProtocolError::JSONParse(m)) => assert_eq!(m, "invalid or missing field: projectRoot"),
        _ => panic!("not refused"),
    }
}

#[test]
fn document_uri_is_normalised() {
    let el = decode(
        r#"{"id":4,"type":"vertex","label":"document","uri":"file:///home/burger/sample.ts","languageId":"typescript"}"#,
    )
    .unwrap();
    match el.payload {
        Some(Payload::Document(d)) => assert_eq!(d.uri, "file:///home/burger/sample.ts"),
        _ => panic!("not a document"),
    }
    let el = decode(r#"{"id":4,"type":"vertex","label":"document","uri":"HTTP://Example.COM/a/../b"}"#)
        .unwrap();
    match el.payload {
        Some(Payload::Document(d)) => assert_eq!(d.uri, "http://example.com/b"),
        _ => panic!("not a document"),
    }
}

#[test]
fn document_uri_must_be_a_url() {
    match decode(r#"{"id":4,"type":"vertex","label":"document","uri":"sample.ts"}"#) {
        Err(ProtocolError::JSONParse(m)) => assert_eq!(m, "relative URL without a base"),
        _ => panic!("not refused"),
    }
    match decode(r#"{"id":4,"type":"vertex","label":"document"}"#) {
        Err(ProtocolError::JSONParse(m)) => assert_eq!(m, "invalid or missing field: uri"),
        _ => panic!("not refused"),
    }
}

#[test]
fn range_positions_are_copied() {
    let el = decode(
        r#"{"id":7,"type":"vertex","label":"range","start":{"line":1,"character":2},"end":{"line":3,"character":4}}"#,
    )
    .unwrap();
    match el.payload {
        Some(Payload::Range(r)) => assert_eq!(
            r,
            Range { start_line: 1, start_character: 2, end_line: 3, end_character: 4 }
        ),
        _ => panic!("not a range"),
    }
    assert!(matches!(
        decode(r#"{"id":7,"type":"vertex","label":"range","start":{"line":1,"character":2}}"#),
        Err(ProtocolError::JSONParse(_))
    ));
    assert!(matches!(
        decode(
            r#"{"id":7,"type":"vertex","label":"range","start":{"line":4294967296,"character":2},"end":{"line":3,"character":4}}"#
        ),
        Err(ProtocolError::JSONParse(_))
    ));
}

#[test]
fn package_information_is_decoded() {
    let el = decode(
        r#"{"id":1,"type":"vertex","label":"packageInformation","name":"left-pad","manager":"npm","version":"1.3.0"}"#,
    )
    .unwrap();
    match el.payload {
        Some(Payload::PackageInformation(p)) => {
            assert_eq!(p.name, "left-pad");
            assert_eq!(p.version, "1.3.0");
        }
        _ => panic!("not package information"),
    }
}

#[test]
fn diagnostic_result_is_always_empty() {
    let el = decode(
        r#"{"id":1,"type":"vertex","label":"diagnosticResult","result":[{"severity":1,"message":"m"}]}"#,
    )
    .unwrap();
    match el.payload {
        Some(Payload::Diagnostics(ds)) => assert!(ds.is_empty()),
        _ => panic!("not diagnostics"),
    }
    assert!(matches!(deserialize_diagnostics(), Ok(Payload::Diagnostics(ds)) if ds.is_empty()));
}

#[test]
fn record_of_another_type_is_read_as_a_vertex() {
    let el = decode(r#"{"id":1,"type":"node","label":"packageInformation","name":"n","version":"v"}"#)
        .unwrap();
    assert_eq!(el.el_type, "node");
    assert!(matches!(el.payload, Some(Payload::PackageInformation(_))));
}

#[test]
fn edge_carries_an_edge_whatever_its_label() {
    let el = decode(r#"{"id":1,"type":"edge","label":"moniker","outV":1,"inV":2}"#).unwrap();
    assert!(matches!(el.payload, Some(Payload::Edge(_))));
}

#[test]
fn a_failed_record_keeps_what_was_interned_before_it_failed() {
    let mut interner = Interner::new();
    let r = deserialize_element(
        &mut interner,
        br#"{"id":"a","type":"edge","label":"next","outV":"b","inV":true}"#,
    );
    assert!(matches!(r, Err(ProtocolError::JSONParse(_))));
    assert_eq!(interner.len(), 2);
    assert_eq!(interner.intern(b"\"a\""), Ok(1));
    assert_eq!(interner.intern(b"\"b\""), Ok(2));
}

#[test]
fn value_is_decoded_as_its_line_is() {
    let value = object(vec![
        ("id", text("v")),
        ("type", text("vertex")),
        ("label", text("moniker")),
        ("kind", text("export")),
        ("scheme", text("")),
        ("identifier", text("i")),
    ]);
    let mut interner = Interner::new();
    let el = deserialize_value(&mut interner, &value, b"").unwrap();
    assert_eq!(el.id, 1);
    assert!(matches!(el.payload, Some(Payload::Moniker(m)) if m.scheme == "local"));
}

#[test]
fn label_decoders_read_their_members() {
    let value = object(vec![
        ("version", text("1")),
        ("projectRoot", text("r")),
        ("uri", text("file:///a%20b")),
        ("kind", text("k")),
        ("scheme", text("s")),
        ("identifier", text("i")),
        ("name", text("n")),
        ("outV", number(3)),
        ("inVs", Value::Array(vec![number(4), text("5")])),
    ]);
    assert!(matches!(
        deserialize_metadata(&value),
        Ok(Payload::MetaData(m)) if m.version == "1" && m.project_root == "r"
    ));
    assert!(matches!(
        deserialize_document(&value),
        Ok(Payload::Document(d)) if d.uri == "file:///a%20b"
    ));
    assert!(matches!(
        deserialize_moniker(&value),
        Ok(Payload::Moniker(m)) if m.kind == "k" && m.scheme == "s" && m.identifier == "i"
    ));
    assert!(matches!(
        deserialize_package_info(&value),
        Ok(Payload::PackageInformation(p)) if p.name == "n" && p.version == "1"
    ));
    let mut interner = Interner::new();
    assert!(matches!(
        deserialize_edge(&mut interner, &value),
        Ok(Payload::Edge(e)) if e.out_v == 3 && e.in_v == 0 && e.in_vs == vec![4, 5]
    ));
    assert!(matches!(deserialize_vertex(&value, "unknown", b""), Ok(None)));
    assert!(matches!(
        deserialize_vertex(&value, "metaData", b""),
        Ok(Some(Payload::MetaData(_)))
    ));
    assert!(matches!(
        deserialize_vertex(&value, "range", b"{}"),
        Err(ProtocolError::JSONParse(_))
    ));
    assert!(matches!(
        deserialize_range(br#"{"start":{"line":0,"character":0},"end":{"line":0,"character":9}}"#),
        Ok(Payload::Range(r)) if r.end_character == 9
    ));
    assert!(matches!(deserialize_metadata(&number(1)), Err(ProtocolError::JSONParse(_))));
}

#[test]
fn line_is_parsed_before_it_is_decoded() {
    let line = br#"{"id":"a","type":"vertex","label":"project"}"#;
    let value = parse_line(line).unwrap();
    assert_eq!(value.get("label").and_then(Value::as_str), Some("project"));
    let mut interner = Interner::new();
    let el = deserialize_value(&mut interner, &value, line).unwrap();
    assert_eq!(el.id, 1);
    assert_eq!(interner.len(), 1);
    match parse_line(b"[1, 2") {
        Err(ProtocolError::JSONParse(m)) => {
            assert_eq!(m, "EOF while parsing a list at line 1 column 5")
        }
        _ => panic!("not refused"),
    }
}
