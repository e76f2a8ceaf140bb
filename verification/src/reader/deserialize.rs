//! The element decoder: from one line of the input to one typed element.

use super::interner::{
    decimal_u64, intern_result, intern_state, lemma_intern_keeps_form, lemma_quoted_is_symbol,
    quoted, well_formed, InternError, Interner,
};
use super::json::{
    json_text, parse_range, parse_uri, parse_value, range_text, uri_text, value_as_array,
    value_as_str, value_as_u64, value_get, value_is_null, value_tree, value_trees, JsonTree,
};
use super::types::{
    outcome_view, payload_view, Diagnostic, Document, Edge, EdgeView, Element, ElementView, MetaData,
    MetaDataView, Moniker, MonikerView, PackageInformation, PackageInformationView, Payload,
    PayloadView, ProtocolError, ProtocolErrorView,
};
use vstd::prelude::*;
use vstd::string::StringExecFns;
use vstd::utf8::encode_utf8;

verus! {

/// The interned texts after a step of decoding, and what the step gave.
pub struct Step<T> {
    pub ids: Map<Seq<char>, u64>,
    pub out: Result<T, ProtocolErrorView>,
}

/// The error for a member that is missing or is not of the kind it must be.
pub open spec fn shape_error(what: Seq<char>) -> ProtocolErrorView {
    ProtocolErrorView::JSONParse("invalid or missing field: "@ + what)
}

/// The member `key` of `t`, which must be a string.
pub open spec fn text_member(t: JsonTree, key: Seq<char>) -> Result<Seq<char>, ProtocolErrorView> {
    match t.member(key) {
        Some(JsonTree::Text(s)) => Ok(s),
        _ => Err(shape_error(key)),
    }
}

/// An identifier as a record writes it: a string is interned in its raw
/// form, between quotes; an integer from 0 to `u64::MAX` stands for itself;
/// and nothing else is an identifier.
pub open spec fn resolve_of(ids: Map<Seq<char>, u64>, t: JsonTree) -> Step<u64> {
    match t {
        JsonTree::Text(s) => Step {
            ids: intern_state(ids, quoted(s)),
            out: match intern_result(ids, quoted(s)) {
                Ok(n) => Ok(n),
                Err(e) => Err(ProtocolErrorView::IDParse(e)),
            },
        },
        JsonTree::Unsigned(n) => Step { ids, out: Ok(n) },
        _ => Step { ids, out: Err(shape_error("identifier"@)) },
    }
}

fn shape(what: &str) -> (e: ProtocolError)
    ensures
        e@ == shape_error(what@),
{
    ProtocolError::JSONParse("invalid or missing field: ".to_owned().concat(what))
}

/// Whether two texts are the same.
fn same_text(a: &str, b: &str) -> (r: bool)
    ensures
        r == (a@ == b@),
{
    let x = a.as_bytes();
    let y = b.as_bytes();
    proof {
        vstd::utf8::encode_utf8_decode_utf8(a@);
        vstd::utf8::encode_utf8_decode_utf8(b@);
    }
    if x.len() != y.len() {
        return false;
    }
    let mut i: usize = 0;
    while i < x.len()
        invariant
            0 <= i <= x.len(),
            x.len() == y.len(),
            forall|j: int| 0 <= j < i ==> x@[j] == y@[j],
            x@ == encode_utf8(a@),
            y@ == encode_utf8(b@),
        decreases x.len() - i,
    {
        if x[i] != y[i] {
            return false;
        }
        i = i + 1;
    }
    assert(x@ =~= y@);
    true
}

fn get_text(v: &serde_json::Value, key: &str) -> (r: Result<String, ProtocolError>)
    ensures
        match r {
            Ok(s) => text_member(value_tree(*v), key@) == Ok::<Seq<char>, ProtocolErrorView>(s@),
            Err(e) => text_member(value_tree(*v), key@) == Err::<Seq<char>, ProtocolErrorView>(
                e@,
            ),
        },
{
    match value_get(v, key) {
        Some(member) => match value_as_str(member) {
            Some(s) => Ok(s.to_owned()),
            None => Err(shape(key)),
        },
        None => Err(shape(key)),
    }
}

fn resolve(interner: &mut Interner, v: &serde_json::Value) -> (r: Result<u64, ProtocolError>)
    ensures
        match r {
            Ok(n) => resolve_of(old(interner)@, value_tree(*v)).out == Ok::<
                u64,
                ProtocolErrorView,
            >(n),
            Err(e) => resolve_of(old(interner)@, value_tree(*v)).out == Err::<
                u64,
                ProtocolErrorView,
            >(e@),
        },
        final(interner)@ == resolve_of(old(interner)@, value_tree(*v)).ids,
{
    if let Some(s) = value_as_str(v) {
        let mut raw: Vec<u8> = Vec::new();
        raw.push(0x22);
        raw.extend_from_slice(s.as_bytes());
        raw.push(0x22);
        assert(raw@ =~= quoted(s@));
        match interner.intern(raw.as_slice()) {
            Ok(n) => Ok(n),
            Err(e) => Err(ProtocolError::IDParse(e)),
        }
    } else if let Some(n) = value_as_u64(v) {
        Ok(n)
    } else {
        Err(shape("identifier"))
    }
}

/// A member that may be left out: it is absent when the object has none of
/// that name, or has it as `null`.
pub open spec fn is_absent(m: Option<JsonTree>) -> bool {
    m is None || m == Some(JsonTree::Null)
}

/// An identifier that may be left out; 0 stands for one that is.
pub open spec fn optional_of(ids: Map<Seq<char>, u64>, m: Option<JsonTree>) -> Step<u64> {
    if is_absent(m) {
        Step { ids, out: Ok(0) }
    } else {
        resolve_of(ids, m->Some_0)
    }
}

/// The identifiers of a list, resolved from the first to the last. The first
/// that fails ends the work: those after it are not looked at.
#[verifier::opaque]
pub open spec fn resolve_all(ids: Map<Seq<char>, u64>, items: Seq<JsonTree>) -> Step<Seq<u64>>
    decreases items.len(),
{
    if items.len() == 0 {
        Step { ids, out: Ok(Seq::empty()) }
    } else {
        let before = resolve_all(ids, items.drop_last());
        match before.out {
            Err(_) => before,
            Ok(found) => {
                let last = resolve_of(before.ids, items.last());
                Step {
                    ids: last.ids,
                    out: match last.out {
                        Ok(n) => Ok(found.push(n)),
                        Err(e) => Err(e),
                    },
                }
            },
        }
    }
}

/// What one more item adds to a list whose identifiers have all resolved.
proof fn lemma_resolve_all_next(ids: Map<Seq<char>, u64>, items: Seq<JsonTree>, k: int)
    requires
        0 <= k < items.len(),
        resolve_all(ids, items.take(k)).out is Ok,
    ensures
        ({
            let before = resolve_all(ids, items.take(k));
            let last = resolve_of(before.ids, items[k]);
            let after = resolve_all(ids, items.take(k + 1));
            &&& after.ids == last.ids
            &&& after.out == match last.out {
                Ok(n) => Ok::<Seq<u64>, ProtocolErrorView>(before.out->Ok_0.push(n)),
                Err(e) => Err::<Seq<u64>, ProtocolErrorView>(e),
            }
        }),
{
    reveal(resolve_all);
    assert(items.take(k + 1).drop_last() =~= items.take(k));
    assert(items.take(k + 1).last() == items[k]);
}

/// Where every identifier of a list resolves, there is one for each item.
pub proof fn lemma_resolve_all_len(ids: Map<Seq<char>, u64>, items: Seq<JsonTree>)
    ensures
        resolve_all(ids, items).out is Ok ==> resolve_all(ids, items).out->Ok_0.len()
            == items.len(),
    decreases items.len(),
{
    reveal(resolve_all);
    if items.len() > 0 {
        lemma_resolve_all_len(ids, items.drop_last());
    }
}

/// Once an identifier of a list has failed, the rest of the list changes
/// nothing.
proof fn lemma_resolve_all_fails(ids: Map<Seq<char>, u64>, items: Seq<JsonTree>, k: int)
    requires
        0 <= k <= items.len(),
        resolve_all(ids, items.take(k)).out is Err,
    ensures
        resolve_all(ids, items) == resolve_all(ids, items.take(k)),
    decreases items.len() - k,
{
    if k == items.len() {
        assert(items.take(k) =~= items);
    } else {
        reveal(resolve_all);
        assert(items.take(k + 1).drop_last() =~= items.take(k));
        lemma_resolve_all_fails(ids, items, k + 1);
    }
}

fn resolve_optional(interner: &mut Interner, member: Option<&serde_json::Value>) -> (r: Result<
    u64,
    ProtocolError,
>)
    ensures
        ({
            let m = match member {
                Some(v) => Some(value_tree(*v)),
                None => None,
            };
            &&& match r {
                Ok(n) => optional_of(old(interner)@, m).out == Ok::<u64, ProtocolErrorView>(n),
                Err(e) => optional_of(old(interner)@, m).out == Err::<u64, ProtocolErrorView>(
                    e@,
                ),
            }
            &&& final(interner)@ == optional_of(old(interner)@, m).ids
        }),
{
    match member {
        Some(v) => if value_is_null(v) {
            Ok(0)
        } else {
            resolve(interner, v)
        },
        None => Ok(0),
    }
}

fn resolve_list(interner: &mut Interner, items: &Vec<serde_json::Value>) -> (r: Result<
    Vec<u64>,
    ProtocolError,
>)
    ensures
        ({
            let trees = value_trees(items@);
            &&& match r {
                Ok(found) => resolve_all(old(interner)@, trees).out == Ok::<
                    Seq<u64>,
                    ProtocolErrorView,
                >(found@),
                Err(e) => resolve_all(old(interner)@, trees).out == Err::<
                    Seq<u64>,
                    ProtocolErrorView,
                >(e@),
            }
            &&& final(interner)@ == resolve_all(old(interner)@, trees).ids
        }),
{
    let ghost trees = value_trees(items@);
    let ghost start = interner@;
    let mut found: Vec<u64> = Vec::new();
    let mut i: usize = 0;
    assert(resolve_all(start, trees.take(0)) == Step::<Seq<u64>> {
        ids: start,
        out: Ok(Seq::empty()),
    }) by {
        reveal(resolve_all);
    }
    while i < items.len()
        invariant
            0 <= i <= items.len(),
            start == old(interner)@,
            trees == value_trees(items@),
            resolve_all(start, trees.take(i as int)).out == Ok::<Seq<u64>, ProtocolErrorView>(
                found@,
            ),
            resolve_all(start, trees.take(i as int)).ids == interner@,
        decreases items.len() - i,
    {
        proof {
            lemma_resolve_all_next(start, trees, i as int);
            assert(trees[i as int] == value_tree(items@[i as int]));
        }
        match resolve(interner, &items[i]) {
            Ok(n) => {
                found.push(n);
            },
            Err(e) => {
                proof {
                    lemma_resolve_all_fails(start, trees, i + 1);
                }
                return Err(e);
            },
        }
        i = i + 1;
    }
    assert(trees.take(i as int) =~= trees);
    Ok(found)
}

/// The items of a list that may be left out; nothing where the member is
/// there and is no list.
pub open spec fn items_of(m: Option<JsonTree>) -> Option<Seq<JsonTree>> {
    if is_absent(m) {
        Some(Seq::empty())
    } else {
        match m->Some_0 {
            JsonTree::List(items) => Some(items),
            _ => None,
        }
    }
}

/// What an edge record carries. `outV` must be there; `inV`, `document` and
/// the list `inVs` may be left out. The identifiers are resolved in this
/// order: `outV`, `inV`, `document`, then `inVs` from its first to its last.
pub open spec fn edge_of(ids: Map<Seq<char>, u64>, t: JsonTree) -> Step<PayloadView> {
    if t.member("outV"@) is None {
        Step { ids, out: Err(shape_error("outV"@)) }
    } else if items_of(t.member("inVs"@)) is None {
        Step { ids, out: Err(shape_error("inVs"@)) }
    } else {
        let a = resolve_of(ids, t.member("outV"@)->Some_0);
        let b = optional_of(a.ids, t.member("inV"@));
        let c = optional_of(b.ids, t.member("document"@));
        let d = resolve_all(c.ids, items_of(t.member("inVs"@))->Some_0);
        match (a.out, b.out, c.out, d.out) {
            (Err(e), _, _, _) => Step { ids: a.ids, out: Err(e) },
            (Ok(_), Err(e), _, _) => Step { ids: b.ids, out: Err(e) },
            (Ok(_), Ok(_), Err(e), _) => Step { ids: c.ids, out: Err(e) },
            (Ok(_), Ok(_), Ok(_), Err(e)) => Step { ids: d.ids, out: Err(e) },
            (Ok(out_v), Ok(in_v), Ok(document), Ok(in_vs)) => Step {
                ids: d.ids,
                out: Ok(PayloadView::Edge(EdgeView { out_v, in_v, in_vs, document })),
            },
        }
    }
}

/// Decodes what an edge record carries, interning its identifiers.
pub fn deserialize_edge(interner: &mut Interner, value: &serde_json::Value) -> (r: Result<
    Payload,
    ProtocolError,
>)
    ensures
        payload_view(r) == edge_of(old(interner)@, value_tree(*value)).out,
        final(interner)@ == edge_of(old(interner)@, value_tree(*value)).ids,
{
    let out_member = match value_get(value, "outV") {
        Some(member) => member,
        None => {
            return Err(shape("outV"));
        },
    };
    let no_items: Vec<serde_json::Value> = Vec::new();
    assert(value_trees(no_items@) =~= Seq::<JsonTree>::empty());
    let items: &Vec<serde_json::Value> = match value_get(value, "inVs") {
        Some(member) => if value_is_null(member) {
            &no_items
        } else {
            match value_as_array(member) {
                Some(items) => items,
                None => {
                    return Err(shape("inVs"));
                },
            }
        },
        None => &no_items,
    };
    let out_v = resolve(interner, out_member)?;
    let in_v = resolve_optional(interner, value_get(value, "inV"))?;
    let document = resolve_optional(interner, value_get(value, "document"))?;
    let in_vs = resolve_list(interner, items)?;
    Ok(Payload::Edge(Edge { out_v, in_v, in_vs, document }))
}

/// What a `metaData` vertex carries: its `version` and its `projectRoot`.
pub open spec fn metadata_of(t: JsonTree) -> Result<PayloadView, ProtocolErrorView> {
    match (text_member(t, "version"@), text_member(t, "projectRoot"@)) {
        (Err(e), _) => Err(e),
        (Ok(_), Err(e)) => Err(e),
        (Ok(version), Ok(project_root)) => Ok(
            PayloadView::MetaData(MetaDataView { version, project_root }),
        ),
    }
}

/// What a `document` vertex carries: its `uri`, which must be a URL, in the
/// URL's normal form.
pub open spec fn document_of(t: JsonTree) -> Result<PayloadView, ProtocolErrorView> {
    match text_member(t, "uri"@) {
        Err(e) => Err(e),
        Ok(text) => match uri_text(text) {
            Ok(uri) => Ok(PayloadView::Document(uri)),
            Err(m) => Err(ProtocolErrorView::JSONParse(m)),
        },
    }
}

/// What a `range` vertex carries: the positions of its `start` and its `end`.
pub open spec fn range_of(line: Seq<u8>) -> Result<PayloadView, ProtocolErrorView> {
    match range_text(line) {
        Ok(range) => Ok(PayloadView::Range(range)),
        Err(m) => Err(ProtocolErrorView::JSONParse(m)),
    }
}

/// A `hoverResult` vertex is not decoded.
pub open spec fn hover_of() -> Result<PayloadView, ProtocolErrorView> {
    Err(ProtocolErrorView::Other("asd"@))
}

/// The scheme of a moniker; one that is left empty is `local`.
pub open spec fn scheme_of(scheme: Seq<char>) -> Seq<char> {
    if scheme.len() == 0 {
        "local"@
    } else {
        scheme
    }
}

/// What a `moniker` vertex carries: its `kind`, its `scheme` and its
/// `identifier`.
pub open spec fn moniker_of(t: JsonTree) -> Result<PayloadView, ProtocolErrorView> {
    match (text_member(t, "kind"@), text_member(t, "scheme"@), text_member(t, "identifier"@)) {
        (Err(e), _, _) => Err(e),
        (Ok(_), Err(e), _) => Err(e),
        (Ok(_), Ok(_), Err(e)) => Err(e),
        (Ok(kind), Ok(scheme), Ok(identifier)) => Ok(
            PayloadView::Moniker(MonikerView { kind, scheme: scheme_of(scheme), identifier }),
        ),
    }
}

/// What a `packageInformation` vertex carries: its `name` and its `version`.
pub open spec fn package_info_of(t: JsonTree) -> Result<PayloadView, ProtocolErrorView> {
    match (text_member(t, "name"@), text_member(t, "version"@)) {
        (Err(e), _) => Err(e),
        (Ok(_), Err(e)) => Err(e),
        (Ok(name), Ok(version)) => Ok(
            PayloadView::PackageInformation(PackageInformationView { name, version }),
        ),
    }
}

/// A `diagnosticResult` vertex carries a list of diagnostics, which is empty
/// whatever the record holds.
pub open spec fn diagnostics_of() -> Result<PayloadView, ProtocolErrorView> {
    Ok(PayloadView::Diagnostics(Seq::empty()))
}

/// A vertex label that has a decoder.
pub open spec fn is_known_label(label: Seq<char>) -> bool {
    ||| label == "metaData"@
    ||| label == "document"@
    ||| label == "range"@
    ||| label == "hoverResult"@
    ||| label == "moniker"@
    ||| label == "packageInformation"@
    ||| label == "diagnosticResult"@
}

/// What a vertex record carries, by its label: nothing where the label has
/// no decoder.
pub open spec fn vertex_of(t: JsonTree, label: Seq<char>, line: Seq<u8>) -> Result<
    Option<PayloadView>,
    ProtocolErrorView,
> {
    if !is_known_label(label) {
        Ok(None)
    } else {
        let decoded = if label == "metaData"@ {
            metadata_of(t)
        } else if label == "document"@ {
            document_of(t)
        } else if label == "range"@ {
            range_of(line)
        } else if label == "hoverResult"@ {
            hover_of()
        } else if label == "moniker"@ {
            moniker_of(t)
        } else if label == "packageInformation"@ {
            package_info_of(t)
        } else {
            diagnostics_of()
        };
        match decoded {
            Ok(p) => Ok(Some(p)),
            Err(e) => Err(e),
        }
    }
}

/// Decodes what a `metaData` vertex carries.
pub fn deserialize_metadata(value: &serde_json::Value) -> (r: Result<Payload, ProtocolError>)
    ensures
        payload_view(r) == metadata_of(value_tree(*value)),
{
    let version = get_text(value, "version")?;
    let project_root = get_text(value, "projectRoot")?;
    Ok(Payload::MetaData(MetaData { version, project_root }))
}

/// Decodes what a `document` vertex carries.
pub fn deserialize_document(value: &serde_json::Value) -> (r: Result<Payload, ProtocolError>)
    ensures
        payload_view(r) == document_of(value_tree(*value)),
{
    let text = get_text(value, "uri")?;
    match parse_uri(text.as_str()) {
        Ok(uri) => Ok(Payload::Document(Document { uri })),
        Err(m) => Err(ProtocolError::JSONParse(m)),
    }
}

/// Decodes what a `range` vertex carries, from the line that holds the record.
pub fn deserialize_range(line: &[u8]) -> (r: Result<Payload, ProtocolError>)
    ensures
        payload_view(r) == range_of(line@),
{
    match parse_range(line) {
        Ok(range) => Ok(Payload::Range(range)),
        Err(m) => Err(ProtocolError::JSONParse(m)),
    }
}

/// Refuses a `hoverResult` vertex.
pub fn deserialize_hover() -> (r: Result<Payload, ProtocolError>)
    ensures
        payload_view(r) == hover_of(),
{
    Err(ProtocolError::Other("asd".to_owned()))
}

/// Decodes what a `moniker` vertex carries.
pub fn deserialize_moniker(value: &serde_json::Value) -> (r: Result<Payload, ProtocolError>)
    ensures
        payload_view(r) == moniker_of(value_tree(*value)),
{
    let kind = get_text(value, "kind")?;
    let given = get_text(value, "scheme")?;
    let identifier = get_text(value, "identifier")?;
    let scheme = if given.as_str().is_empty() {
        "local".to_owned()
    } else {
        given
    };
    Ok(Payload::Moniker(Moniker { kind, scheme, identifier }))
}

/// Decodes what a `packageInformation` vertex carries.
pub fn deserialize_package_info(value: &serde_json::Value) -> (r: Result<Payload, ProtocolError>)
    ensures
        payload_view(r) == package_info_of(value_tree(*value)),
{
    let name = get_text(value, "name")?;
    let version = get_text(value, "version")?;
    Ok(Payload::PackageInformation(PackageInformation { name, version }))
}

/// Decodes what a `diagnosticResult` vertex carries.
pub fn deserialize_diagnostics() -> (r: Result<Payload, ProtocolError>)
    ensures
        payload_view(r) == diagnostics_of(),
{
    let none: Vec<Diagnostic> = Vec::new();
    assert(none@.map_values(|d: Diagnostic| d@) =~= Seq::<super::types::DiagnosticView>::empty());
    Ok(Payload::Diagnostics(none))
}

/// The element that a record holds. The record must have an `id`, and a
/// `type` and a `label` that are strings. Its identifier is resolved first.
/// A record of type `edge` then carries an edge; any other record is a vertex
/// and carries what its label says.
pub open spec fn element_of(ids: Map<Seq<char>, u64>, t: JsonTree, line: Seq<u8>) -> Step<
    ElementView,
> {
    if t.member("id"@) is None {
        Step { ids, out: Err(shape_error("id"@)) }
    } else {
        match (text_member(t, "type"@), text_member(t, "label"@)) {
            (Err(e), _) => Step { ids, out: Err(e) },
            (Ok(_), Err(e)) => Step { ids, out: Err(e) },
            (Ok(el_type), Ok(label)) => {
                let first = resolve_of(ids, t.member("id"@)->Some_0);
                match first.out {
                    Err(e) => Step { ids: first.ids, out: Err(e) },
                    Ok(id) => if el_type == "edge"@ {
                        let edge = edge_of(first.ids, t);
                        Step {
                            ids: edge.ids,
                            out: match edge.out {
                                Ok(p) => Ok(ElementView { id, el_type, label, payload: Some(p) }),
                                Err(e) => Err(e),
                            },
                        }
                    } else {
                        Step {
                            ids: first.ids,
                            out: match vertex_of(t, label, line) {
                                Ok(payload) => Ok(ElementView { id, el_type, label, payload }),
                                Err(e) => Err(e),
                            },
                        }
                    },
                }
            },
        }
    }
}

/// The element that a line of the input holds: the line must be JSON, and is
/// then decoded as `element_of` says.
#[verifier::opaque]
pub open spec fn decode_line(ids: Map<Seq<char>, u64>, line: Seq<u8>) -> Step<ElementView> {
    match json_text(line) {
        Ok(t) => element_of(ids, t, line),
        Err(m) => Step { ids, out: Err(ProtocolErrorView::JSONParse(m)) },
    }
}

/// Decodes what a vertex record carries, by its label.
pub fn deserialize_vertex(value: &serde_json::Value, label: &str, line: &[u8]) -> (r: Result<
    Option<Payload>,
    ProtocolError,
>)
    ensures
        match r {
            Ok(Some(p)) => vertex_of(value_tree(*value), label@, line@) == Ok::<
                Option<PayloadView>,
                ProtocolErrorView,
            >(Some(p@)),
            Ok(None) => vertex_of(value_tree(*value), label@, line@) == Ok::<
                Option<PayloadView>,
                ProtocolErrorView,
            >(None),
            Err(e) => vertex_of(value_tree(*value), label@, line@) == Err::<
                Option<PayloadView>,
                ProtocolErrorView,
            >(e@),
        },
{
    let decoded = if same_text(label, "metaData") {
        deserialize_metadata(value)
    } else if same_text(label, "document") {
        deserialize_document(value)
    } else if same_text(label, "range") {
        deserialize_range(line)
    } else if same_text(label, "hoverResult") {
        deserialize_hover()
    } else if same_text(label, "moniker") {
        deserialize_moniker(value)
    } else if same_text(label, "packageInformation") {
        deserialize_package_info(value)
    } else if same_text(label, "diagnosticResult") {
        deserialize_diagnostics()
    } else {
        return Ok(None);
    };
    match decoded {
        Ok(p) => Ok(Some(p)),
        Err(e) => Err(e),
    }
}

/// Decodes the element that a parsed record holds. `line` is the text that
/// `value` was parsed from.
pub fn deserialize_value(interner: &mut Interner, value: &serde_json::Value, line: &[u8]) -> (r:
    Result<Element, ProtocolError>)
    ensures
        outcome_view(r) == element_of(old(interner)@, value_tree(*value), line@).out,
        final(interner)@ == element_of(old(interner)@, value_tree(*value), line@).ids,
{
    let id_member = match value_get(value, "id") {
        Some(member) => member,
        None => {
            return Err(shape("id"));
        },
    };
    let el_type = get_text(value, "type")?;
    let label = get_text(value, "label")?;
    let id = resolve(interner, id_member)?;
    let payload = if same_text(el_type.as_str(), "edge") {
        match deserialize_edge(interner, value) {
            Ok(p) => Some(p),
            Err(e) => {
                return Err(e);
            },
        }
    } else {
        match deserialize_vertex(value, label.as_str(), line) {
            Ok(p) => p,
            Err(e) => {
                return Err(e);
            },
        }
    };
    Ok(Element { id, el_type, label, payload })
}

/// Parses one line of the input as JSON. Nothing is interned, so lines can
/// be parsed side by side before their records are decoded one by one.
pub fn parse_line(line: &[u8]) -> (r: Result<serde_json::Value, ProtocolError>)
    ensures
        match r {
            Ok(value) => json_text(line@) == Ok::<JsonTree, Seq<char>>(value_tree(value)),
            Err(e) => json_text(line@) is Err && e@ == ProtocolErrorView::JSONParse(
                json_text(line@)->Err_0,
            ),
        },
{
    match parse_value(line) {
        Ok(value) => Ok(value),
        Err(m) => Err(ProtocolError::JSONParse(m)),
    }
}

/// Decodes one line of the input into the element it holds, interning the
/// identifiers of the record.
pub fn deserialize_element(interner: &mut Interner, line: &[u8]) -> (r: Result<
    Element,
    ProtocolError,
>)
    ensures
        outcome_view(r) == decode_line(old(interner)@, line@).out,
        final(interner)@ == decode_line(old(interner)@, line@).ids,
        well_formed(final(interner)@),
{
    proof {
        use_type_invariant(&*interner);
        lemma_decode_keeps_form(interner@, line@);
    }
    reveal(decode_line);
    let value = parse_line(line)?;
    deserialize_value(interner, &value, line)
}

/// Resolving the identifiers of a list leaves the interned texts well formed.
proof fn lemma_resolve_all_keeps_form(ids: Map<Seq<char>, u64>, items: Seq<JsonTree>)
    requires
        well_formed(ids),
    ensures
        well_formed(resolve_all(ids, items).ids),
    decreases items.len(),
{
    reveal(resolve_all);
    if items.len() > 0 {
        lemma_resolve_all_keeps_form(ids, items.drop_last());
        let before = resolve_all(ids, items.drop_last());
        if let JsonTree::Text(s) = items.last() {
            lemma_intern_keeps_form(before.ids, quoted(s));
        }
    }
}

/// Decoding an edge leaves the interned texts well formed.
proof fn lemma_edge_keeps_form(ids: Map<Seq<char>, u64>, t: JsonTree)
    requires
        well_formed(ids),
    ensures
        well_formed(edge_of(ids, t).ids),
{
    if t.member("outV"@) is Some && items_of(t.member("inVs"@)) is Some {
        let a = resolve_of(ids, t.member("outV"@)->Some_0);
        if let JsonTree::Text(s) = t.member("outV"@)->Some_0 {
            lemma_intern_keeps_form(ids, quoted(s));
        }
        let b = optional_of(a.ids, t.member("inV"@));
        if let Some(JsonTree::Text(s)) = t.member("inV"@) {
            lemma_intern_keeps_form(a.ids, quoted(s));
        }
        let c = optional_of(b.ids, t.member("document"@));
        if let Some(JsonTree::Text(s)) = t.member("document"@) {
            lemma_intern_keeps_form(b.ids, quoted(s));
        }
        lemma_resolve_all_keeps_form(c.ids, items_of(t.member("inVs"@))->Some_0);
    }
}

/// Decoding a line leaves the interned texts well formed, whether the line
/// can be decoded or not.
pub proof fn lemma_decode_keeps_form(ids: Map<Seq<char>, u64>, line: Seq<u8>)
    requires
        well_formed(ids),
    ensures
        well_formed(decode_line(ids, line).ids),
{
    reveal(decode_line);
    if let Ok(t) = json_text(line) {
        if let Some(JsonTree::Text(s)) = t.member("id"@) {
            lemma_intern_keeps_form(ids, quoted(s));
        }
        if let Some(id) = t.member("id"@) {
            lemma_edge_keeps_form(resolve_of(ids, id).ids, t);
        }
    }
}

/// Where an edge record gives `outV` and `inV` as strings, the edge holds the
/// identifiers that interning those strings, each between its quotes, gives:
/// first `outV`, then `inV`.
pub proof fn lemma_edge_ids_are_interned(
    ids: Map<Seq<char>, u64>,
    t: JsonTree,
    out_text: Seq<char>,
    in_text: Seq<char>,
)
    requires
        t.member("outV"@) == Some(JsonTree::Text(out_text)),
        t.member("inV"@) == Some(JsonTree::Text(in_text)),
    ensures
        match edge_of(ids, t).out {
            Ok(PayloadView::Edge(edge)) => {
                &&& intern_result(ids, quoted(out_text)) == Ok::<u64, InternError>(edge.out_v)
                &&& intern_result(intern_state(ids, quoted(out_text)), quoted(in_text)) == Ok::<
                    u64,
                    InternError,
                >(edge.in_v)
            },
            Ok(_) => false,
            Err(_) => true,
        },
{
}

/// A string is an identifier whatever its text: it resolves, to the number it
/// writes or to the identifier of its text, unless it is a new text and every
/// identifier has been handed out.
pub proof fn lemma_text_resolves(ids: Map<Seq<char>, u64>, text: Seq<char>)
    ensures
        resolve_of(ids, JsonTree::Text(text)).out is Ok || (ids.len() >= u64::MAX && resolve_of(
            ids,
            JsonTree::Text(text),
        ).out == Err::<u64, ProtocolErrorView>(
            ProtocolErrorView::IDParse(InternError::Exhausted),
        )),
        decimal_u64(encode_utf8(text)) is None && resolve_of(ids, JsonTree::Text(text)).out is Ok
            ==> resolve_of(ids, JsonTree::Text(text)).ids.contains_key(text) && resolve_of(
            ids,
            JsonTree::Text(text),
        ).ids[text] == resolve_of(ids, JsonTree::Text(text)).out->Ok_0,
{
    lemma_quoted_is_symbol(text);
}

/// The error is none that an identifier gives, or it says that every
/// identifier has been handed out.
pub open spec fn no_identifier_refused<T>(out: Result<T, ProtocolErrorView>) -> bool {
    match out {
        Err(ProtocolErrorView::IDParse(e)) => e == InternError::Exhausted,
        _ => true,
    }
}

proof fn lemma_list_refuses_no_identifier(ids: Map<Seq<char>, u64>, items: Seq<JsonTree>)
    ensures
        no_identifier_refused(resolve_all(ids, items).out),
    decreases items.len(),
{
    reveal(resolve_all);
    if items.len() > 0 {
        lemma_list_refuses_no_identifier(ids, items.drop_last());
        if let JsonTree::Text(text) = items.last() {
            lemma_text_resolves(resolve_all(ids, items.drop_last()).ids, text);
        }
    }
}

/// No record is refused for the text of an identifier: decoding reports an
/// identifier only when a new text finds every identifier handed out.
pub proof fn lemma_no_identifier_refused(ids: Map<Seq<char>, u64>, t: JsonTree, line: Seq<u8>)
    ensures
        no_identifier_refused(element_of(ids, t, line).out),
        no_identifier_refused(edge_of(ids, t).out),
{
    assert forall|from: Map<Seq<char>, u64>| no_identifier_refused(
        #[trigger] edge_of(from, t).out,
    ) by {
        if t.member("outV"@) is Some && items_of(t.member("inVs"@)) is Some {
            let a = resolve_of(from, t.member("outV"@)->Some_0);
            if let JsonTree::Text(text) = t.member("outV"@)->Some_0 {
                lemma_text_resolves(from, text);
            }
            let b = optional_of(a.ids, t.member("inV"@));
            if let Some(JsonTree::Text(text)) = t.member("inV"@) {
                lemma_text_resolves(a.ids, text);
            }
            let c = optional_of(b.ids, t.member("document"@));
            if let Some(JsonTree::Text(text)) = t.member("document"@) {
                lemma_text_resolves(b.ids, text);
            }
            lemma_list_refuses_no_identifier(c.ids, items_of(t.member("inVs"@))->Some_0);
        }
    }
    if let Some(JsonTree::Text(text)) = t.member("id"@) {
        lemma_text_resolves(ids, text);
    }
}

/// A vertex whose label has no decoder is an element that carries nothing:
/// the label is no reason for an error.
pub proof fn lemma_unknown_label_carries_nothing(
    ids: Map<Seq<char>, u64>,
    t: JsonTree,
    line: Seq<u8>,
    el_type: Seq<char>,
    label: Seq<char>,
)
    requires
        t.member("id"@) is Some,
        text_member(t, "type"@) == Ok::<Seq<char>, ProtocolErrorView>(el_type),
        text_member(t, "label"@) == Ok::<Seq<char>, ProtocolErrorView>(label),
        el_type != "edge"@,
        !is_known_label(label),
    ensures
        element_of(ids, t, line).out == match resolve_of(ids, t.member("id"@)->Some_0).out {
            Ok(id) => Ok::<ElementView, ProtocolErrorView>(
                ElementView { id, el_type, label, payload: None },
            ),
            Err(e) => Err::<ElementView, ProtocolErrorView>(e),
        },
{
}

/// A moniker whose scheme is empty has the scheme `local`.
pub proof fn lemma_empty_scheme_is_local(t: JsonTree, kind: Seq<char>, identifier: Seq<char>)
    requires
        text_member(t, "kind"@) == Ok::<Seq<char>, ProtocolErrorView>(kind),
        text_member(t, "scheme"@) == Ok::<Seq<char>, ProtocolErrorView>(Seq::empty()),
        text_member(t, "identifier"@) == Ok::<Seq<char>, ProtocolErrorView>(identifier),
    ensures
        moniker_of(t) == Ok::<PayloadView, ProtocolErrorView>(
            PayloadView::Moniker(MonikerView { kind, scheme: "local"@, identifier }),
        ),
{
}

/// The element carries an edge.
pub open spec fn carries_edge(payload: Option<PayloadView>) -> bool {
    payload matches Some(PayloadView::Edge(_))
}

/// An element carries an edge exactly when its type is `edge`; any other
/// element carries something exactly when its label has a decoder.
pub proof fn lemma_payload_follows_kind(ids: Map<Seq<char>, u64>, t: JsonTree, line: Seq<u8>)
    ensures
        match element_of(ids, t, line).out {
            Ok(element) => {
                &&& element.el_type == "edge"@ <==> carries_edge(element.payload)
                &&& element.el_type != "edge"@ ==> (element.payload is Some <==> is_known_label(
                    element.label,
                ))
            },
            Err(_) => true,
        },
{
}

} // verus!
