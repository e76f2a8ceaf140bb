//! JSON as the decoder sees it. Parsing is left to `serde_json`, `lsp_types`
//! and `url`; this module names what they return and states, for each call,
//! what the decoder relies on.

use super::types::Range;
use vstd::prelude::*;

verus! {

/// What a JSON value holds. A number is told apart only as far as the decoder
/// reads it: an integer from 0 to `u64::MAX`, or any other number.
pub enum JsonTree {
    Null,
    Bool(bool),
    Unsigned(u64),
    Number,
    Text(Seq<char>),
    List(Seq<JsonTree>),
    Object(Map<Seq<char>, JsonTree>),
}

impl JsonTree {
    /// The member `key` of an object; nothing where there is none, or where
    /// this is no object.
    pub open spec fn member(self, key: Seq<char>) -> Option<JsonTree> {
        match self {
            JsonTree::Object(members) => if members.contains_key(key) {
                Some(members[key])
            } else {
                None
            },
            _ => None,
        }
    }
}

#[verifier::external_type_specification]
#[verifier::external_body]
pub struct ExValue(serde_json::Value);

/// What a `serde_json::Value` holds.
pub uninterp spec fn value_tree(v: serde_json::Value) -> JsonTree;

/// What each of some values holds, in their order.
pub open spec fn value_trees(items: Seq<serde_json::Value>) -> Seq<JsonTree> {
    items.map_values(|item: serde_json::Value| value_tree(item))
}

/// What `serde_json::from_slice` makes of `bytes` when asked for a
/// `serde_json::Value`: the value's tree, or the text of the error.
pub uninterp spec fn json_text(bytes: Seq<u8>) -> Result<JsonTree, Seq<char>>;

/// What `serde_json::from_slice` makes of `bytes` when asked for an
/// `lsp_types::Range`: the four numbers of the range, or the text of the error.
pub uninterp spec fn range_text(bytes: Seq<u8>) -> Result<Range, Seq<char>>;

/// What `url::Url::parse` makes of `text`: the URL in its normal form, or the
/// text of the error.
pub uninterp spec fn uri_text(text: Seq<char>) -> Result<Seq<char>, Seq<char>>;

/// `serde_json::from_slice::<serde_json::Value>`. The value that comes back
/// holds the tree that `json_text` names; an error comes back as its text.
#[verifier::external_body]
pub(crate) fn parse_value(line: &[u8]) -> (r: Result<serde_json::Value, String>)
    ensures
        match r {
            Ok(v) => json_text(line@) == Ok::<JsonTree, Seq<char>>(value_tree(v)),
            Err(m) => json_text(line@) == Err::<JsonTree, Seq<char>>(m@),
        },
{
    match serde_json::from_slice::<serde_json::Value>(line) {
        Ok(v) => Ok(v),
        Err(e) => Err(format!("{}", e)),
    }
}

/// `serde_json::from_slice::<lsp_types::Range>`. The four numbers are those of
/// the range that comes back; an error comes back as its text.
#[verifier::external_body]
pub(crate) fn parse_range(line: &[u8]) -> (r: Result<Range, String>)
    ensures
        match r {
            Ok(range) => range_text(line@) == Ok::<Range, Seq<char>>(range),
            Err(m) => range_text(line@) == Err::<Range, Seq<char>>(m@),
        },
{
    match serde_json::from_slice::<lsp_types::Range>(line) {
        Ok(r) => Ok(
            Range {
                start_line: r.start.line,
                start_character: r.start.character,
                end_line: r.end.line,
                end_character: r.end.character,
            },
        ),
        Err(e) => Err(format!("{}", e)),
    }
}

/// `url::Url::parse`, under the name that `lsp_types` gives it. A URL comes
/// back as its serialization, an error as its text.
#[verifier::external_body]
pub(crate) fn parse_uri(text: &str) -> (r: Result<String, String>)
    ensures
        match r {
            Ok(uri) => uri_text(text@) == Ok::<Seq<char>, Seq<char>>(uri@),
            Err(m) => uri_text(text@) == Err::<Seq<char>, Seq<char>>(m@),
        },
{
    match lsp_types::Url::parse(text) {
        Ok(url) => Ok(String::from(url)),
        Err(e) => Err(format!("{}", e)),
    }
}

/// `serde_json::Value::get` with a string: the member of that name where the
/// value is an object that has one, nothing otherwise.
#[verifier::external_body]
pub(crate) fn value_get<'a>(v: &'a serde_json::Value, key: &str) -> (r: Option<
    &'a serde_json::Value,
>)
    ensures
        match r {
            Some(member) => value_tree(*v).member(key@) == Some(value_tree(*member)),
            None => value_tree(*v).member(key@) is None,
        },
{
    v.get(key)
}

/// `serde_json::Value::as_str`: the text of a string, nothing for any other
/// value.
#[verifier::external_body]
pub(crate) fn value_as_str(v: &serde_json::Value) -> (r: Option<&str>)
    ensures
        match r {
            Some(s) => value_tree(*v) == JsonTree::Text(s@),
            None => !(value_tree(*v) is Text),
        },
{
    v.as_str()
}

/// `serde_json::Value::as_u64`: the number where the value is an integer from
/// 0 to `u64::MAX`, nothing for any other value.
#[verifier::external_body]
pub(crate) fn value_as_u64(v: &serde_json::Value) -> (r: Option<u64>)
    ensures
        match r {
            Some(n) => value_tree(*v) == JsonTree::Unsigned(n),
            None => !(value_tree(*v) is Unsigned),
        },
{
    v.as_u64()
}

/// `serde_json::Value::as_array`: the items of an array, in order, nothing for
/// any other value.
#[verifier::external_body]
pub(crate) fn value_as_array(v: &serde_json::Value) -> (r: Option<&Vec<serde_json::Value>>)
    ensures
        match r {
            Some(items) => value_tree(*v) == JsonTree::List(value_trees(items@)),
            None => !(value_tree(*v) is List),
        },
{
    v.as_array()
}

/// `serde_json::Value::is_null`.
#[verifier::external_body]
pub(crate) fn value_is_null(v: &serde_json::Value) -> (r: bool)
    ensures
        r == (value_tree(*v) is Null),
{
    v.is_null()
}

} // verus!
