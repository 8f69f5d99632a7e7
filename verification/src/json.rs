//! JSON documents as the services exchange them, and the reading of their
//! members.
//!
//! A message is parsed by `serde_json` into a [`Json`] value; everything
//! after that (which member is read, which default stands in for a missing
//! one) is verified here. A member that is absent, or a value of another kind
//! than the one asked for, reads as `None`, the way `serde_json` indexing
//! reads it as `null`.
use vstd::prelude::*;

verus! {

#[verifier::external_type_specification]
#[verifier::external_body]
pub struct ExJsonValue(serde_json::Value);

/// A parsed JSON value. A number is kept as the text that `serde_json`
/// prints for it; an object keeps its members in the order `serde_json`
/// hands them out.
#[derive(Debug, PartialEq)]
pub enum Json {
    Null,
    Bool(bool),
    Number(String),
    Text(String),
    Array(Vec<Json>),
    Object(Vec<(String, Json)>),
}

/// What `serde_json::from_str::<serde_json::Value>` gives for `text`
/// (`None` where it reports an error), in the form of a [`Json`].
pub uninterp spec fn spec_parse_json(text: Seq<char>) -> Option<Json>;

/// The value that a reference points to.
pub open spec fn spec_opt(m: Option<&Json>) -> Option<Json> {
    match m {
        Some(v) => Some(*v),
        None => None,
    }
}

/// The character view of an optional string.
pub open spec fn spec_opt_text(o: Option<String>) -> Option<Seq<char>> {
    match o {
        Some(s) => Some(s@),
        None => None,
    }
}

/// The value of the first member of `entries` named `key`.
pub open spec fn spec_lookup(entries: Seq<(String, Json)>, key: Seq<char>) -> Option<Json>
    decreases entries.len(),
{
    if entries.len() == 0 {
        None
    } else if entries[0].0@ == key {
        Some(entries[0].1)
    } else {
        spec_lookup(entries.drop_first(), key)
    }
}

/// The member `key` of `m`, where `m` is an object that has one.
pub open spec fn spec_field(m: Option<Json>, key: Seq<char>) -> Option<Json> {
    match m {
        Some(Json::Object(entries)) => spec_lookup(entries@, key),
        _ => None,
    }
}

/// The element `i` of `m`, where `m` is an array that long.
pub open spec fn spec_item(m: Option<Json>, i: int) -> Option<Json> {
    match m {
        Some(Json::Array(items)) => if 0 <= i < items@.len() {
            Some(items@[i])
        } else {
            None
        },
        _ => None,
    }
}

/// The elements of `m`, where `m` is an array.
pub open spec fn spec_elements(m: Option<Json>) -> Option<Seq<Json>> {
    match m {
        Some(Json::Array(items)) => Some(items@),
        _ => None,
    }
}

/// The characters of `m`, where `m` is a string.
pub open spec fn spec_text(m: Option<Json>) -> Option<Seq<char>> {
    match m {
        Some(Json::Text(s)) => Some(s@),
        _ => None,
    }
}

/// The characters of `m` where `m` is a string, else `default`.
pub open spec fn spec_text_or(m: Option<Json>, default: Seq<char>) -> Seq<char> {
    match spec_text(m) {
        Some(t) => t,
        None => default,
    }
}

/// The printed form of `m`, where `m` is a number.
pub open spec fn spec_number(m: Option<Json>) -> Option<Seq<char>> {
    match m {
        Some(Json::Number(s)) => Some(s@),
        _ => None,
    }
}

/// Converts a parsed `serde_json::Value` into a [`Json`], variant for
/// variant (a number by its `Display` text, an object's members in the
/// order its map yields them). It is the conversion half of `parse_json`,
/// apart only because it recurses; it states nothing of its own.
#[verifier::external_body]
fn json_of_value(value: serde_json::Value) -> Json {
    match value {
        serde_json::Value::Null => Json::Null,
        serde_json::Value::Bool(b) => Json::Bool(b),
        serde_json::Value::Number(n) => Json::Number(n.to_string()),
        serde_json::Value::String(s) => Json::Text(s),
        serde_json::Value::Array(items) => Json::Array(items.into_iter().map(json_of_value).collect()),
        serde_json::Value::Object(map) => Json::Object(
            map.into_iter().map(|(k, v)| (k, json_of_value(v))).collect(),
        ),
    }
}

/// `serde_json::from_str::<serde_json::Value>`: the document that `text`
/// holds, `None` where the parser reports an error. Trusted to be a function
/// of the text alone, named by `spec_parse_json`; what the parser accepts is
/// not stated.
#[verifier::external_body]
fn parse_json(text: &str) -> (doc: Option<Json>)
    ensures
        doc == spec_parse_json(text@),
{
    match serde_json::from_str::<serde_json::Value>(text) {
        Ok(value) => Some(json_of_value(value)),
        Err(_) => None,
    }
}

/// Parses a message: the document that `text` holds, or `None` where it is
/// not JSON.
pub fn parse_document(text: &str) -> (doc: Option<Json>)
    ensures
        doc == spec_parse_json(text@),
{
    parse_json(text)
}

/// The member `key` of `m`, where `m` is an object that has one.
pub fn field<'a>(m: Option<&'a Json>, key: &str) -> (r: Option<&'a Json>)
    ensures
        spec_opt(r) == spec_field(spec_opt(m), key@),
{
    match m {
        Some(Json::Object(entries)) => {
            let k = key.to_owned();
            let mut i: usize = 0;
            assert(entries@.subrange(0, entries@.len() as int) =~= entries@);
            while i < entries.len()
                invariant
                    0 <= i <= entries@.len(),
                    k@ == key@,
                    spec_opt(m) == Some(Json::Object(*entries)),
                    spec_lookup(entries@, key@) == spec_lookup(
                        entries@.subrange(i as int, entries@.len() as int),
                        key@,
                    ),
                decreases entries@.len() - i,
            {
                if entries[i].0 == k {
                    assert(entries@.subrange(i as int, entries@.len() as int)[0] == entries@[i as int]);
                    return Some(&entries[i].1);
                }
                assert(entries@.subrange(i as int, entries@.len() as int).drop_first()
                    =~= entries@.subrange(i + 1, entries@.len() as int));
                i = i + 1;
            }
            None
        },
        _ => None,
    }
}

/// The element `i` of `m`, where `m` is an array that long.
pub fn item<'a>(m: Option<&'a Json>, i: usize) -> (r: Option<&'a Json>)
    ensures
        spec_opt(r) == spec_item(spec_opt(m), i as int),
{
    match m {
        Some(Json::Array(items)) => {
            if i < items.len() {
                Some(&items[i])
            } else {
                None
            }
        },
        _ => None,
    }
}

/// The elements of `m`, where `m` is an array.
pub fn elements<'a>(m: Option<&'a Json>) -> (r: Option<&'a Vec<Json>>)
    ensures
        match r {
            Some(v) => spec_elements(spec_opt(m)) == Some(v@),
            None => spec_elements(spec_opt(m)) is None,
        },
{
    match m {
        Some(Json::Array(items)) => Some(items),
        _ => None,
    }
}

/// The string `m`, or `default` where `m` is not a string.
pub fn text_or(m: Option<&Json>, default: &str) -> (s: String)
    ensures
        s@ == spec_text_or(spec_opt(m), default@),
{
    match m {
        Some(Json::Text(t)) => t.clone(),
        _ => default.to_owned(),
    }
}

/// The printed form of `m`, where `m` is a number.
pub fn number(m: Option<&Json>) -> (s: Option<String>)
    ensures
        spec_opt_text(s) == spec_number(spec_opt(m)),
{
    match m {
        Some(Json::Number(t)) => Some(t.clone()),
        _ => None,
    }
}

/// A member is found by its name, the first one of that name: when member
/// `j` of an object is named `key` and no earlier one is, the lookup gives
/// its value; when none is, the lookup gives nothing.
pub proof fn lemma_lookup_first_match(entries: Seq<(String, Json)>, key: Seq<char>, j: int)
    ensures
        0 <= j < entries.len() && entries[j].0@ == key && (forall|k: int|
            0 <= k < j ==> (#[trigger] entries[k]).0@ != key) ==> spec_lookup(entries, key) == Some(
            entries[j].1,
        ),
        (forall|k: int| 0 <= k < entries.len() ==> (#[trigger] entries[k]).0@ != key) ==> spec_lookup(
            entries,
            key,
        ) is None,
    decreases entries.len(),
{
    if entries.len() > 0 {
        let rest = entries.drop_first();
        lemma_lookup_first_match(rest, key, j - 1);
        if 0 <= j < entries.len() && entries[j].0@ == key && (forall|k: int|
            0 <= k < j ==> (#[trigger] entries[k]).0@ != key) {
            if j > 0 {
                assert(entries[0].0@ != key);
                assert(rest[j - 1] == entries[j]);
                assert forall|k: int| 0 <= k < j - 1 implies (#[trigger] rest[k]).0@ != key by {
                    assert(rest[k] == entries[k + 1]);
                }
            }
        }
        if forall|k: int| 0 <= k < entries.len() ==> (#[trigger] entries[k]).0@ != key {
            assert(entries[0].0@ != key);
            assert forall|k: int| 0 <= k < rest.len() implies (#[trigger] rest[k]).0@ != key by {
                assert(rest[k] == entries[k + 1]);
            }
        }
    }
}

} // verus!
