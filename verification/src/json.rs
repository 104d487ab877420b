//! Looking up texts in JSON documents, which `serde_json` parses.
use crate::text::{optional_string, optional_text};
use serde_json::Value;
use vstd::prelude::*;

verus! {

/// A parsed JSON document, of `serde_json`.
#[verifier::external_type_specification]
#[verifier::external_body]
pub struct ExValue(serde_json::Value);

/// What `serde_json::from_str` reports on text that is no JSON document.
#[verifier::external_type_specification]
#[verifier::external_body]
pub struct ExJsonError(serde_json::Error);

/// What a JSON value holds along its object members. A path is the sequence of the member names
/// that lead from the value to one inside it, and it is a key of the map where those members
/// exist; the empty path leads to the value itself and always is one. The map gives the text of a
/// value that is a string, and `None` for a value of another type.
pub uninterp spec fn json_members(value: serde_json::Value) -> Map<
    Seq<Seq<char>>,
    Option<Seq<char>>,
>;

/// What `serde_json` reads in a text: what the document holds along its object members, or `None`
/// where the text is no JSON document.
pub uninterp spec fn parsed_members(text: Seq<char>) -> Option<
    Map<Seq<Seq<char>>, Option<Seq<char>>>,
>;

/// The members of the value that `members` has at the member `name`.
pub open spec fn members_below(
    members: Map<Seq<Seq<char>>, Option<Seq<char>>>,
    name: Seq<char>,
) -> Map<Seq<Seq<char>>, Option<Seq<char>>> {
    Map::new(
        |path: Seq<Seq<char>>| members.contains_key(seq![name] + path),
        |path: Seq<Seq<char>>| members[seq![name] + path],
    )
}

/// The text of the string at `path`, if there is a value at `path` and it is a string.
pub open spec fn text_at(
    members: Map<Seq<Seq<char>>, Option<Seq<char>>>,
    path: Seq<Seq<char>>,
) -> Option<Seq<char>> {
    if members.contains_key(path) {
        members[path]
    } else {
        None
    }
}

/// The text of the string at `path` in the JSON document `text`, if `text` is a JSON document
/// with a string there.
pub open spec fn document_text_at(text: Seq<char>, path: Seq<Seq<char>>) -> Option<Seq<char>> {
    match parsed_members(text) {
        Some(members) => text_at(members, path),
        None => None,
    }
}

/// Calls `serde_json::from_str` for a `Value`. The contract claims that the outcome depends on the
/// text alone, and gives it the name `parsed_members`.
#[verifier::external_body]
pub(crate) fn parse_value(text: &str) -> (outcome: Result<Value, serde_json::Error>)
    ensures
        match outcome {
            Ok(value) => parsed_members(text@) == Some(json_members(value)),
            Err(_) => parsed_members(text@) is None,
        },
{
    serde_json::from_str(text)
}

/// Calls `Value::get` with a member name. The contract claims that it finds the member of that
/// name where the value is an object that has one, and nothing otherwise.
#[verifier::external_body]
fn member<'a>(value: &'a Value, name: &str) -> (found: Option<&'a Value>)
    ensures
        match found {
            Some(inner) => json_members(*value).contains_key(seq![name@]) && json_members(*inner)
                == members_below(json_members(*value), name@),
            None => members_below(json_members(*value), name@) == Map::<
                Seq<Seq<char>>,
                Option<Seq<char>>,
            >::empty(),
        },
{
    value.get(name)
}

/// Calls `Value::as_str`. The contract claims that it gives the text of a value that is a string,
/// and nothing for a value of another type.
#[verifier::external_body]
fn string_of<'a>(value: &'a Value) -> (text: Option<&'a str>)
    ensures
        optional_text(text) == text_at(json_members(*value), Seq::empty()),
{
    value.as_str()
}

/// The texts of a path's member names.
pub open spec fn path_texts(path: Seq<&str>) -> Seq<Seq<char>> {
    path.map_values(|name: &str| name@)
}

/// The text of the string that `path` leads to from `value`.
pub(crate) fn text_below<'a>(value: &'a Value, path: &[&str]) -> (found: Option<&'a str>)
    ensures
        optional_text(found) == text_at(json_members(*value), path_texts(path@)),
{
    let ghost whole = json_members(*value);
    let ghost names = path_texts(path@);
    let mut current: &'a Value = value;
    let mut depth: usize = 0;
    assert(names.skip(0) =~= names);
    while depth < path.len()
        invariant
            depth <= path.len(),
            whole == json_members(*value),
            names == path_texts(path@),
            text_at(json_members(*current), names.skip(depth as int)) == text_at(whole, names),
        decreases path.len() - depth,
    {
        let ghost rest = names.skip(depth as int);
        let ghost here = json_members(*current);
        assert(seq![path[depth as int]@] + names.skip(depth + 1) =~= rest);
        match member(current, path[depth]) {
            Some(inner) => {
                assert(text_at(json_members(*inner), names.skip(depth + 1)) == text_at(here, rest));
                current = inner;
            },
            None => {
                assert(!members_below(here, path[depth as int]@).contains_key(
                    names.skip(depth + 1),
                ));
                return None;
            },
        }
        depth += 1;
    }
    assert(names.skip(depth as int) =~= Seq::empty());
    string_of(current)
}

/// The text of the string at `path` in the JSON document `text`, if `text` is a JSON document
/// with a string there.
pub fn document_text(text: &str, path: &[&str]) -> (found: Option<String>)
    ensures
        optional_string(found) == document_text_at(text@, path_texts(path@)),
{
    match parse_value(text) {
        Ok(value) => match text_below(&value, path) {
            Some(found) => Some(found.to_owned()),
            None => None,
        },
        Err(_) => None,
    }
}

/// A text is found in a document exactly where the document can be read, has a value at the path,
/// and the value is a string with that text.
pub proof fn law_texts_are_found_where_they_are(
    text: Seq<char>,
    path: Seq<Seq<char>>,
    found: Seq<char>,
)
    ensures
        document_text_at(text, path) == Some(found) <==> (parsed_members(text) matches Some(members)
            && members.contains_key(path) && members[path] == Some(found)),
{
}

/// A path has the texts of its names, each at its place.
pub proof fn law_paths_keep_their_names(path: Seq<&str>)
    ensures
        path_texts(path).len() == path.len(),
        forall|i: int| 0 <= i < path.len() ==> #[trigger] path_texts(path)[i] == path[i]@,
{
}

} // verus!
