//! The metadata record of a collection, and its form as text.
//!
//! The text is JSON, written and read by `serde_json`. What that crate makes
//! of a given text is not stated here; it is named, and the decisions that
//! rest on it are stated over the names. Which members a record has is
//! decided here: the calls into the crate are handed the members' names.

use crate::text::{chars_of, same_chars};
use vstd::prelude::*;

verus! {

/// What is known of one collection. Each member is there only if the
/// collection's metadata record holds it with the right type; a collection
/// without a readable record has its directory's name for both identifier
/// and name.
#[derive(Clone, Debug, PartialEq, Eq)]
pub struct CollectionRecord {
    /// The identifier, which is also the name of the collection's directory.
    pub id: Option<String>,
    /// The name as the user wrote it.
    pub name: Option<String>,
    /// Seconds since the epoch at creation.
    pub created_at: Option<u64>,
}

/// A record as contracts speak of it.
pub struct RecordView {
    pub id: Option<Seq<char>>,
    pub name: Option<Seq<char>>,
    pub created_at: Option<u64>,
}

impl View for CollectionRecord {
    type V = RecordView;

    open spec fn view(&self) -> RecordView {
        RecordView {
            id: match self.id {
                Some(s) => Some(s@),
                None => None,
            },
            name: match self.name {
                Some(s) => Some(s@),
                None => None,
            },
            created_at: self.created_at,
        }
    }
}

/// What `serde_json::from_str` makes of a text, seen through three members
/// of the value: nothing where the text is not JSON; else, in the order of
/// the keys given, a string member as identifier, a string member as name
/// and a member that is a number fitting `u64` as second of creation, each
/// where the value has it.
pub uninterp spec fn meta_fields(
    text: Seq<char>,
    id_key: Seq<char>,
    name_key: Seq<char>,
    created_key: Seq<char>,
) -> Option<RecordView>;

/// The text that `serde_json::to_string_pretty` writes for the object with
/// three members under the keys given: two strings and a number; nothing
/// where it fails.
pub uninterp spec fn meta_text(
    id_key: Seq<char>,
    id: Seq<char>,
    name_key: Seq<char>,
    name: Seq<char>,
    created_key: Seq<char>,
    created_at: u64,
) -> Option<Seq<char>>;

/// Reads a text with `serde_json::from_str` into a `serde_json::Value` and
/// picks the members under the three keys with `Value::get`, `Value::as_str`
/// and `Value::as_u64`. The contract claims only that the outcome is a
/// function of the text and the keys.
#[verifier::external_body]
pub(crate) fn parse_meta(text: &str, id_key: &str, name_key: &str, created_key: &str) -> (r:
    Option<CollectionRecord>)
    ensures
        match r {
            Some(found) => meta_fields(text@, id_key@, name_key@, created_key@) == Some(found@),
            None => meta_fields(text@, id_key@, name_key@, created_key@) is None,
        },
{
    match serde_json::from_str::<serde_json::Value>(text) {
        Ok(value) => Some(
            CollectionRecord {
                id: value.get(id_key).and_then(serde_json::Value::as_str).map(String::from),
                name: value.get(name_key).and_then(serde_json::Value::as_str).map(String::from),
                created_at: value.get(created_key).and_then(serde_json::Value::as_u64),
            },
        ),
        Err(_) => None,
    }
}

/// Writes the object with three members under the keys given with
/// `serde_json::to_string_pretty`. The contract claims only that the
/// outcome is a function of the keys and the values.
#[verifier::external_body]
pub(crate) fn format_meta(
    id_key: &str,
    id: &str,
    name_key: &str,
    name: &str,
    created_key: &str,
    created_at: u64,
) -> (r: Option<String>)
    ensures
        match r {
            Some(text) => meta_text(id_key@, id@, name_key@, name@, created_key@, created_at)
                == Some(text@),
            None => meta_text(id_key@, id@, name_key@, name@, created_key@, created_at) is None,
        },
{
    let mut object = serde_json::Map::new();
    object.insert(String::from(name_key), serde_json::Value::from(name));
    object.insert(String::from(id_key), serde_json::Value::from(id));
    object.insert(String::from(created_key), serde_json::Value::from(created_at));
    match serde_json::to_string_pretty(&serde_json::Value::Object(object)) {
        Ok(text) => Some(text),
        Err(_) => None,
    }
}

/// What is found in a metadata text: nothing where the text is not JSON,
/// else the members `id`, `name` and `created_at`, each where it is there.
pub open spec fn fields_in(text: Seq<char>) -> Option<RecordView> {
    meta_fields(text, "id"@, "name"@, "created_at"@)
}

/// The text written for a record with these three values.
pub open spec fn text_for(id: Seq<char>, name: Seq<char>, created_at: u64) -> Option<Seq<char>> {
    meta_text("id"@, id, "name"@, name, "created_at"@, created_at)
}

/// The record that holds these three values.
pub open spec fn fields_of(id: Seq<char>, name: Seq<char>, created_at: u64) -> RecordView {
    RecordView { id: Some(id), name: Some(name), created_at: Some(created_at) }
}

/// The text of a metadata record: what is written for the three values,
/// where that can be written and reads back as the three values.
pub open spec fn record_text(id: Seq<char>, name: Seq<char>, created_at: u64) -> Option<
    Seq<char>,
> {
    match text_for(id, name, created_at) {
        Some(text) => if fields_in(text) == Some(fields_of(id, name, created_at)) {
            Some(text)
        } else {
            None
        },
        None => None,
    }
}

/// The record that stands for a directory without a readable metadata
/// text: its name serves as identifier and as name, and it counts as
/// created at second zero.
pub open spec fn degraded_record(dir_name: Seq<char>) -> RecordView {
    RecordView { id: Some(dir_name), name: Some(dir_name), created_at: Some(0) }
}

/// The record of a directory, given what was found in its metadata text:
/// what was found, member by member, where the text was JSON; the degraded
/// record where it was not or where there was no text.
pub open spec fn record_of(dir_name: Seq<char>, found: Option<RecordView>) -> RecordView {
    match found {
        Some(record) => record,
        None => degraded_record(dir_name),
    }
}

/// The record of a directory whose metadata text reads as `text`, or that
/// has none.
pub open spec fn record_of_text(dir_name: Seq<char>, text: Option<Seq<char>>) -> RecordView {
    match text {
        Some(t) => record_of(dir_name, fields_in(t)),
        None => degraded_record(dir_name),
    }
}

/// The second by which a record is ordered: the one it holds, or zero.
pub open spec fn recency(record: RecordView) -> u64 {
    match record.created_at {
        Some(second) => second,
        None => 0,
    }
}

/// What is found in a metadata text.
pub fn read_fields(text: &str) -> (r: Option<CollectionRecord>)
    ensures
        match r {
            Some(found) => fields_in(text@) == Some(found@),
            None => fields_in(text@) is None,
        },
{
    parse_meta(text, "id", "name", "created_at")
}

/// Whether the record found holds exactly these three values.
pub fn holds(found: &Option<CollectionRecord>, id: &str, name: &str, created_at: u64) -> (r: bool)
    ensures
        r == (match found {
            Some(f) => Some(f@),
            None => None,
        } == Some(fields_of(id@, name@, created_at))),
{
    match found {
        Some(CollectionRecord { id: Some(i), name: Some(n), created_at: Some(c) }) => {
            let same_id = same_chars(&chars_of(i.as_str()), &chars_of(id));
            let same_name = same_chars(&chars_of(n.as_str()), &chars_of(name));
            same_id && same_name && *c == created_at
        },
        _ => false,
    }
}

/// Writes the metadata record for the three values as text, and reads the
/// text again: it is given only where it reads back as the three values.
pub fn write_record(id: &str, name: &str, created_at: u64) -> (r: Option<String>)
    ensures
        match r {
            Some(text) => record_text(id@, name@, created_at) == Some(text@),
            None => record_text(id@, name@, created_at) is None,
        },
{
    match format_meta("id", id, "name", name, "created_at", created_at) {
        Some(text) => {
            let found = read_fields(text.as_str());
            if holds(&found, id, name, created_at) {
                Some(text)
            } else {
                None
            }
        },
        None => None,
    }
}

/// The record of a directory, given what was found in its metadata text.
pub fn record_from_fields(dir_name: &str, found: Option<CollectionRecord>) -> (r: CollectionRecord)
    ensures
        r@ == record_of(
            dir_name@,
            match found {
                Some(f) => Some(f@),
                None => None,
            },
        ),
{
    match found {
        Some(record) => record,
        None => CollectionRecord {
            id: Some(dir_name.to_owned()),
            name: Some(dir_name.to_owned()),
            created_at: Some(0),
        },
    }
}

/// The record of a directory whose metadata text is `text`, or that has
/// none.
pub fn read_record(dir_name: &str, text: Option<&str>) -> (r: CollectionRecord)
    ensures
        r@ == record_of_text(
            dir_name@,
            match text {
                Some(t) => Some(t@),
                None => None,
            },
        ),
{
    match text {
        Some(t) => record_from_fields(dir_name, read_fields(t)),
        None => record_from_fields(dir_name, None),
    }
}

/// The second by which a record is ordered.
pub fn recency_of(record: &CollectionRecord) -> (r: u64)
    ensures
        r == recency(record@),
{
    match record.created_at {
        Some(second) => second,
        None => 0,
    }
}

} // verus!
