//! The record that the connector forwards, and its decoding from JSON.
//!
//! A record is a JSON object with four members: `range`, `major_dimension`
//! and `spreadsheet_id` are strings, `values` is an array of arrays. Each of
//! the four stands in the object once. Other members are ignored. Anything
//! else is a decode failure, and no part of a record is handed out.

use crate::json::{
    clone_items, items_view, json_of_bytes, lemma_array_view, lemma_object_view, members_view, parse_json, Json,
    JsonModel, Member, MemberModel,
};
use vstd::prelude::*;

verus! {

/// One record: where to write, what to write, and how it is laid out.
#[derive(Debug, PartialEq, Eq)]
pub struct Payload {
    /// The cells addressed, in the notation of the spreadsheet service.
    pub range: String,
    /// The values, row by row.
    pub values: Vec<Vec<Json>>,
    /// Whether the inner sequences of `values` are rows or columns.
    pub major_dimension: String,
    /// The spreadsheet written to.
    pub spreadsheet_id: String,
}

/// What a record is, as mathematics.
pub ghost struct PayloadModel {
    pub range: Seq<char>,
    pub values: Seq<Seq<JsonModel>>,
    pub major_dimension: Seq<char>,
    pub spreadsheet_id: Seq<char>,
}

/// The documents held by a sequence of rows, in the same order.
pub open spec fn rows_view(rows: Seq<Vec<Json>>) -> Seq<Seq<JsonModel>> {
    Seq::new(rows.len(), |i: int| items_view(rows[i]@))
}

impl View for Payload {
    type V = PayloadModel;

    open spec fn view(&self) -> PayloadModel {
        PayloadModel {
            range: self.range@,
            values: rows_view(self.values@),
            major_dimension: self.major_dimension@,
            spreadsheet_id: self.spreadsheet_id@,
        }
    }
}

impl Clone for Payload {
    /// A copy that is the same record.
    fn clone(&self) -> (r: Payload)
        ensures
            r@ == self@,
    {
        let mut rows: Vec<Vec<Json>> = Vec::new();
        let mut i: usize = 0;
        while i < self.values.len()
            invariant
                i <= self.values@.len(),
                rows@.len() == i,
                forall|k: int|
                    0 <= k < i ==> items_view(rows@[k]@) == items_view(self.values@[k]@),
            decreases self.values@.len() - i,
        {
            let row = clone_items(&self.values[i]);
            rows.push(row);
            i = i + 1;
        }
        proof {
            assert(rows_view(rows@) =~= rows_view(self.values@));
        }
        Payload {
            range: self.range.clone(),
            values: rows,
            major_dimension: self.major_dimension.clone(),
            spreadsheet_id: self.spreadsheet_id.clone(),
        }
    }
}

/// The members of a record.
#[derive(Clone, Copy, Debug, PartialEq, Eq, Structural)]
pub enum Field {
    Range,
    Values,
    MajorDimension,
    SpreadsheetId,
}

/// Why an input is not a record.
#[derive(Clone, Copy, Debug, PartialEq, Eq, Structural)]
pub enum DecodeError {
    /// The bytes are not a JSON document.
    Malformed,
    /// The document is not an object.
    NotAnObject,
    /// The object holds this member more than once.
    DuplicateField(Field),
    /// The object lacks this member.
    MissingField(Field),
    /// The member is there, but not of the shape that a record needs.
    InvalidField(Field),
}

/// The key under which a member stands in the object.
pub open spec fn field_name(field: Field) -> Seq<char> {
    match field {
        Field::Range => "range"@,
        Field::Values => "values"@,
        Field::MajorDimension => "major_dimension"@,
        Field::SpreadsheetId => "spreadsheet_id"@,
    }
}

/// The first member of `members` that stands under `key`.
pub open spec fn lookup(members: Seq<MemberModel>, key: Seq<char>) -> Option<JsonModel>
    decreases members.len(),
{
    if members.len() == 0 {
        None
    } else if members[0].key == key {
        Some(members[0].value)
    } else {
        lookup(members.drop_first(), key)
    }
}

/// How many members of `members` stand under `key`.
pub open spec fn occurrences(members: Seq<MemberModel>, key: Seq<char>) -> nat
    decreases members.len(),
{
    if members.len() == 0 {
        0
    } else if members[0].key == key {
        1 + occurrences(members.drop_first(), key)
    } else {
        occurrences(members.drop_first(), key)
    }
}

/// Whether the object holds the member more than once.
pub open spec fn repeated(members: Seq<MemberModel>, field: Field) -> bool {
    occurrences(members, field_name(field)) > 1
}

/// The first of the four members, in the order `range`, `values`,
/// `major_dimension`, `spreadsheet_id`, that the object holds more than once.
pub open spec fn repeated_field(members: Seq<MemberModel>) -> Option<Field> {
    if repeated(members, Field::Range) {
        Some(Field::Range)
    } else if repeated(members, Field::Values) {
        Some(Field::Values)
    } else if repeated(members, Field::MajorDimension) {
        Some(Field::MajorDimension)
    } else if repeated(members, Field::SpreadsheetId) {
        Some(Field::SpreadsheetId)
    } else {
        None
    }
}

/// What was found under a member that must be a string.
pub open spec fn text_of(found: Option<JsonModel>, field: Field) -> Result<Seq<char>, DecodeError> {
    match found {
        None => Err(DecodeError::MissingField(field)),
        Some(JsonModel::Text(text)) => Ok(text),
        Some(_) => Err(DecodeError::InvalidField(field)),
    }
}

/// A member that must be a string.
pub open spec fn text_field(members: Seq<MemberModel>, field: Field) -> Result<
    Seq<char>,
    DecodeError,
> {
    text_of(lookup(members, field_name(field)), field)
}

/// The rows of a document that is an array of arrays.
pub open spec fn matrix(json: JsonModel) -> Option<Seq<Seq<JsonModel>>> {
    match json {
        JsonModel::Array(rows) => if forall|i: int| 0 <= i < rows.len() ==> rows[i] is Array {
            Some(Seq::new(rows.len(), |i: int| rows[i]->Array_0))
        } else {
            None
        },
        _ => None,
    }
}

/// What was found under the member `values`.
pub open spec fn rows_of(found: Option<JsonModel>) -> Result<Seq<Seq<JsonModel>>, DecodeError> {
    match found {
        None => Err(DecodeError::MissingField(Field::Values)),
        Some(json) => match matrix(json) {
            Some(rows) => Ok(rows),
            None => Err(DecodeError::InvalidField(Field::Values)),
        },
    }
}

/// The member `values`, which must be an array of arrays.
pub open spec fn values_field(members: Seq<MemberModel>) -> Result<
    Seq<Seq<JsonModel>>,
    DecodeError,
> {
    rows_of(lookup(members, field_name(Field::Values)))
}

/// The record that an object holds whose four members each stand in it at
/// most once. The members are examined in the order `range`, `values`,
/// `major_dimension`, `spreadsheet_id`, and the first one that is missing or
/// misshapen decides the error.
pub open spec fn record_of(members: Seq<MemberModel>) -> Result<PayloadModel, DecodeError> {
    match text_field(members, Field::Range) {
        Err(e) => Err(e),
        Ok(range) => match values_field(members) {
            Err(e) => Err(e),
            Ok(values) => match text_field(members, Field::MajorDimension) {
                Err(e) => Err(e),
                Ok(major_dimension) => match text_field(members, Field::SpreadsheetId) {
                    Err(e) => Err(e),
                    Ok(spreadsheet_id) => Ok(
                        PayloadModel { range, values, major_dimension, spreadsheet_id },
                    ),
                },
            },
        },
    }
}

/// The record that a document holds. It must be an object; a member of the
/// record that stands in it twice is an error before anything else is
/// looked at.
pub open spec fn decode_model(json: JsonModel) -> Result<PayloadModel, DecodeError> {
    match json {
        JsonModel::Object(members) => match repeated_field(members) {
            Some(field) => Err(DecodeError::DuplicateField(field)),
            None => record_of(members),
        },
        _ => Err(DecodeError::NotAnObject),
    }
}

/// The record that a stream item holds.
pub open spec fn decode_bytes(bytes: Seq<u8>) -> Result<PayloadModel, DecodeError> {
    match json_of_bytes(bytes) {
        None => Err(DecodeError::Malformed),
        Some(json) => decode_model(json),
    }
}

/// What a decoding hands back, seen as mathematics.
pub open spec fn decoded_view(r: Result<Payload, DecodeError>) -> Result<PayloadModel, DecodeError> {
    match r {
        Ok(payload) => Ok(payload@),
        Err(e) => Err(e),
    }
}

/// What may have been found under a key, seen as mathematics.
pub open spec fn found_view(found: Option<Json>) -> Option<JsonModel> {
    match found {
        Some(json) => Some(json@),
        None => None,
    }
}

/// What an object holds under one member of a record: the first document
/// under that key, and whether there was another.
struct Slot {
    value: Option<Json>,
    twice: bool,
}

/// The four members of a record, as far as an object holds them.
struct Found {
    range: Slot,
    values: Slot,
    major_dimension: Slot,
    spreadsheet_id: Slot,
}

/// The slot says what `members` hold under the member `field`.
spec fn slot_of(slot: Slot, members: Seq<MemberModel>, field: Field) -> bool {
    &&& found_view(slot.value) == lookup(members, field_name(field))
    &&& slot.value is Some <==> occurrences(members, field_name(field)) >= 1
    &&& slot.twice == repeated(members, field)
}

/// The names of the four members are pairwise different.
proof fn lemma_field_names_differ()
    ensures
        forall|a: Field, b: Field| field_name(a) == field_name(b) ==> a == b,
{
    reveal_strlit("range");
    reveal_strlit("values");
    reveal_strlit("major_dimension");
    reveal_strlit("spreadsheet_id");
    assert forall|a: Field, b: Field| field_name(a) == field_name(b) implies a == b by {
        assert(field_name(a).len() == field_name(b).len());
    }
}

/// A lookup or a count in the part of an object that starts at member
/// `from` either meets that member or goes on behind it.
proof fn lemma_member_step(members: Seq<MemberModel>, from: int, key: Seq<char>)
    requires
        0 <= from < members.len(),
    ensures
        lookup(members.subrange(from, members.len() as int), key) == if members[from].key == key {
            Some(members[from].value)
        } else {
            lookup(members.subrange(from + 1, members.len() as int), key)
        },
        occurrences(members.subrange(from, members.len() as int), key) == if members[from].key
            == key {
            1 + occurrences(members.subrange(from + 1, members.len() as int), key)
        } else {
            occurrences(members.subrange(from + 1, members.len() as int), key)
        },
{
    let tail = members.subrange(from, members.len() as int);
    assert(tail.drop_first() =~= members.subrange(from + 1, members.len() as int));
}

/// Whether a key is the name of the given member.
fn names(key: &String, field: Field) -> (r: bool)
    ensures
        r == (key@ == field_name(field)),
{
    let name = match field {
        Field::Range => String::from_str("range"),
        Field::Values => String::from_str("values"),
        Field::MajorDimension => String::from_str("major_dimension"),
        Field::SpreadsheetId => String::from_str("spreadsheet_id"),
    };
    *key == name
}

/// Puts a document in front of what a slot holds.
fn put(slot: Slot, value: Json) -> (r: Slot)
    ensures
        r.value == Some(value),
        r.twice == (slot.twice || slot.value is Some),
{
    let twice = slot.twice || slot.value.is_some();
    Slot { value: Some(value), twice }
}

/// Takes the four members of a record out of an object, and notes which of
/// them the object holds more than once.
fn find_members(members: Vec<Member>) -> (r: Found)
    ensures
        slot_of(r.range, members_view(members@), Field::Range),
        slot_of(r.values, members_view(members@), Field::Values),
        slot_of(r.major_dimension, members_view(members@), Field::MajorDimension),
        slot_of(r.spreadsheet_id, members_view(members@), Field::SpreadsheetId),
{
    let ghost all = members_view(members@);
    let mut rest = members;
    let mut range = Slot { value: None, twice: false };
    let mut values = Slot { value: None, twice: false };
    let mut major_dimension = Slot { value: None, twice: false };
    let mut spreadsheet_id = Slot { value: None, twice: false };
    while rest.len() > 0
        invariant
            rest@.len() <= all.len(),
            members_view(rest@) == all.subrange(0, rest@.len() as int),
            slot_of(range, all.subrange(rest@.len() as int, all.len() as int), Field::Range),
            slot_of(values, all.subrange(rest@.len() as int, all.len() as int), Field::Values),
            slot_of(
                major_dimension,
                all.subrange(rest@.len() as int, all.len() as int),
                Field::MajorDimension,
            ),
            slot_of(
                spreadsheet_id,
                all.subrange(rest@.len() as int, all.len() as int),
                Field::SpreadsheetId,
            ),
        decreases rest@.len(),
    {
        let ghost before = rest@;
        let ghost at = rest@.len() - 1;
        if let Some(member) = rest.pop() {
            proof {
                lemma_field_names_differ();
                assert(members_view(before)[at] == all[at]);
                assert(members_view(rest@) =~= all.subrange(0, at));
                lemma_member_step(all, at, field_name(Field::Range));
                lemma_member_step(all, at, field_name(Field::Values));
                lemma_member_step(all, at, field_name(Field::MajorDimension));
                lemma_member_step(all, at, field_name(Field::SpreadsheetId));
            }
            let Member { key, value } = member;
            if names(&key, Field::Range) {
                range = put(range, value);
            } else if names(&key, Field::Values) {
                values = put(values, value);
            } else if names(&key, Field::MajorDimension) {
                major_dimension = put(major_dimension, value);
            } else if names(&key, Field::SpreadsheetId) {
                spreadsheet_id = put(spreadsheet_id, value);
            }
        }
    }
    proof {
        assert(all.subrange(0, all.len() as int) =~= all);
    }
    Found { range, values, major_dimension, spreadsheet_id }
}

/// The string found under a member, or why there is none.
fn take_text(found: Option<Json>, field: Field) -> (r: Result<String, DecodeError>)
    ensures
        match r {
            Ok(text) => text_of(found_view(found), field) == Ok::<Seq<char>, DecodeError>(text@),
            Err(e) => text_of(found_view(found), field) == Err::<Seq<char>, DecodeError>(e),
        },
{
    match found {
        None => Err(DecodeError::MissingField(field)),
        Some(Json::Text(text)) => Ok(text),
        Some(_) => Err(DecodeError::InvalidField(field)),
    }
}

/// The same items in the opposite order.
fn reversed<T>(items: Vec<T>) -> (r: Vec<T>)
    ensures
        r@.len() == items@.len(),
        forall|i: int| 0 <= i < r@.len() ==> r@[i] == items@[items@.len() - 1 - i],
{
    let mut rest = items;
    let mut out: Vec<T> = Vec::new();
    while rest.len() > 0
        invariant
            rest@.len() + out@.len() == items@.len(),
            rest@ == items@.subrange(0, rest@.len() as int),
            forall|i: int| 0 <= i < out@.len() ==> out@[i] == items@[items@.len() - 1 - i],
        decreases rest@.len(),
    {
        if let Some(item) = rest.pop() {
            out.push(item);
        }
    }
    out
}

/// The rows of a document that is an array of arrays.
fn take_matrix(json: Json) -> (r: Option<Vec<Vec<Json>>>)
    ensures
        match r {
            Some(rows) => matrix(json@) == Some(rows_view(rows@)),
            None => matrix(json@) is None,
        },
{
    match json {
        Json::Array(items) => {
            let ghost all = items_view(items@);
            proof {
                lemma_array_view(items);
            }
            let mut rest = items;
            let mut backwards: Vec<Vec<Json>> = Vec::new();
            while rest.len() > 0
                invariant
                    json@ == JsonModel::Array(all),
                    rest@.len() + backwards@.len() == all.len(),
                    items_view(rest@) == all.subrange(0, rest@.len() as int),
                    forall|k: int|
                        0 <= k < backwards@.len() ==> #[trigger] all[all.len() - 1 - k]
                            == JsonModel::Array(items_view(backwards@[k]@)),
                decreases rest@.len(),
            {
                let ghost before = rest@;
                let ghost at = rest@.len() - 1;
                let last = rest.pop();
                proof {
                    assert(items_view(before)[at] == all[at]);
                    assert(items_view(rest@) =~= all.subrange(0, at));
                }
                match last {
                    Some(Json::Array(cells)) => {
                        proof {
                            lemma_array_view(cells);
                        }
                        backwards.push(cells);
                    },
                    _ => {
                        assert(!(all[at] is Array));
                        return None;
                    },
                }
            }
            let rows = reversed(backwards);
            proof {
                assert forall|i: int| 0 <= i < all.len() implies all[i] is Array by {
                    assert(all[all.len() - 1 - (all.len() - 1 - i)] is Array);
                }
                assert forall|i: int| 0 <= i < all.len() implies rows_view(rows@)[i]
                    == all[i]->Array_0 by {
                    assert(all[all.len() - 1 - (all.len() - 1 - i)] == JsonModel::Array(
                        items_view(backwards@[all.len() - 1 - i]@),
                    ));
                }
                assert(rows_view(rows@) =~= Seq::new(all.len(), |i: int| all[i]->Array_0));
            }
            Some(rows)
        },
        _ => None,
    }
}

/// The rows found under the member `values`, or why there are none.
fn take_rows(found: Option<Json>) -> (r: Result<Vec<Vec<Json>>, DecodeError>)
    ensures
        match r {
            Ok(rows) => rows_of(found_view(found)) == Ok::<Seq<Seq<JsonModel>>, DecodeError>(
                rows_view(rows@),
            ),
            Err(e) => rows_of(found_view(found)) == Err::<Seq<Seq<JsonModel>>, DecodeError>(e),
        },
{
    match found {
        None => Err(DecodeError::MissingField(Field::Values)),
        Some(json) => match take_matrix(json) {
            Some(rows) => Ok(rows),
            None => Err(DecodeError::InvalidField(Field::Values)),
        },
    }
}

/// Reads a record out of a JSON document.
pub fn decode_json(json: Json) -> (r: Result<Payload, DecodeError>)
    ensures
        decoded_view(r) == decode_model(json@),
{
    match json {
        Json::Object(members) => {
            proof {
                lemma_object_view(members);
            }
            let found = find_members(members);
            if found.range.twice {
                return Err(DecodeError::DuplicateField(Field::Range));
            }
            if found.values.twice {
                return Err(DecodeError::DuplicateField(Field::Values));
            }
            if found.major_dimension.twice {
                return Err(DecodeError::DuplicateField(Field::MajorDimension));
            }
            if found.spreadsheet_id.twice {
                return Err(DecodeError::DuplicateField(Field::SpreadsheetId));
            }
            let range = match take_text(found.range.value, Field::Range) {
                Ok(text) => text,
                Err(e) => {
                    return Err(e);
                },
            };
            let values = match take_rows(found.values.value) {
                Ok(rows) => rows,
                Err(e) => {
                    return Err(e);
                },
            };
            let major_dimension = match take_text(
                found.major_dimension.value,
                Field::MajorDimension,
            ) {
                Ok(text) => text,
                Err(e) => {
                    return Err(e);
                },
            };
            let spreadsheet_id = match take_text(
                found.spreadsheet_id.value,
                Field::SpreadsheetId,
            ) {
                Ok(text) => text,
                Err(e) => {
                    return Err(e);
                },
            };
            Ok(Payload { range, values, major_dimension, spreadsheet_id })
        },
        _ => Err(DecodeError::NotAnObject),
    }
}

/// Decodes one stream item. The bytes must be a JSON document, the document
/// a record; otherwise the error says what is wrong, and nothing else is
/// handed out.
///
/// The parser hands out one document for each key of an object, the one
/// written last. A member written twice in the bytes therefore arrives here
/// once, and is not refused as it is in a document that holds it twice.
pub fn decode(bytes: &[u8]) -> (r: Result<Payload, DecodeError>)
    ensures
        decoded_view(r) == decode_bytes(bytes@),
{
    match parse_json(bytes) {
        Ok(json) => decode_json(json),
        Err(_) => Err(DecodeError::Malformed),
    }
}

} // verus!
