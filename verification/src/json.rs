//! JSON documents as plain trees, and the parser that reads them from bytes.

use serde_json::Value;
use vstd::prelude::*;

verus! {

/// A JSON document.
#[derive(Debug, PartialEq, Eq)]
pub enum Json {
    /// `null`.
    Null,
    /// `true` or `false`.
    Bool(bool),
    /// A number, kept as its decimal text.
    Number(String),
    /// A string.
    Text(String),
    /// An array, in document order.
    Array(Vec<Json>),
    /// An object: its members, in the order in which they are held.
    Object(Vec<Member>),
}

/// One member of an object: a key and the document under it.
#[derive(Debug, PartialEq, Eq)]
pub struct Member {
    pub key: String,
    pub value: Json,
}

/// What a member of an object is, as mathematics.
pub ghost struct MemberModel {
    pub key: Seq<char>,
    pub value: JsonModel,
}

/// What a JSON document is, as mathematics.
pub ghost enum JsonModel {
    Null,
    Bool(bool),
    Number(Seq<char>),
    Text(Seq<char>),
    Array(Seq<JsonModel>),
    Object(Seq<MemberModel>),
}

impl View for Json {
    type V = JsonModel;

    open spec fn view(&self) -> JsonModel
        decreases self,
    {
        match self {
            Json::Null => JsonModel::Null,
            Json::Bool(b) => JsonModel::Bool(*b),
            Json::Number(text) => JsonModel::Number(text@),
            Json::Text(text) => JsonModel::Text(text@),
            Json::Array(items) => JsonModel::Array(
                Seq::new(
                    items@.len(),
                    |i: int|
                        if 0 <= i < items@.len() {
                            items@[i]@
                        } else {
                            JsonModel::Null
                        },
                ),
            ),
            Json::Object(members) => JsonModel::Object(
                Seq::new(
                    members@.len(),
                    |i: int|
                        if 0 <= i < members@.len() {
                            MemberModel { key: members@[i].key@, value: members@[i].value@ }
                        } else {
                            MemberModel { key: Seq::empty(), value: JsonModel::Null }
                        },
                ),
            ),
        }
    }
}

/// The documents held by a sequence of trees, in the same order.
pub open spec fn items_view(items: Seq<Json>) -> Seq<JsonModel> {
    Seq::new(items.len(), |i: int| items[i]@)
}

/// The members held by a sequence of keyed trees, in the same order.
pub open spec fn members_view(members: Seq<Member>) -> Seq<MemberModel> {
    Seq::new(
        members.len(),
        |i: int| MemberModel { key: members[i].key@, value: members[i].value@ },
    )
}

/// An array is the sequence of the documents it holds.
pub proof fn lemma_array_view(items: Vec<Json>)
    ensures
        Json::Array(items)@ == JsonModel::Array(items_view(items@)),
{
    assert(Json::Array(items)@->Array_0 =~= items_view(items@));
}

/// An object is the sequence of the members it holds.
pub proof fn lemma_object_view(members: Vec<Member>)
    ensures
        Json::Object(members)@ == JsonModel::Object(members_view(members@)),
{
    assert(Json::Object(members)@->Object_0 =~= members_view(members@));
}

/// Copies the documents of a sequence, in the same order.
pub fn clone_items(items: &Vec<Json>) -> (r: Vec<Json>)
    ensures
        items_view(r@) == items_view(items@),
    decreases items,
{
    let mut out: Vec<Json> = Vec::new();
    let mut i: usize = 0;
    while i < items.len()
        invariant
            i <= items@.len(),
            out@.len() == i,
            forall|k: int| 0 <= k < i ==> out@[k]@ == items@[k]@,
        decreases items@.len() - i,
    {
        proof {
            vstd::std_specs::vec::axiom_vec_index_decreases(*items, i as int);
        }
        let copy = items[i].clone();
        out.push(copy);
        i = i + 1;
    }
    proof {
        assert(items_view(out@) =~= items_view(items@));
    }
    out
}

/// Copies the members of an object, in the same order.
fn clone_members(members: &Vec<Member>) -> (r: Vec<Member>)
    ensures
        members_view(r@) == members_view(members@),
    decreases members,
{
    let mut out: Vec<Member> = Vec::new();
    let mut i: usize = 0;
    while i < members.len()
        invariant
            i <= members@.len(),
            out@.len() == i,
            forall|k: int|
                0 <= k < i ==> out@[k].key@ == members@[k].key@ && out@[k].value@
                    == members@[k].value@,
        decreases members@.len() - i,
    {
        proof {
            vstd::std_specs::vec::axiom_vec_index_decreases(*members, i as int);
        }
        let copy = Member { key: members[i].key.clone(), value: members[i].value.clone() };
        out.push(copy);
        i = i + 1;
    }
    proof {
        assert(members_view(out@) =~= members_view(members@));
    }
    out
}

impl Clone for Json {
    /// A copy that is the same document.
    fn clone(&self) -> (r: Json)
        ensures
            r@ == self@,
        decreases self,
    {
        match self {
            Json::Null => Json::Null,
            Json::Bool(flag) => Json::Bool(*flag),
            Json::Number(text) => Json::Number(text.clone()),
            Json::Text(text) => Json::Text(text.clone()),
            Json::Array(items) => {
                let copies = clone_items(items);
                proof {
                    lemma_array_view(*items);
                    lemma_array_view(copies);
                }
                Json::Array(copies)
            },
            Json::Object(members) => {
                let copies = clone_members(members);
                proof {
                    lemma_object_view(*members);
                    lemma_object_view(copies);
                }
                Json::Object(copies)
            },
        }
    }
}

impl Clone for Member {
    /// A copy with the same key and the same document.
    fn clone(&self) -> (r: Member)
        ensures
            r.key@ == self.key@,
            r.value@ == self.value@,
    {
        Member { key: self.key.clone(), value: self.value.clone() }
    }
}

/// A parsed document of `serde_json`, carried from its parser to the
/// conversion below and never read by verified code.
#[verifier::external_type_specification]
#[verifier::external_body]
pub struct ExValue(serde_json::Value);

/// The error of `serde_json`'s parser, carried to the caller unread.
#[verifier::external_type_specification]
#[verifier::external_body]
pub struct ExParseError(serde_json::Error);

/// The document that `serde_json::from_slice` reads from `bytes`, or `None`
/// where it reports an error. The parser reads nothing but the bytes, so the
/// same bytes always give the same document.
pub uninterp spec fn json_of_bytes(bytes: Seq<u8>) -> Option<JsonModel>;

/// Rebuilds a `serde_json::Value` as a [`Json`], variant by variant: numbers
/// by their display text, object members in the order in which the value
/// iterates over them. Nothing is claimed of the result here; [`parse_json`]
/// names it.
#[verifier::external_body]
fn json_of_value(value: Value) -> Json {
    match value {
        Value::Null => Json::Null,
        Value::Bool(flag) => Json::Bool(flag),
        Value::Number(number) => Json::Number(number.to_string()),
        Value::String(text) => Json::Text(text),
        Value::Array(items) => Json::Array(items.into_iter().map(json_of_value).collect()),
        Value::Object(members) => Json::Object(
            members.into_iter().map(|(key, member)| Member { key, value: json_of_value(member) }).collect(),
        ),
    }
}

/// Calls `serde_json::from_slice` for a `serde_json::Value`. The contract
/// claims only that the outcome is the one named by [`json_of_bytes`]: a
/// document where the parser accepts the bytes, its error where it does not.
#[verifier::external_body]
pub(crate) fn parse_json(bytes: &[u8]) -> (r: Result<Json, serde_json::Error>)
    ensures
        match r {
            Ok(json) => json_of_bytes(bytes@) == Some(json@),
            Err(_) => json_of_bytes(bytes@) is None,
        },
{
    match serde_json::from_slice::<Value>(bytes) {
        Ok(value) => Ok(json_of_value(value)),
        Err(error) => Err(error),
    }
}

} // verus!
