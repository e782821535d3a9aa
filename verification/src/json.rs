//! JSON documents: the library builds their structure, serde_json writes their text.

use serde_json::Value;
use vstd::prelude::*;

verus! {

/// A JSON value as the documents of the library use it: a string, an array, or an object
/// with its members in order.
pub enum JsonValue {
    Str(Seq<char>),
    Array(Seq<JsonValue>),
    Object(Seq<(Seq<char>, JsonValue)>),
}

/// A JSON value held in memory (see `JsonValue`).
pub enum Json {
    Str(String),
    Array(Vec<Json>),
    Object(Vec<(String, Json)>),
}

impl Json {
    /// The value this stands for.
    pub open spec fn model(self) -> JsonValue
        decreases self,
    {
        match self {
            Json::Str(s) => JsonValue::Str(s@),
            Json::Array(items) => JsonValue::Array(models(items@)),
            Json::Object(members) => JsonValue::Object(member_models(members@)),
        }
    }
}

/// The values the items stand for.
pub open spec fn models(items: Seq<Json>) -> Seq<JsonValue>
    decreases items,
{
    if items.len() == 0 {
        Seq::empty()
    } else {
        models(items.drop_last()).push(items.last().model())
    }
}

/// The members, with the values they stand for.
pub open spec fn member_models(members: Seq<(String, Json)>) -> Seq<(Seq<char>, JsonValue)>
    decreases members,
{
    if members.len() == 0 {
        Seq::empty()
    } else {
        member_models(members.drop_last()).push((members.last().0@, members.last().1.model()))
    }
}

/// The array of the strings `s`.
pub open spec fn strings(s: Seq<Seq<char>>) -> JsonValue {
    JsonValue::Array(s.map_values(|x: Seq<char>| JsonValue::Str(x)))
}

/// The views of the strings `s`.
pub open spec fn views(s: Seq<String>) -> Seq<Seq<char>> {
    s.map_values(|x: String| x@)
}

/// The string `s`.
pub fn json_str(s: &str) -> (j: Json)
    ensures
        j.model() == JsonValue::Str(s@),
{
    Json::Str(s.to_string())
}

/// The array of the strings `v`.
pub fn json_strings(v: &Vec<String>) -> (j: Json)
    ensures
        j.model() == strings(views(v@)),
{
    let mut items: Vec<Json> = Vec::new();
    let mut i: usize = 0;
    while i < v.len()
        invariant
            i <= v@.len(),
            models(items@) == views(v@).take(i as int).map_values(|x: Seq<char>| JsonValue::Str(x)),
        decreases v@.len() - i,
    {
        let ghost before = items@;
        let item = Json::Str(v[i].clone());
        assert(item.model() == JsonValue::Str(v@[i as int]@));
        items.push(item);
        proof {
            assert(items@.drop_last() =~= before);
            assert(items@.last() == item);
            assert(models(items@) == models(before).push(JsonValue::Str(v@[i as int]@)));
            assert(views(v@).take(i + 1) =~= views(v@).take(i as int).push(v@[i as int]@));
            assert(models(items@) =~= views(v@).take(i + 1).map_values(
                |x: Seq<char>| JsonValue::Str(x),
            ));
        }
        i = i + 1;
    }
    proof {
        assert(views(v@).take(i as int) =~= views(v@));
    }
    Json::Array(items)
}

/// The array of the one value `item`.
pub fn json_array1(item: Json) -> (j: Json)
    ensures
        j.model() == JsonValue::Array(seq![item.model()]),
{
    let ghost m = item.model();
    let items = vec![item];
    proof {
        assert(items@.drop_last() =~= Seq::<Json>::empty());
        assert(models(items@.drop_last()) == Seq::<JsonValue>::empty());
        assert(items@.last().model() == m);
        assert(models(items@) =~= seq![m]);
    }
    Json::Array(items)
}

/// The object of the members `members`, in order.
pub fn json_object(members: Vec<(String, Json)>) -> (j: Json)
    ensures
        j.model() == JsonValue::Object(member_models(members@)),
{
    Json::Object(members)
}

/// The members of one member.
pub proof fn lemma_members1(members: Seq<(String, Json)>)
    requires
        members.len() == 1,
    ensures
        member_models(members) == seq![(members[0].0@, members[0].1.model())],
{
    assert(members.drop_last() =~= Seq::<(String, Json)>::empty());
    assert(member_models(members.drop_last()) == Seq::<(Seq<char>, JsonValue)>::empty());
    assert(members.last() == members[0]);
    assert(member_models(members) =~= seq![(members[0].0@, members[0].1.model())]);
}

/// The members of two members.
pub proof fn lemma_members2(members: Seq<(String, Json)>)
    requires
        members.len() == 2,
    ensures
        member_models(members) == seq![
            (members[0].0@, members[0].1.model()),
            (members[1].0@, members[1].1.model()),
        ],
{
    let first = members.drop_last();
    assert(first.drop_last() =~= Seq::<(String, Json)>::empty());
    assert(member_models(first.drop_last()) == Seq::<(Seq<char>, JsonValue)>::empty());
    assert(first.last() == members[0]);
    assert(member_models(first) =~= seq![(members[0].0@, members[0].1.model())]);
    assert(members.last() == members[1]);
}

/// The members of three members.
pub proof fn lemma_members3(members: Seq<(String, Json)>)
    requires
        members.len() == 3,
    ensures
        member_models(members) == seq![
            (members[0].0@, members[0].1.model()),
            (members[1].0@, members[1].1.model()),
            (members[2].0@, members[2].1.model()),
        ],
{
    lemma_members2(members.drop_last());
    assert(members.drop_last()[0] == members[0] && members.drop_last()[1] == members[1]);
    assert(members.last() == members[2]);
    assert(member_models(members.drop_last()) =~= seq![
        (members[0].0@, members[0].1.model()),
        (members[1].0@, members[1].1.model()),
    ]);
}

/// The text that serde_json's `to_string` writes for the `Value` that `v` stands for.
pub uninterp spec fn json_text_of(v: JsonValue) -> Seq<char>;

/// `serde_json::Value` of the library's JSON values.
#[verifier::external_type_specification]
#[verifier::external_body]
pub struct ExJsonValue(Value);

/// serde_json's derived `Clone` for `Value`: a copy of the value. Nothing is claimed of it
/// beyond that it returns.
pub assume_specification[ <Value as Clone>::clone ](v: &Value) -> Value;

/// The serde_json `Value` that `v` stands for: each string, array and object turned into the
/// `Value` of the same kind, one for one.
#[verifier::external_body]
fn json_value(v: &Json) -> Value {
    match v {
        Json::Str(s) => Value::String(s.clone()),
        Json::Array(items) => Value::Array(items.iter().map(json_value).collect()),
        Json::Object(members) => Value::Object(
            members.iter().map(|(k, m)| (k.clone(), json_value(m))).collect(),
        ),
    }
}

/// serde_json: `to_string` of the `Value` that `v` stands for. The contract names the text; it
/// claims that it depends on the value alone.
#[verifier::external_body]
pub(crate) fn json_text(v: &Json) -> (s: String)
    ensures
        s@ == json_text_of(v.model()),
{
    json_value(v).to_string()
}

} // verus!
