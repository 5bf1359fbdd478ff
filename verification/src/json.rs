//! JSON as the Bot API speaks it: values, and how they are read from bytes.

use crate::text::{opt_str_view, same_text};
use vstd::prelude::*;

verus! {

/// A JSON value.
pub enum Json {
    Null,
    Bool(bool),
    /// A number, where it is an integer that fits.
    Number(Option<i64>),
    Text(String),
    Array(Vec<Json>),
    /// The members of an object: each with its name.
    Object(Vec<(String, Json)>),
}

/// What a [`Json`] holds.
pub enum JsonModel {
    Null,
    Bool(bool),
    Number(Option<i64>),
    Text(Seq<char>),
    Array(Seq<JsonModel>),
    Object(Seq<(Seq<char>, JsonModel)>),
}

impl View for Json {
    type V = JsonModel;

    open spec fn view(&self) -> JsonModel {
        self.model()
    }
}

impl Json {
    pub open spec fn model(self) -> JsonModel
        decreases self,
    {
        match self {
            Json::Null => JsonModel::Null,
            Json::Bool(b) => JsonModel::Bool(b),
            Json::Number(n) => JsonModel::Number(n),
            Json::Text(t) => JsonModel::Text(t@),
            Json::Array(items) => JsonModel::Array(json_models(items@)),
            Json::Object(members) => JsonModel::Object(member_models(members@)),
        }
    }
}

/// What a list of values holds.
pub open spec fn json_models(items: Seq<Json>) -> Seq<JsonModel>
    decreases items,
{
    if items.len() == 0 {
        Seq::empty()
    } else {
        json_models(items.drop_last()).push(items.last().model())
    }
}

/// What the members of an object hold.
pub open spec fn member_models(members: Seq<(String, Json)>) -> Seq<(Seq<char>, JsonModel)>
    decreases members,
{
    if members.len() == 0 {
        Seq::empty()
    } else {
        member_models(members.drop_last()).push((members.last().0@, members.last().1.model()))
    }
}

/// What a list of values holds is what each of them holds.
pub proof fn lemma_json_models(items: Seq<Json>)
    ensures
        json_models(items).len() == items.len(),
        forall|i: int| 0 <= i < items.len() ==> #[trigger] json_models(items)[i] == items[i]@,
    decreases items.len(),
{
    if items.len() > 0 {
        lemma_json_models(items.drop_last());
    }
}

/// What the members of an object hold is what each of them holds.
pub proof fn lemma_member_models(members: Seq<(String, Json)>)
    ensures
        member_models(members).len() == members.len(),
        forall|i: int|
            0 <= i < members.len() ==> #[trigger] member_models(members)[i] == (
                members[i].0@,
                members[i].1@,
            ),
    decreases members.len(),
{
    if members.len() > 0 {
        lemma_member_models(members.drop_last());
    }
}

/// The value of the first member that has the name `key`.
pub open spec fn lookup(members: Seq<(Seq<char>, JsonModel)>, key: Seq<char>) -> Option<JsonModel>
    decreases members.len(),
{
    if members.len() == 0 {
        None
    } else if members[0].0 == key {
        Some(members[0].1)
    } else {
        lookup(members.skip(1), key)
    }
}

impl JsonModel {
    /// The member `key` of an object.
    pub open spec fn get(self, key: Seq<char>) -> Option<JsonModel> {
        match self {
            JsonModel::Object(members) => lookup(members, key),
            _ => None,
        }
    }

    /// The member `key` of an object, `Null` where there is none.
    pub open spec fn at(self, key: Seq<char>) -> JsonModel {
        match self.get(key) {
            Some(value) => value,
            None => JsonModel::Null,
        }
    }

    pub open spec fn text(self) -> Option<Seq<char>> {
        match self {
            JsonModel::Text(t) => Some(t),
            _ => None,
        }
    }

    pub open spec fn whole(self) -> Option<i64> {
        match self {
            JsonModel::Number(n) => n,
            _ => None,
        }
    }

    pub open spec fn flag(self) -> Option<bool> {
        match self {
            JsonModel::Bool(b) => Some(b),
            _ => None,
        }
    }

    pub open spec fn items(self) -> Option<Seq<JsonModel>> {
        match self {
            JsonModel::Array(items) => Some(items),
            _ => None,
        }
    }
}

impl Json {
    /// The member `key` of an object; nothing where there is none, or where this
    /// is no object.
    pub fn get(&self, key: &str) -> (r: Option<&Json>)
        ensures
            self@.get(key@) == (match r {
                Some(j) => Some(j@),
                None => None,
            }),
    {
        match self {
            Json::Object(members) => {
                proof {
                    lemma_member_models(members@);
                }
                let ghost all = member_models(members@);
                let mut i: usize = 0;
                assert(all.skip(0) =~= all);
                while i < members.len()
                    invariant
                        i <= members@.len(),
                        all.len() == members@.len(),
                        forall|k: int|
                            0 <= k < all.len() ==> #[trigger] all[k] == (
                                members@[k].0@,
                                members@[k].1@,
                            ),
                        self@.get(key@) == lookup(all.skip(i as int), key@),
                    decreases members@.len() - i,
                {
                    assert(all.skip(i as int)[0] == all[i as int]);
                    assert(all.skip(i as int).skip(1) =~= all.skip(i + 1));
                    if same_text(members[i].0.as_str(), key) {
                        return Some(&members[i].1);
                    }
                    i += 1;
                }
                None
            },
            _ => None,
        }
    }

    /// The member `key` of an object, `Null` where there is none.
    pub fn at(&self, key: &str) -> (r: &Json)
        ensures
            r@ == self@.at(key@),
    {
        match self.get(key) {
            Some(j) => j,
            None => &Json::Null,
        }
    }

    pub fn as_str(&self) -> (r: Option<&str>)
        ensures
            opt_str_view(r) == self@.text(),
    {
        match self {
            Json::Text(t) => Some(t.as_str()),
            _ => None,
        }
    }

    /// The number, where it is an integer that fits.
    pub fn as_i64(&self) -> (r: Option<i64>)
        ensures
            r == self@.whole(),
    {
        match self {
            Json::Number(n) => *n,
            _ => None,
        }
    }

    pub fn as_bool(&self) -> (r: Option<bool>)
        ensures
            r == self@.flag(),
    {
        match self {
            Json::Bool(b) => Some(*b),
            _ => None,
        }
    }

    pub fn as_array(&self) -> (r: Option<&Vec<Json>>)
        ensures
            self@.items() == (match r {
                Some(items) => Some(json_models(items@)),
                None => None,
            }),
    {
        match self {
            Json::Array(items) => {
                Some(items)
            },
            _ => None,
        }
    }
}

/// `serde_json`'s own value type.
#[verifier::external_type_specification]
#[verifier::external_body]
pub struct ExValue(serde_json::Value);

/// What a `serde_json::Value` holds: its variant, with strings, integers and
/// nested values as they stand in it.
pub uninterp spec fn value_model(v: serde_json::Value) -> JsonModel;

/// What `serde_json` makes of a JSON document, or nothing where it refuses it.
pub uninterp spec fn json_text(bytes: Seq<u8>) -> Option<JsonModel>;

/// One level of a `serde_json::Value`.
enum Node<'a> {
    Null,
    Bool(bool),
    Number(Option<i64>),
    Text(&'a str),
    Array(&'a Vec<serde_json::Value>),
    Object(Vec<(&'a String, &'a serde_json::Value)>),
}

impl<'a> Node<'a> {
    spec fn model(self) -> JsonModel {
        match self {
            Node::Null => JsonModel::Null,
            Node::Bool(b) => JsonModel::Bool(b),
            Node::Number(n) => JsonModel::Number(n),
            Node::Text(t) => JsonModel::Text(t@),
            Node::Array(items) => JsonModel::Array(
                Seq::new(items@.len(), |i: int| value_model(items@[i])),
            ),
            Node::Object(members) => JsonModel::Object(
                Seq::new(
                    members@.len(),
                    |i: int| (members@[i].0@, value_model(*members@[i].1)),
                ),
            ),
        }
    }
}

/// `serde_json::from_slice` into a `serde_json::Value`. What it returns is a
/// function of the bytes; the grammar itself is left to the crate.
#[verifier::external_body]
fn parse_value(bytes: &[u8]) -> (r: Option<serde_json::Value>)
    ensures
        json_text(bytes@) == (match r {
            Some(v) => Some(value_model(v)),
            None => None,
        }),
{
    serde_json::from_slice(bytes).ok()
}

/// The outermost level of a `serde_json::Value`. A number is read with
/// `Number::as_i64`, the members of an object with `Map::iter`.
#[verifier::external_body]
fn open_value<'a>(v: &'a serde_json::Value) -> (r: Node<'a>)
    ensures
        r.model() == value_model(*v),
{
    match v {
        serde_json::Value::Null => Node::Null,
        serde_json::Value::Bool(b) => Node::Bool(*b),
        serde_json::Value::Number(n) => Node::Number(n.as_i64()),
        serde_json::Value::String(s) => Node::Text(s),
        serde_json::Value::Array(items) => Node::Array(items),
        serde_json::Value::Object(members) => Node::Object(members.iter().collect()),
    }
}

/// The library's form of a `serde_json::Value`.
fn from_value(v: &serde_json::Value) -> (r: Json)
    ensures
        r@ == value_model(*v),
    decreases value_model(*v),
{
    match open_value(v) {
        Node::Null => Json::Null,
        Node::Bool(b) => Json::Bool(b),
        Node::Number(n) => Json::Number(n),
        Node::Text(t) => Json::Text(t.to_owned()),
        Node::Array(items) => {
            let ghost want = value_model(*v)->Array_0;
            let mut out: Vec<Json> = Vec::new();
            let mut i: usize = 0;
            while i < items.len()
                invariant
                    i <= items@.len(),
                    out@.len() == i,
                    value_model(*v) == JsonModel::Array(want),
                    want.len() == items@.len(),
                    forall|k: int| 0 <= k < want.len() ==> want[k] == value_model(items@[k]),
                    forall|k: int| 0 <= k < i ==> (#[trigger] out@[k])@ == want[k],
                decreases items@.len() - i,
            {
                assert(decreases_to!(value_model(*v) => value_model(*v)->Array_0));
                assert(decreases_to!(want => want[i as int]));
                out.push(from_value(&items[i]));
                i += 1;
            }
            proof {
                lemma_json_models(out@);
                assert(json_models(out@) =~= want);
            }
            Json::Array(out)
        },
        Node::Object(members) => {
            let ghost want = value_model(*v)->Object_0;
            let mut out: Vec<(String, Json)> = Vec::new();
            let mut i: usize = 0;
            while i < members.len()
                invariant
                    i <= members@.len(),
                    out@.len() == i,
                    value_model(*v) == JsonModel::Object(want),
                    want.len() == members@.len(),
                    forall|k: int|
                        0 <= k < want.len() ==> want[k] == (
                            members@[k].0@,
                            value_model(*members@[k].1),
                        ),
                    forall|k: int|
                        0 <= k < i ==> ((#[trigger] out@[k]).0@, out@[k].1@) == want[k],
                decreases members@.len() - i,
            {
                assert(decreases_to!(value_model(*v) => value_model(*v)->Object_0));
                assert(decreases_to!(want => want[i as int]));
                assert(decreases_to!(want[i as int] => want[i as int].1));
                let (key, value) = members[i];
                out.push((key.clone(), from_value(value)));
                i += 1;
            }
            proof {
                lemma_member_models(out@);
                assert(member_models(out@) =~= want);
            }
            Json::Object(out)
        },
    }
}

/// Reads a JSON document; nothing where it is not one.
pub fn parse_json(bytes: &[u8]) -> (r: Option<Json>)
    ensures
        json_text(bytes@) == (match r {
            Some(j) => Some(j@),
            None => None,
        }),
{
    match parse_value(bytes) {
        Some(v) => Some(from_value(&v)),
        None => None,
    }
}

proof fn lemma_lookup_skips(members: Seq<(Seq<char>, JsonModel)>, key: Seq<char>, i: int)
    requires
        0 <= i <= members.len(),
        forall|k: int| 0 <= k < i ==> (#[trigger] members[k]).0 != key,
    ensures
        lookup(members, key) == lookup(members.skip(i), key),
    decreases i,
{
    if i > 0 {
        assert(members[0].0 != key);
        assert forall|k: int| 0 <= k < i - 1 implies (#[trigger] members.skip(1)[k]).0 != key by {
            assert(members[k + 1].0 != key);
        }
        lemma_lookup_skips(members.skip(1), key, i - 1);
        assert(members.skip(1).skip(i - 1) =~= members.skip(i));
    } else {
        assert(members.skip(0) =~= members);
    }
}

/// A member is found by its name, as the first one that has it, and by no other
/// name; where none has it there is nothing, and nothing reads as `Null`.
pub proof fn law_a_member_is_found_by_its_name(
    members: Seq<(Seq<char>, JsonModel)>,
    key: Seq<char>,
    i: int,
)
    requires
        0 <= i <= members.len(),
        forall|k: int| 0 <= k < i ==> (#[trigger] members[k]).0 != key,
        i < members.len() ==> members[i].0 == key,
    ensures
        i < members.len() ==> JsonModel::Object(members).get(key) == Some(members[i].1)
            && JsonModel::Object(members).at(key) == members[i].1,
        i == members.len() ==> JsonModel::Object(members).get(key) is None && JsonModel::Object(
            members,
        ).at(key) is Null,
{
    lemma_lookup_skips(members, key, i);
    if i < members.len() {
        assert(members.skip(i)[0] == members[i]);
    }
}

/// A value reads as what it is and as nothing else; and only an object has
/// members.
pub proof fn law_a_value_reads_as_what_it_is(value: JsonModel, key: Seq<char>)
    ensures
        value.text() == match value {
            JsonModel::Text(t) => Some(t),
            _ => None,
        },
        value.whole() == match value {
            JsonModel::Number(n) => n,
            _ => None,
        },
        value.flag() == match value {
            JsonModel::Bool(b) => Some(b),
            _ => None,
        },
        value.items() == match value {
            JsonModel::Array(items) => Some(items),
            _ => None,
        },
        !(value is Object) ==> value.get(key) is None && value.at(key) is Null,
{
}

} // verus!
