//! JSON, read and written by `serde_json`.

use serde_json::Value;
use vstd::prelude::*;

use crate::text;
use crate::text::Text;

verus! {

// ---------------------------------------------------------------------------
// Lists of strings
// ---------------------------------------------------------------------------

/// The JSON text that `serde_json::to_string` gives for a list of strings.
pub uninterp spec fn permissions_json(list: Seq<Text>) -> Text;

/// The list of strings that `serde_json::from_str` reads in a text, or the text of
/// its error.
pub uninterp spec fn permissions_in(text: Text) -> Result<Seq<Text>, Text>;

/// Calls `serde_json::to_string` on a list of strings, which cannot fail. Reading
/// the text back gives the list.
#[verifier::external_body]
pub(crate) fn write_permissions(list: &Vec<String>) -> (r: String)
    ensures
        r@ == permissions_json(list.deep_view()),
        permissions_in(r@) == (Ok::<Seq<Text>, Text>(list.deep_view())),
{
    serde_json::to_string(list).expect("a list of strings is JSON")
}

/// Calls `serde_json::from_str` for a list of strings.
#[verifier::external_body]
pub(crate) fn read_permissions(text: &str) -> (r: Result<Vec<String>, String>)
    ensures
        match r {
            Ok(list) => permissions_in(text@) == Ok::<Seq<Text>, Text>(list.deep_view()),
            Err(e) => permissions_in(text@) == Err::<Seq<Text>, Text>(e@),
        },
{
    serde_json::from_str::<Vec<String>>(text).map_err(|e| e.to_string())
}

// ---------------------------------------------------------------------------
// Values
// ---------------------------------------------------------------------------

/// A JSON value as `serde_json` holds it.
#[verifier::external_type_specification]
#[verifier::external_body]
pub struct ExValue(Value);

/// What a JSON value says. A number that is no `u64` is kept as it is printed.
pub enum Json {
    Null,
    Bool(bool),
    Number(u64),
    Other(Text),
    Str(Text),
    List(Seq<Json>),
    Object(Members),
}

/// The members of an object, each name once, in the order in which they are written.
pub struct Members {
    pub list: Seq<(Text, Json)>,
}

impl Members {
    pub open spec fn empty() -> Members {
        Members { list: Seq::empty() }
    }

    /// The value of a member.
    pub open spec fn get(self, key: Text) -> Option<Json>
        decreases self.list.len(),
    {
        if self.list.len() == 0 {
            None
        } else if self.list.last().0 == key {
            Some(self.list.last().1)
        } else {
            (Members { list: self.list.drop_last() }).get(key)
        }
    }

    /// A member that is there gets the value in its place, and another one comes last.
    pub open spec fn insert(self, key: Text, value: Json) -> Members {
        if self.get(key) is Some {
            Members {
                list: self.list.map_values(
                    |m: (Text, Json)|
                        if m.0 == key {
                            (key, value)
                        } else {
                            m
                        },
                ),
            }
        } else {
            Members { list: self.list.push((key, value)) }
        }
    }
}

proof fn lemma_replaced(m: Members, key: Text, value: Json, other: Text)
    ensures
        ({
            let g = |p: (Text, Json)|
                if p.0 == key {
                    (key, value)
                } else {
                    p
                };
            (Members { list: m.list.map_values(g) }).get(other) == if other == key && m.get(
                key,
            ) is Some {
                Some(value)
            } else {
                m.get(other)
            }
        }),
    decreases m.list.len(),
{
    let g = |p: (Text, Json)|
        if p.0 == key {
            (key, value)
        } else {
            p
        };
    if m.list.len() > 0 {
        let init = Members { list: m.list.drop_last() };
        lemma_replaced(init, key, value, other);
        assert(m.list.map_values(g).drop_last() =~= init.list.map_values(g));
    }
}

/// A member that was put into an object is found there, and the others are as they were.
pub broadcast proof fn inserted_members_are_found(m: Members, key: Text, value: Json, other: Text)
    ensures
        #[trigger] m.insert(key, value).get(other) == if other == key {
            Some(value)
        } else {
            m.get(other)
        },
{
    if m.get(key) is Some {
        lemma_replaced(m, key, value, other);
        let g = |p: (Text, Json)|
            if p.0 == key {
                (key, value)
            } else {
                p
            };
        assert(m.insert(key, value).list =~= m.list.map_values(g));
    } else {
        let next = m.insert(key, value);
        assert(next.list.drop_last() =~= m.list);
        assert(Members { list: next.list.drop_last() } == m);
    }
}

/// What a `serde_json::Value` holds.
pub uninterp spec fn json_of(value: Value) -> Json;

/// A JSON value taken apart by one level.
pub enum Node {
    Null,
    Bool(bool),
    Number(u64),
    Other(String),
    Str(String),
    List(Vec<Value>),
    Object(Vec<(String, Value)>),
}

/// What the values of a list hold.
pub open spec fn items(list: Seq<Value>) -> Seq<Json> {
    list.map_values(|v: Value| json_of(v))
}

/// The members of an object; of two with the same name the latter counts.
pub open spec fn members(pairs: Seq<(String, Value)>) -> Members
    decreases pairs.len(),
{
    if pairs.len() == 0 {
        Members::empty()
    } else {
        members(pairs.drop_last()).insert(pairs.last().0@, json_of(pairs.last().1))
    }
}

impl View for Node {
    type V = Json;

    open spec fn view(&self) -> Json {
        match *self {
            Node::Null => Json::Null,
            Node::Bool(b) => Json::Bool(b),
            Node::Number(n) => Json::Number(n),
            Node::Other(s) => Json::Other(s@),
            Node::Str(s) => Json::Str(s@),
            Node::List(list) => Json::List(items(list@)),
            Node::Object(pairs) => Json::Object(members(pairs@)),
        }
    }
}

/// Takes a `serde_json::Value` apart, variant by variant. The members of an object come
/// in their order.
#[verifier::external_body]
pub(crate) fn open(value: &Value) -> (r: Node)
    ensures
        r@ == json_of(*value),
{
    match value {
        Value::Null => Node::Null,
        Value::Bool(b) => Node::Bool(*b),
        Value::Number(n) => match n.as_u64() {
            Some(n) => Node::Number(n),
            None => Node::Other(n.to_string()),
        },
        Value::String(s) => Node::Str(s.clone()),
        Value::Array(list) => Node::List(list.clone()),
        Value::Object(map) => Node::Object(map.clone().into_iter().collect()),
    }
}

/// Puts a `serde_json::Value` together, variant by variant. The members of an object keep
/// their order, and of two with the same name the latter's value takes the former's place.
#[verifier::external_body]
pub(crate) fn close(node: Node) -> (r: Value)
    requires
        !(node is Other),
    ensures
        json_of(r) == node@,
{
    match node {
        Node::Null => Value::Null,
        Node::Bool(b) => Value::Bool(b),
        Node::Number(n) => Value::Number(n.into()),
        Node::Other(s) | Node::Str(s) => Value::String(s),
        Node::List(list) => Value::Array(list),
        Node::Object(pairs) => Value::Object(pairs.into_iter().collect()),
    }
}

/// Adds a member to an object.
pub(crate) fn put(pairs: &mut Vec<(String, Value)>, key: &str, value: Value)
    ensures
        members(final(pairs)@) == members(old(pairs)@).insert(key@, json_of(value)),
{
    let ghost before = pairs@;
    pairs.push((key.to_owned(), value));
    assert(pairs@.drop_last() =~= before);
}

/// The value of the member `key` of an object.
pub(crate) fn member<'a>(pairs: &'a Vec<(String, Value)>, key: &str) -> (r: Option<&'a Value>)
    ensures
        match r {
            Some(v) => members(pairs@).get(key@) == Some(json_of(*v)),
            None => members(pairs@).get(key@) is None,
        },
{
    let mut i: usize = pairs.len();
    assert(pairs@.take(i as int) =~= pairs@);
    while i > 0
        invariant
            i <= pairs@.len(),
            members(pairs@).get(key@) == members(pairs@.take(i as int)).get(key@),
        decreases i,
    {
        proof {
            broadcast use inserted_members_are_found;

            assert(pairs@.take(i as int).drop_last() =~= pairs@.take(i - 1));
        }
        if text::same_text(pairs[i - 1].0.as_str(), key) {
            return Some(&pairs[i - 1].1);
        }
        i = i - 1;
    }
    None
}

pub(crate) fn null() -> (r: Value)
    ensures
        json_of(r) == Json::Null,
{
    close(Node::Null)
}

pub(crate) fn string(s: &str) -> (r: Value)
    ensures
        json_of(r) == Json::Str(s@),
{
    close(Node::Str(s.to_owned()))
}

/// A list of strings as JSON.
pub open spec fn strings_json(list: Seq<Text>) -> Json {
    Json::List(list.map_values(|s: Text| Json::Str(s)))
}

pub(crate) fn strings(list: &Vec<String>) -> (r: Value)
    ensures
        json_of(r) == strings_json(list.deep_view()),
{
    let mut out: Vec<Value> = Vec::new();
    let mut i: usize = 0;
    let ghost wanted = list.deep_view().map_values(|s: Text| Json::Str(s));
    while i < list.len()
        invariant
            i <= list@.len(),
            wanted == list.deep_view().map_values(|s: Text| Json::Str(s)),
            items(out@) == wanted.take(i as int),
        decreases list@.len() - i,
    {
        let ghost before = out@;
        let v = string(list[i].as_str());
        out.push(v);
        assert(items(out@) =~= items(before).push(json_of(v)));
        assert(wanted.take(i + 1) =~= wanted.take(i as int).push(wanted[i as int]));
        i = i + 1;
    }
    assert(wanted.take(i as int) =~= wanted);
    close(Node::List(out))
}

// ---------------------------------------------------------------------------
// Reading members of a known type
// ---------------------------------------------------------------------------

/// The string that a value is.
pub open spec fn string_in(json: Json) -> Option<Text> {
    match json {
        Json::Str(s) => Some(s),
        _ => None,
    }
}

pub(crate) fn read_string(value: &Value) -> (r: Option<String>)
    ensures
        r.deep_view() == string_in(json_of(*value)),
{
    match open(value) {
        Node::Str(s) => Some(s),
        _ => None,
    }
}

pub open spec fn number_in(json: Json) -> Option<u64> {
    match json {
        Json::Number(n) => Some(n),
        _ => None,
    }
}

pub(crate) fn read_number(value: &Value) -> (r: Option<u64>)
    ensures
        r == number_in(json_of(*value)),
{
    match open(value) {
        Node::Number(n) => Some(n),
        _ => None,
    }
}

pub open spec fn bool_in(json: Json) -> Option<bool> {
    match json {
        Json::Bool(b) => Some(b),
        _ => None,
    }
}

pub(crate) fn read_bool(value: &Value) -> (r: Option<bool>)
    ensures
        r == bool_in(json_of(*value)),
{
    match open(value) {
        Node::Bool(b) => Some(b),
        _ => None,
    }
}

/// The list of strings that a value is.
pub open spec fn strings_in(json: Json) -> Option<Seq<Text>> {
    match json {
        Json::List(list) => if forall|i: int|
            0 <= i < list.len() ==> (#[trigger] list[i]) is Str {
            Some(list.map_values(|j: Json| j->Str_0))
        } else {
            None
        },
        _ => None,
    }
}

pub(crate) fn read_strings(value: &Value) -> (r: Option<Vec<String>>)
    ensures
        r.deep_view() == strings_in(json_of(*value)),
{
    let list = match open(value) {
        Node::List(list) => list,
        _ => {
            return None;
        },
    };
    let ghost all = items(list@);
    let ghost wanted = all.map_values(|j: Json| j->Str_0);
    let mut out: Vec<String> = Vec::new();
    let mut i: usize = 0;
    assert(out.deep_view() =~= wanted.take(0));
    while i < list.len()
        invariant
            i <= list@.len(),
            all == items(list@),
            json_of(*value) == Json::List(all),
            wanted == all.map_values(|j: Json| j->Str_0),
            out.deep_view() == wanted.take(i as int),
            forall|k: int| 0 <= k < i ==> (#[trigger] all[k]) is Str,
        decreases list@.len() - i,
    {
        assert(all[i as int] == json_of(list@[i as int]));
        match read_string(&list[i]) {
            Some(s) => {
                let ghost before = out.deep_view();
                out.push(s);
                assert(out.deep_view() =~= before.push(s@));
                assert(wanted.take(i + 1) =~= wanted.take(i as int).push(wanted[i as int]));
            },
            None => {
                assert(!(all[i as int] is Str));
                return None;
            },
        }
        i = i + 1;
    }
    assert(wanted.take(i as int) =~= wanted);
    Some(out)
}

/// A list of strings is what its JSON says.
pub proof fn strings_round_trip(list: Seq<Text>)
    ensures
        strings_in(strings_json(list)) == Some(list),
{
    let written = list.map_values(|s: Text| Json::Str(s));
    assert(written.map_values(|j: Json| j->Str_0) =~= list);
}

} // verus!
