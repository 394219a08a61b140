//! A JSON document tree as plain values, and the lookups the document
//! readers and writers of the library use on it.
use vstd::prelude::*;

use crate::text::{decimal, push_decimal, str_eq};

verus! {

/// A JSON value. Numbers are kept as their source text; an object keeps its
/// members in document order.
#[derive(Debug)]
pub enum JsonValue {
    Null,
    Bool(bool),
    Number(String),
    String(String),
    Array(Vec<JsonValue>),
    Object(Vec<(String, JsonValue)>),
}

/// The picture of a JSON value in specifications: texts as character
/// sequences, arrays and objects as sequences.
pub enum Json {
    Null,
    Bool(bool),
    Number(Seq<char>),
    Str(Seq<char>),
    Array(Seq<Json>),
    Object(Seq<(Seq<char>, Json)>),
}

/// The picture of a JSON value.
pub open spec fn json_view(v: JsonValue) -> Json
    decreases v,
{
    match v {
        JsonValue::Null => Json::Null,
        JsonValue::Bool(b) => Json::Bool(b),
        JsonValue::Number(n) => Json::Number(n@),
        JsonValue::String(s) => Json::Str(s@),
        JsonValue::Array(items) => Json::Array(json_views(items@)),
        JsonValue::Object(members) => Json::Object(member_views(members@)),
    }
}

/// The pictures of a sequence of values.
pub open spec fn json_views(s: Seq<JsonValue>) -> Seq<Json>
    decreases s,
{
    if s.len() == 0 {
        Seq::empty()
    } else {
        json_views(s.subrange(0, s.len() - 1)).push(json_view(s[s.len() - 1]))
    }
}

/// The pictures of the members of an object.
pub open spec fn member_views(s: Seq<(String, JsonValue)>) -> Seq<(Seq<char>, Json)>
    decreases s,
{
    if s.len() == 0 {
        Seq::empty()
    } else {
        member_views(s.subrange(0, s.len() - 1)).push((s[s.len() - 1].0@, json_view(s[s.len() - 1].1)))
    }
}

/// The pictures of a sequence of values are as many as the values.
pub proof fn lemma_json_views_len(s: Seq<JsonValue>)
    ensures
        json_views(s).len() == s.len(),
    decreases s.len(),
{
    if s.len() > 0 {
        lemma_json_views_len(s.subrange(0, s.len() - 1));
    }
}

/// The pictures of two sequences joined are the pictures of each, joined.
pub proof fn lemma_json_views_concat(a: Seq<JsonValue>, b: Seq<JsonValue>)
    ensures
        json_views(a + b) == json_views(a) + json_views(b),
    decreases b.len(),
{
    if b.len() == 0 {
        assert(a + b =~= a);
        assert(json_views(a) + json_views(b) =~= json_views(a));
    } else {
        let b1 = b.subrange(0, b.len() - 1);
        lemma_json_views_concat(a, b1);
        assert((a + b).subrange(0, (a + b).len() - 1) =~= a + b1);
        assert(json_views(a) + json_views(b) =~= (json_views(a) + json_views(b1)).push(json_view(b[b.len() - 1])));
    }
}

/// Append the values of `other` to an array under construction.
pub fn append_items(items: &mut Vec<JsonValue>, other: Vec<JsonValue>)
    ensures
        json_views(final(items)@) == json_views(old(items)@) + json_views(other@),
{
    let mut other = other;
    proof {
        lemma_json_views_concat(items@, other@);
    }
    items.append(&mut other);
}

/// The pictures of members are as many as the members.
pub proof fn lemma_member_views_len(s: Seq<(String, JsonValue)>)
    ensures
        member_views(s).len() == s.len(),
    decreases s.len(),
{
    if s.len() > 0 {
        lemma_member_views_len(s.subrange(0, s.len() - 1));
    }
}

impl View for JsonValue {
    type V = Json;

    open spec fn view(&self) -> Json {
        json_view(*self)
    }
}

/// A JSON string.
pub fn json_string(s: &str) -> (r: JsonValue)
    ensures
        r@ == Json::Str(s@),
{
    JsonValue::String(String::from_str(s))
}

/// A JSON number from an unsigned integer.
pub fn json_u64(n: u64) -> (r: JsonValue)
    ensures
        r@ == Json::Number(decimal(n as nat)),
{
    let mut s = String::new();
    push_decimal(&mut s, n);
    JsonValue::Number(s)
}

/// Append a value to an array under construction.
pub fn push_item(items: &mut Vec<JsonValue>, v: JsonValue)
    ensures
        json_views(final(items)@) == json_views(old(items)@).push(v@),
{
    let ghost before = items@;
    items.push(v);
    assert(items@.subrange(0, items@.len() - 1) =~= before);
}

/// Append a member to an object under construction.
pub fn push_member(members: &mut Vec<(String, JsonValue)>, key: &str, v: JsonValue)
    ensures
        member_views(final(members)@) == member_views(old(members)@).push((key@, v@)),
{
    let ghost before = members@;
    members.push((String::from_str(key), v));
    assert(members@.subrange(0, members@.len() - 1) =~= before);
}

/// An object with one member.
pub fn json_object1(key: &str, v: JsonValue) -> (r: JsonValue)
    ensures
        r@ == Json::Object(seq![(key@, v@)]),
{
    let mut members: Vec<(String, JsonValue)> = Vec::new();
    push_member(&mut members, key, v);
    assert(member_views(members@) =~= seq![(key@, v@)]);
    JsonValue::Object(members)
}

/// An array of strings.
pub fn json_strings(items: &[String]) -> (r: JsonValue)
    ensures
        r@ == Json::Array(items@.map_values(|s: String| Json::Str(s@))),
{
    let mut out: Vec<JsonValue> = Vec::new();
    let mut i: usize = 0;
    while i < items.len()
        invariant
            i <= items.len(),
            json_views(out@) =~= items@.take(i as int).map_values(|s: String| Json::Str(s@)),
        decreases items.len() - i,
    {
        push_item(&mut out, json_string(items[i].as_str()));
        assert(items@.take(i + 1) =~= items@.take(i as int).push(items@[i as int]));
        i = i + 1;
    }
    assert(items@.take(items.len() as int) =~= items@);
    JsonValue::Array(out)
}

/// The member `key` of an object: the first member with that name.
pub open spec fn members_get(members: Seq<(String, JsonValue)>, key: Seq<char>) -> Option<JsonValue>
    decreases members.len(),
{
    if members.len() == 0 {
        None
    } else if members[0].0@ == key {
        Some(members[0].1)
    } else {
        members_get(members.drop_first(), key)
    }
}

/// The member `key` of `v` when `v` is an object holding it.
pub open spec fn json_get(v: JsonValue, key: Seq<char>) -> Option<JsonValue> {
    match v {
        JsonValue::Object(members) => members_get(members@, key),
        _ => None,
    }
}

/// The text of `v` when it is a string.
pub open spec fn json_str(v: JsonValue) -> Option<Seq<char>> {
    match v {
        JsonValue::String(s) => Some(s@),
        _ => None,
    }
}

/// The text of member `key` of `v` when it is a string.
pub open spec fn json_get_str(v: JsonValue, key: Seq<char>) -> Option<Seq<char>> {
    match json_get(v, key) {
        Some(x) => json_str(x),
        None => None,
    }
}

/// The elements of member `key` of `v` when it is an array.
pub open spec fn json_get_array(v: JsonValue, key: Seq<char>) -> Option<Seq<JsonValue>> {
    match json_get(v, key) {
        Some(JsonValue::Array(items)) => Some(items@),
        _ => None,
    }
}

impl JsonValue {
    /// Member `key` of this value when it is an object holding it.
    pub fn get(&self, key: &str) -> (r: Option<&JsonValue>)
        ensures
            match json_get(*self, key@) {
                Some(x) => r matches Some(y) && *y == x,
                None => r is None,
            },
    {
        match self {
            JsonValue::Object(members) => {
                let mut i: usize = 0;
                assert(members@.skip(0) =~= members@);
                while i < members.len()
                    invariant
                        i <= members.len(),
                        json_get(*self, key@) == members_get(members@, key@),
                        members_get(members@.skip(i as int), key@) == members_get(members@, key@),
                    decreases members.len() - i,
                {
                    assert(members@.skip(i as int).drop_first() =~= members@.skip(i + 1));
                    if str_eq(members[i].0.as_str(), key) {
                        return Some(&members[i].1);
                    }
                    i = i + 1;
                }
                None
            },
            _ => None,
        }
    }

    /// The text of this value when it is a string.
    pub fn as_str(&self) -> (r: Option<&str>)
        ensures
            match json_str(*self) {
                Some(s) => r matches Some(t) && t@ == s,
                None => r is None,
            },
    {
        match self {
            JsonValue::String(s) => Some(s.as_str()),
            _ => None,
        }
    }

    /// The elements of this value when it is an array.
    pub fn as_array(&self) -> (r: Option<&Vec<JsonValue>>)
        ensures
            match *self {
                JsonValue::Array(items) => r matches Some(v) && v@ == items@,
                _ => r is None,
            },
    {
        match self {
            JsonValue::Array(items) => Some(items),
            _ => None,
        }
    }

    /// The text of member `key` when it is a string.
    pub fn get_str(&self, key: &str) -> (r: Option<&str>)
        ensures
            match json_get_str(*self, key@) {
                Some(s) => r matches Some(t) && t@ == s,
                None => r is None,
            },
    {
        match self.get(key) {
            Some(v) => v.as_str(),
            None => None,
        }
    }

    /// The elements of member `key` when it is an array.
    pub fn get_array(&self, key: &str) -> (r: Option<&Vec<JsonValue>>)
        ensures
            match json_get_array(*self, key@) {
                Some(items) => r matches Some(v) && v@ == items,
                None => r is None,
            },
    {
        match self.get(key) {
            Some(v) => v.as_array(),
            None => None,
        }
    }
}

impl JsonValue {
    /// A deep copy of this value.
    pub fn duplicate(&self) -> (r: JsonValue)
        ensures
            r@ == self@,
        decreases self,
    {
        match self {
            JsonValue::Null => JsonValue::Null,
            JsonValue::Bool(b) => JsonValue::Bool(*b),
            JsonValue::Number(n) => JsonValue::Number(String::from_str(n.as_str())),
            JsonValue::String(t) => JsonValue::String(String::from_str(t.as_str())),
            JsonValue::Array(items) => {
                let mut out: Vec<JsonValue> = Vec::new();
                let mut i: usize = 0;
                while i < items.len()
                    invariant
                        i <= items.len(),
                        json_views(out@) == json_views(items@.take(i as int)),
                        *self == JsonValue::Array(*items),
                    decreases items.len() - i,
                {
                    assert(decreases_to!(*self => self->Array_0));
                    assert(decreases_to!(*items => items@));
                    assert(decreases_to!(items@ => items@[i as int]));
                    push_item(&mut out, items[i].duplicate());
                    assert(items@.take(i + 1).subrange(0, i as int) =~= items@.take(i as int));
                    i = i + 1;
                }
                assert(items@.take(items.len() as int) =~= items@);
                JsonValue::Array(out)
            },
            JsonValue::Object(members) => {
                let mut out: Vec<(String, JsonValue)> = Vec::new();
                let mut i: usize = 0;
                while i < members.len()
                    invariant
                        i <= members.len(),
                        member_views(out@) == member_views(members@.take(i as int)),
                        *self == JsonValue::Object(*members),
                    decreases members.len() - i,
                {
                    assert(decreases_to!(*self => self->Object_0));
                    assert(decreases_to!(*members => members@));
                    assert(decreases_to!(members@ => members@[i as int]));
                    assert(decreases_to!(members@[i as int] => members@[i as int].1));
                    push_member(&mut out, members[i].0.as_str(), members[i].1.duplicate());
                    assert(members@.take(i + 1).subrange(0, i as int) =~= members@.take(i as int));
                    i = i + 1;
                }
                assert(members@.take(members.len() as int) =~= members@);
                JsonValue::Object(out)
            },
        }
    }
}

/// The member `key` of a document tree when it is an object holding it:
/// the first member with that name.
pub open spec fn json_member(v: Json, key: Seq<char>) -> Option<Json> {
    match v {
        Json::Object(members) => member_lookup(members, key),
        _ => None,
    }
}

/// The first member named `key`.
pub open spec fn member_lookup(members: Seq<(Seq<char>, Json)>, key: Seq<char>) -> Option<Json>
    decreases members.len(),
{
    if members.len() == 0 {
        None
    } else if members[0].0 == key {
        Some(members[0].1)
    } else {
        member_lookup(members.drop_first(), key)
    }
}

/// Each member's picture is the picture of that member.
pub proof fn lemma_member_views_index(s: Seq<(String, JsonValue)>, i: int)
    requires
        0 <= i < s.len(),
    ensures
        member_views(s).len() == s.len(),
        member_views(s)[i] == (s[i].0@, json_view(s[i].1)),
    decreases s.len(),
{
    lemma_member_views_len(s);
    if i < s.len() - 1 {
        lemma_member_views_index(s.subrange(0, s.len() - 1), i);
    }
}

/// Looking a member up in a value and in its picture agree.
pub proof fn lemma_members_get_view(s: Seq<(String, JsonValue)>, key: Seq<char>)
    ensures
        member_lookup(member_views(s), key) == match members_get(s, key) {
            Some(x) => Some(json_view(x)),
            None => None,
        },
    decreases s.len(),
{
    lemma_member_views_len(s);
    lemma_member_views_len(s.drop_first());
    if s.len() > 0 {
        lemma_member_views_index(s, 0);
        assert forall|i: int| 0 <= i < s.len() - 1 implies #[trigger] member_views(s).drop_first()[i] == member_views(
            s.drop_first(),
        )[i] by {
            lemma_member_views_index(s, i + 1);
            lemma_member_views_index(s.drop_first(), i);
        }
        assert(member_views(s).drop_first() =~= member_views(s.drop_first()));
        lemma_members_get_view(s.drop_first(), key);
    }
}

/// The text of member `key` of a value, read on its picture.
pub proof fn lemma_get_str_view(v: JsonValue, key: Seq<char>, text: Seq<char>)
    ensures
        (json_get_str(v, key) == Some(text)) == (json_member(v@, key) == Some(Json::Str(text))),
{
    match v {
        JsonValue::Object(members) => {
            lemma_members_get_view(members@, key);
        },
        _ => {},
    }
}

/// What `serde_json` parses from bytes: the document tree, or `None` when
/// the bytes are not one JSON document.
pub uninterp spec fn json_bytes_parsed(bytes: Seq<u8>) -> Option<Json>;

/// What `serde_json` parses from a text: the document tree, or `None` when
/// the text is not one JSON document.
pub uninterp spec fn json_str_parsed(text: Seq<char>) -> Option<Json>;

/// A `serde_json` value as a `JsonValue`, variant for variant: a number as
/// its text, an object's members in the order of its map. Nothing is
/// stated of it here; the two parsers below, its only callers, state what
/// they return.
#[verifier::external_body]
fn json_from_serde(v: &serde_json::Value) -> JsonValue {
    match v {
        serde_json::Value::Null => JsonValue::Null,
        serde_json::Value::Bool(b) => JsonValue::Bool(*b),
        serde_json::Value::Number(n) => JsonValue::Number(n.to_string()),
        serde_json::Value::String(t) => JsonValue::String(t.clone()),
        serde_json::Value::Array(items) => JsonValue::Array(items.iter().map(json_from_serde).collect()),
        serde_json::Value::Object(m) => JsonValue::Object(m.iter().map(|(k, x)| (k.clone(), json_from_serde(x))).collect()),
    }
}

/// `serde_json::from_slice::<serde_json::Value>`: the tree parsed from the
/// bytes (`json_bytes_parsed`), or the parser's message when they are not
/// one JSON document. The message's text is not stated.
#[verifier::external_body]
pub(crate) fn parse_json_bytes(bytes: &[u8]) -> (r: Result<JsonValue, String>)
    ensures
        match r {
            Ok(v) => json_bytes_parsed(bytes@) == Some(v@),
            Err(_) => json_bytes_parsed(bytes@) is None,
        },
{
    match serde_json::from_slice::<serde_json::Value>(bytes) {
        Ok(v) => Ok(json_from_serde(&v)),
        Err(e) => Err(e.to_string()),
    }
}

/// `serde_json::from_str::<serde_json::Value>`: the tree parsed from the
/// text (`json_str_parsed`), or `None` when it is not one JSON document.
#[verifier::external_body]
pub(crate) fn parse_json_str(text: &str) -> (r: Option<JsonValue>)
    ensures
        match r {
            Some(v) => json_str_parsed(text@) == Some(v@),
            None => json_str_parsed(text@) is None,
        },
{
    match serde_json::from_str::<serde_json::Value>(text) {
        Ok(v) => Some(json_from_serde(&v)),
        Err(_) => None,
    }
}

} // verus!
