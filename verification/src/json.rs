//! JSON values, as the settings file holds them.
use vstd::prelude::*;

verus! {

/// A JSON number: a non-negative integer, a negative integer, or any other number,
/// held as the bit pattern of its IEEE-754 binary64 value.
#[derive(Clone, Copy, Debug, PartialEq, Eq, Structural)]
pub enum JsonNumber {
    PosInt(u64),
    NegInt(i64),
    Float(u64),
}

/// A JSON value.
#[derive(Debug)]
pub enum JsonValue {
    Null,
    Bool(bool),
    Number(JsonNumber),
    Text(String),
    Array(Vec<JsonValue>),
    Object(Vec<(String, JsonValue)>),
}

/// What a JSON value is: its texts as character sequences.
pub enum JsonView {
    Null,
    Bool(bool),
    Number(JsonNumber),
    Text(Seq<char>),
    Array(Seq<JsonView>),
    Object(Seq<(Seq<char>, JsonView)>),
}

pub open spec fn json_view(v: JsonValue) -> JsonView
    decreases v, 1nat,
{
    match v {
        JsonValue::Null => JsonView::Null,
        JsonValue::Bool(b) => JsonView::Bool(b),
        JsonValue::Number(n) => JsonView::Number(n),
        JsonValue::Text(s) => JsonView::Text(s@),
        JsonValue::Array(items) => JsonView::Array(json_items_view(items@, items@.len() as int)),
        JsonValue::Object(members) => JsonView::Object(json_members_view(members@, members@.len() as int)),
    }
}

/// The views of the first `n` items.
pub open spec fn json_items_view(items: Seq<JsonValue>, n: int) -> Seq<JsonView>
    decreases items, 0nat, n,
{
    if n <= 0 || n > items.len() {
        Seq::empty()
    } else {
        json_items_view(items, n - 1).push(json_view(items[n - 1]))
    }
}

/// The views of the first `n` members.
pub open spec fn json_members_view(members: Seq<(String, JsonValue)>, n: int) -> Seq<(Seq<char>, JsonView)>
    decreases members, 0nat, n,
{
    if n <= 0 || n > members.len() {
        Seq::empty()
    } else {
        json_members_view(members, n - 1).push((members[n - 1].0@, json_view(members[n - 1].1)))
    }
}

impl JsonView {
    /// The value as an unsigned integer, where it is a non-negative integer number
    /// (`serde_json::Value::as_u64`).
    pub open spec fn as_u64(self) -> Option<u64> {
        match self {
            JsonView::Number(JsonNumber::PosInt(u)) => Some(u),
            _ => None,
        }
    }

    /// The value as a boolean, where it is one (`serde_json::Value::as_bool`).
    pub open spec fn as_bool(self) -> Option<bool> {
        match self {
            JsonView::Bool(b) => Some(b),
            _ => None,
        }
    }

    /// The value's text, where it is a string (`serde_json::Value::as_str`).
    pub open spec fn as_text(self) -> Option<Seq<char>> {
        match self {
            JsonView::Text(s) => Some(s),
            _ => None,
        }
    }
}

impl View for JsonValue {
    type V = JsonView;

    open spec fn view(&self) -> JsonView {
        json_view(*self)
    }
}

impl JsonValue {
    pub fn as_u64(&self) -> (r: Option<u64>)
        ensures
            r == self@.as_u64(),
    {
        match self {
            JsonValue::Number(JsonNumber::PosInt(u)) => Some(*u),
            _ => None,
        }
    }

    pub fn as_bool(&self) -> (r: Option<bool>)
        ensures
            r == self@.as_bool(),
    {
        match self {
            JsonValue::Bool(b) => Some(*b),
            _ => None,
        }
    }

    pub fn as_str(&self) -> (r: Option<&str>)
        ensures
            r matches Some(s) ==> self@.as_text() == Some(s@),
            r is None ==> self@.as_text() is None,
    {
        match self {
            JsonValue::Text(s) => Some(s.as_str()),
            _ => None,
        }
    }

    /// A copy of the value.
    pub fn duplicate(&self) -> (r: JsonValue)
        ensures
            r@ == self@,
        decreases self,
    {
        match self {
            JsonValue::Null => JsonValue::Null,
            JsonValue::Bool(b) => JsonValue::Bool(*b),
            JsonValue::Number(n) => JsonValue::Number(*n),
            JsonValue::Text(s) => JsonValue::Text(s.clone()),
            JsonValue::Array(items) => {
                let mut out: Vec<JsonValue> = Vec::new();
                let mut i: usize = 0;
                proof {
                    assert forall|k: int| 0 <= k < items@.len() implies decreases_to!(*self => items@[k]) by {
                        assert(decreases_to!(*items => items@));
                        assert(decreases_to!(items@ => items@[k]));
                    }
                }
                while i < items.len()
                    invariant
                        forall|k: int| 0 <= k < items@.len() ==> decreases_to!(*self => items@[k]),
                        i <= items@.len(),
                        out@.len() == i,
                        json_items_view(out@, i as int) == json_items_view(items@, i as int),
                        forall|j: int| 0 <= j < i ==> json_items_view(out@, j) == json_items_view(items@, j),
                    decreases items@.len() - i,
                {
                    let x = items[i].duplicate();
                    let ghost prev = out@;
                    out.push(x);
                    proof {
                        assert forall|j: int| 0 <= j <= i implies json_items_view(out@, j) == json_items_view(prev, j) by {
                            lemma_items_prefix(out@, prev, j);
                        }
                    }
                    i = i + 1;
                }
                let r = JsonValue::Array(out);
                assert(r@ == self@);
                r
            },
            JsonValue::Object(members) => {
                let mut out: Vec<(String, JsonValue)> = Vec::new();
                let mut i: usize = 0;
                proof {
                    assert forall|k: int| 0 <= k < members@.len() implies decreases_to!(*self => members@[k].1) by {
                        assert(decreases_to!(*members => members@));
                        assert(decreases_to!(members@ => members@[k]));
                        assert(decreases_to!(members@[k] => members@[k].1));
                    }
                }
                while i < members.len()
                    invariant
                        forall|k: int| 0 <= k < members@.len() ==> decreases_to!(*self => members@[k].1),
                        i <= members@.len(),
                        out@.len() == i,
                        forall|j: int| 0 <= j <= i ==> json_members_view(out@, j) == json_members_view(members@, j),
                    decreases members@.len() - i,
                {
                    let k = members[i].0.clone();
                    let x = members[i].1.duplicate();
                    let ghost prev = out@;
                    out.push((k, x));
                    proof {
                        assert forall|j: int| 0 <= j <= i implies json_members_view(out@, j) == json_members_view(prev, j) by {
                            lemma_members_prefix(out@, prev, j);
                        }
                        assert(out@[i as int].0@ == members@[i as int].0@);
                        assert(json_view(out@[i as int].1) == json_view(members@[i as int].1));
                        assert(json_members_view(out@, i as int) == json_members_view(members@, i as int));
                        assert(json_members_view(out@, i + 1) == json_members_view(out@, i as int).push(
                            (out@[i as int].0@, json_view(out@[i as int].1)),
                        ));
                        assert(json_members_view(out@, i + 1) == json_members_view(members@, i + 1));
                    }
                    i = i + 1;
                }
                assert(json_members_view(out@, i as int) == json_members_view(members@, i as int));
                let r = JsonValue::Object(out);
                assert(r@ == self@);
                r
            },
        }
    }
}

proof fn lemma_items_prefix(a: Seq<JsonValue>, b: Seq<JsonValue>, n: int)
    requires
        0 <= n <= b.len() <= a.len(),
        forall|j: int| 0 <= j < b.len() ==> a[j] == b[j],
    ensures
        json_items_view(a, n) == json_items_view(b, n),
    decreases n,
{
    if n > 0 {
        lemma_items_prefix(a, b, n - 1);
    }
}

proof fn lemma_members_prefix(a: Seq<(String, JsonValue)>, b: Seq<(String, JsonValue)>, n: int)
    requires
        0 <= n <= b.len() <= a.len(),
        forall|j: int| 0 <= j < b.len() ==> a[j] == b[j],
    ensures
        json_members_view(a, n) == json_members_view(b, n),
    decreases n,
{
    if n > 0 {
        lemma_members_prefix(a, b, n - 1);
    }
}

} // verus!
