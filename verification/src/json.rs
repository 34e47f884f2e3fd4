//! JSON values as plain data, and the tree of plain values that each stands for.

use crate::text::same_text;
use vstd::prelude::*;

verus! {

/// A number as JSON knows it: an integer, or the bits of a finite
/// double-precision number.
#[verifier::ext_equal]
pub enum NumberView {
    Int(int),
    Float(u64),
}

/// What a JSON value stands for. An object is a map: the order of its members
/// means nothing.
#[verifier::ext_equal]
pub enum JsonView {
    Null,
    Bool(bool),
    Number(NumberView),
    Text(Seq<char>),
    Array(Seq<JsonView>),
    Object(Map<Seq<char>, JsonView>),
}

impl JsonView {
    /// An object without members.
    pub open spec fn empty() -> JsonView {
        JsonView::Object(Map::empty())
    }

    /// This object with `value` under `key`, in place of what was there.
    pub open spec fn with(self, key: Seq<char>, value: JsonView) -> JsonView
        recommends
            self is Object,
    {
        JsonView::Object(self->Object_0.insert(key, value))
    }

    /// The member of an object under `key`; nothing of any other value.
    pub open spec fn field(self, key: Seq<char>) -> Option<JsonView> {
        match self {
            JsonView::Object(members) => if members.contains_key(key) {
                Some(members[key])
            } else {
                None
            },
            _ => None,
        }
    }

    /// The element of an array at `index`; nothing of any other value.
    pub open spec fn item(self, index: int) -> Option<JsonView> {
        match self {
            JsonView::Array(items) => if 0 <= index < items.len() {
                Some(items[index])
            } else {
                None
            },
            _ => None,
        }
    }

    /// The characters of a string; nothing of any other value.
    pub open spec fn text(self) -> Option<Seq<char>> {
        match self {
            JsonView::Text(s) => Some(s),
            _ => None,
        }
    }

    /// The value of an integer that fits 64 unsigned bits; nothing of any other
    /// value.
    pub open spec fn unsigned(self) -> Option<u64> {
        match self {
            JsonView::Number(NumberView::Int(n)) => if 0 <= n <= u64::MAX {
                Some(n as u64)
            } else {
                None
            },
            _ => None,
        }
    }

    /// The string under `key` of an object.
    pub open spec fn text_field(self, key: Seq<char>) -> Option<Seq<char>> {
        match self.field(key) {
            Some(v) => v.text(),
            None => None,
        }
    }

    /// The unsigned integer under `key` of an object.
    pub open spec fn unsigned_field(self, key: Seq<char>) -> Option<u64> {
        match self.field(key) {
            Some(v) => v.unsigned(),
            None => None,
        }
    }
}

/// A JSON number. `Float` holds the bits of a double-precision number.
#[derive(Debug, Clone, Copy)]
pub enum JsonNumber {
    Unsigned(u64),
    Signed(i64),
    Float(u64),
}

/// Whether the bits of a double-precision number are those of a finite one: the
/// eleven exponent bits are not all set.
pub open spec fn finite_bits(bits: u64) -> bool {
    (bits as int / 0x10_0000_0000_0000) % 0x800 != 0x7ff
}

impl JsonNumber {
    /// The JSON value that the number stands for. JSON has no word for a number
    /// that is not finite, and `null` takes its place.
    pub open spec fn json(self) -> JsonView {
        match self {
            JsonNumber::Unsigned(n) => JsonView::Number(NumberView::Int(n as int)),
            JsonNumber::Signed(n) => JsonView::Number(NumberView::Int(n as int)),
            JsonNumber::Float(bits) => if finite_bits(bits) {
                JsonView::Number(NumberView::Float(bits))
            } else {
                JsonView::Null
            },
        }
    }
}

/// A JSON value. Of two members of an object under one name the later one counts.
#[derive(Debug)]
pub enum Json {
    Null,
    Bool(bool),
    Number(JsonNumber),
    Text(String),
    Array(Vec<Json>),
    Object(Vec<(String, Json)>),
}

impl Json {
    /// The tree that the value stands for.
    pub open spec fn tree(self) -> JsonView
        decreases self,
    {
        match self {
            Json::Null => JsonView::Null,
            Json::Bool(b) => JsonView::Bool(b),
            Json::Number(n) => n.json(),
            Json::Text(s) => JsonView::Text(s@),
            Json::Array(items) => JsonView::Array(Json::trees(items@)),
            Json::Object(members) => JsonView::Object(Json::members(members@)),
        }
    }

    /// The trees of a sequence of values.
    pub open spec fn trees(items: Seq<Json>) -> Seq<JsonView>
        decreases items,
    {
        if items.len() == 0 {
            Seq::empty()
        } else {
            Json::trees(items.subrange(0, items.len() - 1)).push(items[items.len() - 1].tree())
        }
    }

    /// The members of an object, the later of two under one name counting.
    pub open spec fn members(members: Seq<(String, Json)>) -> Map<Seq<char>, JsonView>
        decreases members,
    {
        if members.len() == 0 {
            Map::empty()
        } else {
            let last = members[members.len() - 1];
            Json::members(members.subrange(0, members.len() - 1)).insert(last.0@, last.1.tree())
        }
    }
}

impl View for Json {
    type V = JsonView;

    open spec fn view(&self) -> JsonView {
        self.tree()
    }
}

/// What an optional reference to a value stands for.
pub open spec fn found(v: Option<&Json>) -> Option<JsonView> {
    match v {
        Some(j) => Some(j@),
        None => None,
    }
}

/// What an optional string stands for.
pub open spec fn found_text(s: Option<&str>) -> Option<Seq<char>> {
    match s {
        Some(t) => Some(t@),
        None => None,
    }
}

impl Json {
    /// An object without members.
    pub fn object() -> (r: Json)
        ensures
            r@ == JsonView::empty(),
    {
        Json::Object(Vec::new())
    }

    /// A string.
    pub fn string(s: &str) -> (r: Json)
        ensures
            r@ == JsonView::Text(s@),
    {
        Json::Text(s.to_string())
    }

    /// This object with `value` under `key`, in place of what was there.
    pub fn with(self, key: &str, value: Json) -> (r: Json)
        requires
            self@ is Object,
        ensures
            r@ == self@.with(key@, value@),
    {
        match self {
            Json::Object(members) => {
                let mut members: Vec<(String, Json)> = members;
                let ghost before = members@;
                members.push((key.to_string(), value));
                assert(members@.subrange(0, members@.len() - 1) =~= before);
                Json::Object(members)
            },
            other => other,
        }
    }

    /// The member of an object under `key`; nothing of any other value.
    pub fn get(&self, key: &str) -> (r: Option<&Json>)
        ensures
            found(r) == self@.field(key@),
    {
        match self {
            Json::Object(members) => {
                let mut n: usize = members.len();
                assert(members@.subrange(0, n as int) =~= members@);
                while n > 0
                    invariant
                        n <= members@.len(),
                        *self == Json::Object(*members),
                        self@.field(key@) == JsonView::Object(
                            Json::members(members@.subrange(0, n as int)),
                        ).field(key@),
                    decreases n,
                {
                    let ghost shorter = members@.subrange(0, n as int);
                    assert(shorter.subrange(0, shorter.len() - 1) =~= members@.subrange(0, n - 1));
                    n -= 1;
                    if same_text(members[n].0.as_str(), key) {
                        return Some(&members[n].1);
                    }
                }
                None
            },
            _ => None,
        }
    }

    /// The element of an array at `index`; nothing of any other value.
    pub fn get_index(&self, index: usize) -> (r: Option<&Json>)
        ensures
            found(r) == self@.item(index as int),
    {
        match self {
            Json::Array(items) => {
                proof {
                    lemma_trees(items@);
                }
                if index < items.len() {
                    Some(&items[index])
                } else {
                    None
                }
            },
            _ => None,
        }
    }

    /// The characters of a string; nothing of any other value.
    pub fn as_str(&self) -> (r: Option<&str>)
        ensures
            found_text(r) == self@.text(),
    {
        match self {
            Json::Text(s) => Some(s.as_str()),
            _ => None,
        }
    }

    /// The value of an integer that fits 64 unsigned bits; nothing of any other
    /// value.
    pub fn as_u64(&self) -> (r: Option<u64>)
        ensures
            r == self@.unsigned(),
    {
        match self {
            Json::Number(JsonNumber::Unsigned(n)) => Some(*n),
            Json::Number(JsonNumber::Signed(n)) => if *n >= 0 {
                Some(*n as u64)
            } else {
                None
            },
            _ => None,
        }
    }

    /// The elements of an array; nothing of any other value.
    pub fn as_array(&self) -> (r: Option<&Vec<Json>>)
        ensures
            match r {
                Some(items) => self@ == JsonView::Array(Json::trees(items@)),
                None => self@ !is Array,
            },
    {
        match self {
            Json::Array(items) => Some(items),
            _ => None,
        }
    }

    /// The string under `key` of an object.
    pub fn get_str(&self, key: &str) -> (r: Option<&str>)
        ensures
            found_text(r) == self@.text_field(key@),
    {
        match self.get(key) {
            Some(v) => v.as_str(),
            None => None,
        }
    }

    /// The unsigned integer under `key` of an object.
    pub fn get_u64(&self, key: &str) -> (r: Option<u64>)
        ensures
            r == self@.unsigned_field(key@),
    {
        match self.get(key) {
            Some(v) => v.as_u64(),
            None => None,
        }
    }
}

/// The trees of a sequence of values, one by one.
pub proof fn lemma_trees(items: Seq<Json>)
    ensures
        Json::trees(items).len() == items.len(),
        forall|i: int| 0 <= i < items.len() ==> #[trigger] Json::trees(items)[i] == items[i].tree(),
    decreases items.len(),
{
    if items.len() > 0 {
        lemma_trees(items.subrange(0, items.len() - 1));
    }
}

impl Clone for Json {
    fn clone(&self) -> (r: Json)
        ensures
            r@ == self@,
        decreases self,
    {
        match self {
            Json::Null => Json::Null,
            Json::Bool(b) => Json::Bool(*b),
            Json::Number(n) => Json::Number(*n),
            Json::Text(s) => Json::Text(s.clone()),
            Json::Array(items) => {
                let mut copy: Vec<Json> = Vec::new();
                let mut i: usize = 0;
                while i < items.len()
                    invariant
                        i <= items@.len(),
                        *self == Json::Array(*items),
                        Json::trees(copy@) == Json::trees(items@.subrange(0, i as int)),
                    decreases items@.len() - i,
                {
                    let ghost before = copy@;
                    assert(decreases_to!(*self => self->Array_0));
                    assert(decreases_to!(*items => items@));
                    assert(decreases_to!(items@ => items@[i as int]));
                    copy.push(items[i].clone());
                    i += 1;
                    proof {
                        let longer = items@.subrange(0, i as int);
                        assert(longer.subrange(0, longer.len() - 1) =~= items@.subrange(0, i - 1));
                        assert(copy@.subrange(0, copy@.len() - 1) =~= before);
                    }
                }
                assert(items@.subrange(0, items@.len() as int) =~= items@);
                Json::Array(copy)
            },
            Json::Object(members) => {
                let mut copy: Vec<(String, Json)> = Vec::new();
                let mut i: usize = 0;
                while i < members.len()
                    invariant
                        i <= members@.len(),
                        *self == Json::Object(*members),
                        Json::members(copy@) == Json::members(members@.subrange(0, i as int)),
                    decreases members@.len() - i,
                {
                    let ghost before = copy@;
                    assert(decreases_to!(*self => self->Object_0));
                    assert(decreases_to!(*members => members@));
                    assert(decreases_to!(members@ => members@[i as int]));
                    assert(decreases_to!(members@[i as int] => members@[i as int].1));
                    copy.push((members[i].0.clone(), members[i].1.clone()));
                    i += 1;
                    proof {
                        let longer = members@.subrange(0, i as int);
                        assert(longer.subrange(0, longer.len() - 1) =~= members@.subrange(0, i - 1));
                        assert(copy@.subrange(0, copy@.len() - 1) =~= before);
                    }
                }
                assert(members@.subrange(0, members@.len() as int) =~= members@);
                Json::Object(copy)
            },
        }
    }
}

} // verus!
