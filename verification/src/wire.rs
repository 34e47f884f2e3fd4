//! JSON text, read and written by `serde_json`.
//!
//! What a `serde_json::Value` holds is taken apart and put together one level at
//! a time; the walk over the whole value is verified here.

use crate::json::{Json, JsonNumber, JsonView, NumberView};
use crate::text::same_text;
use bytes::Buf;
use serde_json::Value;
use vstd::prelude::*;

verus! {

/// `serde_json::Value`, whose inside is known through `value_content` only.
#[verifier::external_type_specification]
#[verifier::external_body]
pub struct ExValue(serde_json::Value);

/// What a `serde_json::Value` holds.
pub uninterp spec fn value_content(v: Value) -> JsonView;

/// What `serde_json` reads a text as: the value, or nothing where the text is not
/// JSON that it accepts.
pub uninterp spec fn json_parse(text: Seq<char>) -> Option<JsonView>;

/// The compact text that `serde_json` writes for a value.
pub uninterp spec fn json_text(content: JsonView) -> Seq<char>;

/// Whether a value holds integers only, where it holds numbers, and arrays and
/// objects lie in one another at most `levels` deep.
pub open spec fn integral_within(content: JsonView, levels: nat) -> bool
    decreases levels,
{
    match content {
        JsonView::Number(NumberView::Float(_)) => false,
        JsonView::Array(items) => levels > 0 && forall|i: int|
            0 <= i < items.len() ==> #[trigger] integral_within(items[i], (levels - 1) as nat),
        JsonView::Object(members) => levels > 0 && forall|name: Seq<char>|
            members.contains_key(name) ==> #[trigger] integral_within(
                members[name],
                (levels - 1) as nat,
            ),
        _ => true,
    }
}

/// Whether the text of a value is sure to be read as that value again: reading
/// goes 127 levels deep, and a number that is no integer may come back as its
/// neighbour.
pub open spec fn reads_back(content: JsonView) -> bool {
    integral_within(content, 127)
}

/// The outermost level of a `serde_json::Value`.
enum ValueParts {
    Null,
    Bool(bool),
    Number(JsonNumber),
    Text(String),
    Array(Vec<Value>),
    Object(Vec<(String, Value)>),
}

impl ValueParts {
    /// What the value made of these parts holds.
    spec fn content(self) -> JsonView {
        match self {
            ValueParts::Null => JsonView::Null,
            ValueParts::Bool(b) => JsonView::Bool(b),
            ValueParts::Number(n) => n.json(),
            ValueParts::Text(s) => JsonView::Text(s@),
            ValueParts::Array(items) => JsonView::Array(contents(items@)),
            ValueParts::Object(members) => JsonView::Object(member_contents(members@)),
        }
    }
}

/// What each of a sequence of values holds.
spec fn contents(items: Seq<Value>) -> Seq<JsonView> {
    Seq::new(items.len(), |i: int| value_content(items[i]))
}

/// The members of an object, the later of two under one name counting.
spec fn member_contents(members: Seq<(String, Value)>) -> Map<Seq<char>, JsonView>
    decreases members.len(),
{
    if members.len() == 0 {
        Map::empty()
    } else {
        member_contents(members.drop_last()).insert(
            members.last().0@,
            value_content(members.last().1),
        )
    }
}

/// Whether no two members go by one name.
spec fn distinct_names(members: Seq<(String, Value)>) -> bool {
    forall|i: int, j: int|
        0 <= i < j < members.len() ==> #[trigger] members[i].0@ != #[trigger] members[j].0@
}

/// Takes a `serde_json::Value` apart by its variants. The elements of its array
/// and the members of its `Map`, each name once, come out whole. A number comes out
/// as what `Number::as_u64`, else `Number::as_i64`, else the bits of
/// `Number::as_f64` give: a number is an integer of one of the two kinds or a
/// finite double-precision number, and these tell which.
#[verifier::external_body]
fn value_parts(v: Value) -> (r: ValueParts)
    ensures
        r.content() == value_content(v),
        r matches ValueParts::Object(members) ==> distinct_names(members@),
{
    match v {
        Value::Null => ValueParts::Null,
        Value::Bool(b) => ValueParts::Bool(b),
        Value::Number(n) => ValueParts::Number(match (n.as_u64(), n.as_i64()) {
            (Some(u), _) => JsonNumber::Unsigned(u),
            (None, Some(i)) => JsonNumber::Signed(i),
            (None, None) => JsonNumber::Float(n.as_f64().unwrap_or_default().to_bits()),
        }),
        Value::String(s) => ValueParts::Text(s),
        Value::Array(items) => ValueParts::Array(items),
        Value::Object(members) => ValueParts::Object(members.into_iter().collect()),
    }
}

/// Makes a `serde_json::Value` of its parts through the variants of the type and
/// its `From` for `u64`, for `i64` and for double-precision numbers, of which the
/// last gives `null` for one that is not finite. `bytes::Buf::get_f64` makes a
/// double-precision number of its bits in big-endian order. Members are collected
/// into a `Map`, each name once.
#[verifier::external_body]
fn value_of_parts(p: ValueParts) -> (r: Value)
    requires
        p matches ValueParts::Object(members) ==> distinct_names(members@),
    ensures
        value_content(r) == p.content(),
{
    match p {
        ValueParts::Null => Value::Null,
        ValueParts::Bool(b) => Value::Bool(b),
        ValueParts::Number(JsonNumber::Unsigned(n)) => Value::from(n),
        ValueParts::Number(JsonNumber::Signed(n)) => Value::from(n),
        ValueParts::Number(JsonNumber::Float(bits)) => {
            Value::from(bits.to_be_bytes().as_slice().get_f64())
        },
        ValueParts::Text(s) => Value::String(s),
        ValueParts::Array(items) => Value::Array(items),
        ValueParts::Object(members) => Value::Object(members.into_iter().collect()),
    }
}

/// `serde_json::from_str` into a `Value`. Which texts it accepts and what it reads
/// them as is not written out here; why a text is refused is not told.
#[verifier::external_body]
fn value_from_str(text: &str) -> (r: Option<Value>)
    ensures
        match r {
            Some(v) => json_parse(text@) == Some(value_content(v)),
            None => json_parse(text@) is None,
        },
{
    serde_json::from_str::<Value>(text).ok()
}

/// The `Display` of `serde_json::Value`, which writes compact JSON. Its `Map` keeps
/// the members of an object in the order of their names, whatever order they were
/// inserted in, so the text depends on nothing but what the value holds. What the
/// text looks like is not written out here. `serde_json::from_str` reads it as the
/// same value where the value holds no number but integers, which are written in
/// decimal digits and read as integers, and is no deeper than the 127 levels that
/// the reader goes into. Of other values it is left unsaid what their text is read
/// as.
#[verifier::external_body]
fn value_to_string(v: &Value) -> (r: String)
    ensures
        r@ == json_text(value_content(*v)),
        reads_back(value_content(*v)) ==> json_parse(r@) == Some(value_content(*v)),
{
    v.to_string()
}

/// The value of the library that holds what a `serde_json::Value` holds.
pub fn json_from_value(v: Value) -> (r: Json)
    ensures
        r@ == value_content(v),
    decreases value_content(v),
{
    match value_parts(v) {
        ValueParts::Null => Json::Null,
        ValueParts::Bool(b) => Json::Bool(b),
        ValueParts::Number(n) => Json::Number(n),
        ValueParts::Text(s) => Json::Text(s),
        ValueParts::Array(items) => {
            let mut out: Vec<Json> = Vec::new();
            let ghost all = items@;
            for item in it: items
                invariant
                    it.seq() == all,
                    value_content(v) == JsonView::Array(contents(all)),
                    Json::trees(out@) == contents(all.subrange(0, it.index() as int)),
            {
                let ghost before = out@;
                let ghost i = it.index() as int;
                assert(decreases_to!(value_content(v) => value_content(v)->Array_0));
                assert(decreases_to!(value_content(v)->Array_0 => value_content(v)->Array_0[i]));
                out.push(json_from_value(item));
                proof {
                    assert(out@.subrange(0, out@.len() - 1) =~= before);
                    assert(contents(all.subrange(0, i + 1)) =~= contents(all.subrange(0, i)).push(
                        value_content(all[i]),
                    ));
                }
            }
            assert(all.subrange(0, all.len() as int) =~= all);
            Json::Array(out)
        },
        ValueParts::Object(members) => {
            let mut out: Vec<(String, Json)> = Vec::new();
            let ghost all = members@;
            for member in it: members
                invariant
                    it.seq() == all,
                    distinct_names(all),
                    value_content(v) == JsonView::Object(member_contents(all)),
                    Json::members(out@) == member_contents(all.subrange(0, it.index() as int)),
            {
                let ghost before = out@;
                let ghost i = it.index() as int;
                proof {
                    lemma_member(all, i);
                }
                assert(decreases_to!(value_content(v) => value_content(v)->Object_0));
                assert(decreases_to!(member_contents(all) => member_contents(all)[all[i].0@]));
                let (name, value) = member;
                out.push((name, json_from_value(value)));
                proof {
                    let longer = all.subrange(0, i + 1);
                    assert(out@.subrange(0, out@.len() - 1) =~= before);
                    assert(longer.drop_last() =~= all.subrange(0, i));
                }
            }
            assert(all.subrange(0, all.len() as int) =~= all);
            Json::Object(out)
        },
    }
}

/// Where each name occurs once, every member is found under its name.
proof fn lemma_member(members: Seq<(String, Value)>, i: int)
    requires
        distinct_names(members),
        0 <= i < members.len(),
    ensures
        member_contents(members).dom().finite(),
        member_contents(members).contains_key(members[i].0@),
        member_contents(members)[members[i].0@] == value_content(members[i].1),
    decreases members.len(),
{
    let shorter = members.drop_last();
    let last = members.last();
    if i < shorter.len() {
        lemma_member(shorter, i);
    } else if shorter.len() > 0 {
        lemma_member(shorter, 0);
    } else {
        assert(member_contents(shorter).dom() =~= Set::empty());
    }
    assert(member_contents(members).dom() =~= member_contents(shorter).dom().insert(last.0@));
}

/// A name is found exactly where some member goes by it.
proof fn lemma_names(members: Seq<(String, Value)>, name: Seq<char>)
    ensures
        member_contents(members).contains_key(name) <==> exists|i: int|
            0 <= i < members.len() && (#[trigger] members[i]).0@ == name,
    decreases members.len(),
{
    if members.len() > 0 {
        let shorter = members.drop_last();
        lemma_names(shorter, name);
        if exists|i: int| 0 <= i < members.len() && (#[trigger] members[i]).0@ == name {
            let i = choose|i: int| 0 <= i < members.len() && (#[trigger] members[i]).0@ == name;
            if i < shorter.len() {
                assert(shorter[i].0@ == name);
            }
        }
        if exists|i: int| 0 <= i < shorter.len() && (#[trigger] shorter[i]).0@ == name {
            let i = choose|i: int| 0 <= i < shorter.len() && (#[trigger] shorter[i]).0@ == name;
            assert(members[i].0@ == name);
        }
        if members.last().0@ == name {
            assert(members[members.len() - 1].0@ == name);
        }
    }
}

/// A member in front counts where no later one goes by its name, and else changes
/// nothing.
proof fn lemma_member_in_front(member: (String, Json), later: Seq<(String, Json)>)
    ensures
        Json::members(seq![member] + later) == (if Json::members(later).contains_key(member.0@) {
            Json::members(later)
        } else {
            Json::members(later).insert(member.0@, member.1.tree())
        }),
    decreases later.len(),
{
    let all = seq![member] + later;
    if later.len() == 0 {
        assert(all.subrange(0, all.len() - 1) =~= Seq::empty());
        assert(Json::members(all.subrange(0, all.len() - 1)) =~= Map::empty());
    } else {
        let shorter = later.subrange(0, later.len() - 1);
        lemma_member_in_front(member, shorter);
        assert(all.subrange(0, all.len() - 1) =~= seq![member] + shorter);
        assert(all[all.len() - 1] == later[later.len() - 1]);
        assert(Json::members(all) =~= (if Json::members(later).contains_key(member.0@) {
            Json::members(later)
        } else {
            Json::members(later).insert(member.0@, member.1.tree())
        }));
    }
}

/// Whether a member goes by the name.
fn has_name(members: &Vec<(String, Value)>, name: &str) -> (r: bool)
    ensures
        r == member_contents(members@).contains_key(name@),
{
    proof {
        lemma_names(members@, name@);
    }
    let mut i: usize = 0;
    while i < members.len()
        invariant
            i <= members@.len(),
            member_contents(members@).contains_key(name@) <==> exists|k: int|
                0 <= k < members@.len() && (#[trigger] members@[k]).0@ == name@,
            forall|k: int| 0 <= k < i ==> (#[trigger] members@[k]).0@ != name@,
        decreases members@.len() - i,
    {
        if same_text(members[i].0.as_str(), name) {
            assert(members@[i as int].0@ == name@);
            return true;
        }
        i += 1;
    }
    false
}

/// The `serde_json::Value` that holds what a value of the library stands for.
pub fn json_to_value(j: &Json) -> (r: Value)
    ensures
        value_content(r) == j@,
    decreases j,
{
    match j {
        Json::Null => value_of_parts(ValueParts::Null),
        Json::Bool(b) => value_of_parts(ValueParts::Bool(*b)),
        Json::Number(n) => value_of_parts(ValueParts::Number(*n)),
        Json::Text(s) => value_of_parts(ValueParts::Text(s.clone())),
        Json::Array(items) => {
            let mut out: Vec<Value> = Vec::new();
            let mut i: usize = 0;
            while i < items.len()
                invariant
                    i <= items@.len(),
                    *j == Json::Array(*items),
                    contents(out@) == Json::trees(items@.subrange(0, i as int)),
                decreases items@.len() - i,
            {
                let ghost before = out@;
                assert(decreases_to!(*j => j->Array_0));
                assert(decreases_to!(*items => items@));
                assert(decreases_to!(items@ => items@[i as int]));
                out.push(json_to_value(&items[i]));
                i += 1;
                proof {
                    let longer = items@.subrange(0, i as int);
                    assert(longer.subrange(0, longer.len() - 1) =~= items@.subrange(0, i - 1));
                    assert(contents(out@) =~= contents(before).push(value_content(out@.last())));
                }
            }
            assert(items@.subrange(0, items@.len() as int) =~= items@);
            value_of_parts(ValueParts::Array(out))
        },
        Json::Object(members) => {
            let mut out: Vec<(String, Value)> = Vec::new();
            let mut i: usize = members.len();
            let ghost n = members@.len() as int;
            assert(members@.subrange(n, n) =~= Seq::empty());
            while i > 0
                invariant
                    i <= n,
                    n == members@.len(),
                    *j == Json::Object(*members),
                    distinct_names(out@),
                    member_contents(out@) == Json::members(members@.subrange(i as int, n)),
                decreases i,
            {
                let ghost before = out@;
                let ghost later = members@.subrange(i as int, n);
                i -= 1;
                let ghost member = members@[i as int];
                proof {
                    lemma_member_in_front(member, later);
                    assert(seq![member] + later =~= members@.subrange(i as int, n));
                }
                if !has_name(&out, members[i].0.as_str()) {
                    assert(decreases_to!(*j => j->Object_0));
                    assert(decreases_to!(*members => members@));
                    assert(decreases_to!(members@ => members@[i as int]));
                    assert(decreases_to!(members@[i as int] => members@[i as int].1));
                    out.push((members[i].0.clone(), json_to_value(&members[i].1)));
                    proof {
                        lemma_names(before, member.0@);
                        assert(out@.drop_last() =~= before);
                    }
                }
            }
            assert(members@.subrange(0, n) =~= members@);
            value_of_parts(ValueParts::Object(out))
        },
    }
}

/// What a parsed text stands for.
pub open spec fn parsed(j: Option<Json>) -> Option<JsonView> {
    match j {
        Some(v) => Some(v@),
        None => None,
    }
}

/// Reads JSON text; nothing where `serde_json` refuses it.
pub fn parse_json(text: &str) -> (r: Option<Json>)
    ensures
        parsed(r) == json_parse(text@),
{
    match value_from_str(text) {
        Some(v) => Some(json_from_value(v)),
        None => None,
    }
}

/// Writes a value as compact JSON text, which is read as the same value again
/// where [`reads_back`] says so.
pub fn json_to_string(j: &Json) -> (r: String)
    ensures
        r@ == json_text(j@),
        reads_back(j@) ==> json_parse(r@) == Some(j@),
{
    value_to_string(&json_to_value(j))
}

} // verus!
