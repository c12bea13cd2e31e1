//! Plain CBOR and JSON values, as the porters and the interplanetary kinds read and write them.
use vstd::prelude::*;

verus! {

broadcast use vstd::std_specs::vec::group_vec_axioms;

/// Specific simple CBOR values.
#[derive(Clone, Copy, Debug, PartialEq, Eq, Structural)]
pub enum CborSimple {
    FalseValue,
    TrueValue,
    NullValue,
    Undefined,
}

/// A CBOR value.
#[derive(Debug)]
pub enum CborValue {
    /// Unsigned integer value (uint).
    Unsigned(u64),
    /// Negative integer value (nint), stored as the negative number itself.
    Negative(i64),
    /// Byte string (bstr).
    ByteString(Vec<u8>),
    /// Text string (tstr).
    TextString(String),
    /// Array of values.
    Array(Vec<CborValue>),
    /// Map of key-value pairs, in their order.
    Mapping(Vec<(CborValue, CborValue)>),
    /// Tagged value.
    Tag(u64, Box<CborValue>),
    /// Simple value.
    Simple(CborSimple),
}

/// Mathematical model of a [`CborValue`].
pub enum SpecCbor {
    Unsigned(u64),
    Negative(i64),
    ByteString(Seq<u8>),
    TextString(Seq<char>),
    Array(Seq<SpecCbor>),
    Mapping(Seq<(SpecCbor, SpecCbor)>),
    Tag(u64, Box<SpecCbor>),
    Simple(CborSimple),
}

pub open spec fn view_cbor_seq(s: Seq<CborValue>) -> Seq<SpecCbor>
    decreases s,
{
    if s.len() == 0 { Seq::empty() } else { view_cbor_seq(s.drop_last()).push(view_cbor(s.last())) }
}

pub open spec fn view_cbor_pairs(s: Seq<(CborValue, CborValue)>) -> Seq<(SpecCbor, SpecCbor)>
    decreases s,
{
    if s.len() == 0 {
        Seq::empty()
    } else {
        view_cbor_pairs(s.drop_last()).push((view_cbor(s.last().0), view_cbor(s.last().1)))
    }
}

pub open spec fn view_cbor(v: CborValue) -> SpecCbor
    decreases v,
{
    match v {
        CborValue::Unsigned(u) => SpecCbor::Unsigned(u),
        CborValue::Negative(n) => SpecCbor::Negative(n),
        CborValue::ByteString(b) => SpecCbor::ByteString(b@),
        CborValue::TextString(t) => SpecCbor::TextString(t@),
        CborValue::Array(a) => SpecCbor::Array(view_cbor_seq(a@)),
        CborValue::Mapping(m) => SpecCbor::Mapping(view_cbor_pairs(m@)),
        CborValue::Tag(t, b) => SpecCbor::Tag(t, Box::new(view_cbor(*b))),
        CborValue::Simple(s) => SpecCbor::Simple(s),
    }
}

impl View for CborValue {
    type V = SpecCbor;

    open spec fn view(&self) -> SpecCbor {
        view_cbor(*self)
    }
}

pub proof fn lemma_view_cbor_seq(s: Seq<CborValue>)
    ensures
        view_cbor_seq(s).len() == s.len(),
        forall|i: int| 0 <= i < s.len() ==> #[trigger] view_cbor_seq(s)[i] == view_cbor(s[i]),
    decreases s.len(),
{
    if s.len() > 0 {
        lemma_view_cbor_seq(s.drop_last());
    }
}

pub proof fn lemma_view_cbor_seq_push(s: Seq<CborValue>, x: CborValue)
    ensures view_cbor_seq(s.push(x)) == view_cbor_seq(s).push(view_cbor(x)),
{
    assert(s.push(x).drop_last() =~= s);
}

pub proof fn lemma_view_cbor_pairs(s: Seq<(CborValue, CborValue)>)
    ensures
        view_cbor_pairs(s).len() == s.len(),
        forall|i: int| 0 <= i < s.len() ==> #[trigger] view_cbor_pairs(s)[i] == (view_cbor(s[i].0), view_cbor(s[i].1)),
    decreases s.len(),
{
    if s.len() > 0 {
        lemma_view_cbor_pairs(s.drop_last());
    }
}

/// A JSON number, as far as the library reads it: an integer, or a float whose value it does
/// not read. Numbers written from integers through a float carry the integer they stand for.
#[derive(Clone, Copy, Debug, PartialEq, Eq, Structural)]
pub enum JsonNumber {
    /// A number that is a non-negative integer.
    PosInt(u64),
    /// A number that is a negative integer.
    NegInt(i64),
    /// Any other number.
    Float,
    /// The float nearest to an unsigned integer.
    FloatOfUnsigned(u64),
    /// The float nearest to a signed integer.
    FloatOfSigned(i64),
}

/// A JSON value. An object holds its members in order; as in a JSON map, the last member of a
/// repeated key is the one kept.
#[derive(Debug)]
pub enum JsonValue {
    Null,
    Bool(bool),
    Number(JsonNumber),
    String(String),
    Array(Vec<JsonValue>),
    Object(Vec<(String, JsonValue)>),
}

/// Mathematical model of a [`JsonValue`].
pub enum SpecJson {
    Null,
    Bool(bool),
    Number(JsonNumber),
    String(Seq<char>),
    Array(Seq<SpecJson>),
    Object(Seq<(Seq<char>, SpecJson)>),
}

pub open spec fn view_json_seq(s: Seq<JsonValue>) -> Seq<SpecJson>
    decreases s,
{
    if s.len() == 0 { Seq::empty() } else { view_json_seq(s.drop_last()).push(view_json(s.last())) }
}

pub open spec fn view_json_members(s: Seq<(String, JsonValue)>) -> Seq<(Seq<char>, SpecJson)>
    decreases s,
{
    if s.len() == 0 {
        Seq::empty()
    } else {
        view_json_members(s.drop_last()).push((s.last().0@, view_json(s.last().1)))
    }
}

pub open spec fn view_json(v: JsonValue) -> SpecJson
    decreases v,
{
    match v {
        JsonValue::Null => SpecJson::Null,
        JsonValue::Bool(b) => SpecJson::Bool(b),
        JsonValue::Number(n) => SpecJson::Number(n),
        JsonValue::String(s) => SpecJson::String(s@),
        JsonValue::Array(a) => SpecJson::Array(view_json_seq(a@)),
        JsonValue::Object(m) => SpecJson::Object(view_json_members(m@)),
    }
}

impl View for JsonValue {
    type V = SpecJson;

    open spec fn view(&self) -> SpecJson {
        view_json(*self)
    }
}

pub proof fn lemma_view_json_seq(s: Seq<JsonValue>)
    ensures
        view_json_seq(s).len() == s.len(),
        forall|i: int| 0 <= i < s.len() ==> #[trigger] view_json_seq(s)[i] == view_json(s[i]),
    decreases s.len(),
{
    if s.len() > 0 {
        lemma_view_json_seq(s.drop_last());
    }
}

pub proof fn lemma_view_json_seq_push(s: Seq<JsonValue>, x: JsonValue)
    ensures view_json_seq(s.push(x)) == view_json_seq(s).push(view_json(x)),
{
    assert(s.push(x).drop_last() =~= s);
}

pub proof fn lemma_view_json_members(s: Seq<(String, JsonValue)>)
    ensures
        view_json_members(s).len() == s.len(),
        forall|i: int| 0 <= i < s.len() ==> #[trigger] view_json_members(s)[i] == (s[i].0@, view_json(s[i].1)),
    decreases s.len(),
{
    if s.len() > 0 {
        lemma_view_json_members(s.drop_last());
    }
}

pub proof fn lemma_view_json_members_push(s: Seq<(String, JsonValue)>, x: (String, JsonValue))
    ensures view_json_members(s.push(x)) == view_json_members(s).push((x.0@, view_json(x.1))),
{
    assert(s.push(x).drop_last() =~= s);
}

/// Number of JSON values a value is made of, itself included.
pub open spec fn json_size(v: SpecJson) -> nat
    decreases v,
{
    match v {
        SpecJson::Array(a) => 1 + json_seq_size(a),
        SpecJson::Object(ms) => 1 + json_members_size(ms),
        _ => 1,
    }
}

/// Number of JSON values a sequence of values is made of.
pub open spec fn json_seq_size(s: Seq<SpecJson>) -> nat
    decreases s,
{
    if s.len() == 0 { 0 } else { json_seq_size(s.drop_last()) + json_size(s.last()) }
}

/// Number of JSON values the values of the members of an object are made of.
pub open spec fn json_members_size(s: Seq<(Seq<char>, SpecJson)>) -> nat
    decreases s,
{
    if s.len() == 0 { 0 } else { json_members_size(s.drop_last()) + json_size(s.last().1) }
}

pub proof fn lemma_json_seq_size(s: Seq<SpecJson>, i: int)
    requires 0 <= i < s.len(),
    ensures json_size(s[i]) <= json_seq_size(s),
    decreases s.len(),
{
    if i < s.len() - 1 {
        lemma_json_seq_size(s.drop_last(), i);
    }
}

pub proof fn lemma_json_members_size(s: Seq<(Seq<char>, SpecJson)>, i: int)
    requires 0 <= i < s.len(),
    ensures json_size(s[i].1) <= json_members_size(s),
    decreases s.len(),
{
    if i < s.len() - 1 {
        lemma_json_members_size(s.drop_last(), i);
    }
}

/// Number of CBOR values a value is made of, itself included.
pub open spec fn cbor_size(v: SpecCbor) -> nat
    decreases v,
{
    match v {
        SpecCbor::Array(a) => 1 + cbor_seq_size(a),
        SpecCbor::Mapping(m) => 1 + cbor_pairs_size(m),
        SpecCbor::Tag(_, b) => 1 + cbor_size(*b),
        _ => 1,
    }
}

/// Number of CBOR values a sequence of values is made of.
pub open spec fn cbor_seq_size(s: Seq<SpecCbor>) -> nat
    decreases s,
{
    if s.len() == 0 { 0 } else { cbor_seq_size(s.drop_last()) + cbor_size(s.last()) }
}

/// Number of CBOR values the entries of a map are made of.
pub open spec fn cbor_pairs_size(s: Seq<(SpecCbor, SpecCbor)>) -> nat
    decreases s,
{
    if s.len() == 0 { 0 } else { cbor_pairs_size(s.drop_last()) + cbor_size(s.last().0) + cbor_size(s.last().1) }
}

pub proof fn lemma_cbor_seq_size(s: Seq<SpecCbor>, i: int)
    requires 0 <= i < s.len(),
    ensures cbor_size(s[i]) <= cbor_seq_size(s),
    decreases s.len(),
{
    if i < s.len() - 1 {
        lemma_cbor_seq_size(s.drop_last(), i);
    }
}

pub proof fn lemma_cbor_pairs_size(s: Seq<(SpecCbor, SpecCbor)>, i: int)
    requires 0 <= i < s.len(),
    ensures
        cbor_size(s[i].0) <= cbor_pairs_size(s),
        cbor_size(s[i].1) <= cbor_pairs_size(s),
    decreases s.len(),
{
    if i < s.len() - 1 {
        lemma_cbor_pairs_size(s.drop_last(), i);
    }
}

/// Whether two strings hold the same characters.
pub fn str_eq(a: &str, b: &str) -> (r: bool)
    ensures r == (a@ == b@),
{
    let n = a.unicode_len();
    if n != b.unicode_len() {
        return false;
    }
    let mut i: usize = 0;
    while i < n
        invariant
            i <= n,
            n == a@.len(),
            n == b@.len(),
            forall|j: int| 0 <= j < i ==> a@[j] == b@[j],
        decreases n - i,
    {
        if a.get_char(i) != b.get_char(i) {
            return false;
        }
        i = i + 1;
    }
    proof { assert(a@ =~= b@); }
    true
}

/// Position of the last member of an object with key `key`, or `-1`.
pub open spec fn spec_member_position(members: Seq<(Seq<char>, SpecJson)>, key: Seq<char>) -> int
    decreases members.len(),
{
    if members.len() == 0 {
        -1
    } else if members.last().0 == key {
        members.len() - 1
    } else {
        spec_member_position(members.drop_last(), key)
    }
}

/// The value of the member with key `key`, the last one where the key repeats.
pub open spec fn spec_json_get(members: Seq<(Seq<char>, SpecJson)>, key: Seq<char>) -> Option<SpecJson> {
    let p = spec_member_position(members, key);
    if 0 <= p < members.len() { Some(members[p].1) } else { None }
}

pub proof fn lemma_json_get_size(members: Seq<(Seq<char>, SpecJson)>, key: Seq<char>)
    requires spec_json_get(members, key) is Some,
    ensures json_size(spec_json_get(members, key)->Some_0) <= json_members_size(members),
{
    lemma_member_position(members, key);
    lemma_json_members_size(members, spec_member_position(members, key));
}

pub proof fn lemma_member_position(members: Seq<(Seq<char>, SpecJson)>, key: Seq<char>)
    ensures
        -1 <= spec_member_position(members, key) < members.len(),
        0 <= spec_member_position(members, key) ==> members[spec_member_position(members, key)].0 == key,
        spec_member_position(members, key) == -1 ==> forall|i: int| 0 <= i < members.len() ==> #[trigger] members[i].0 != key,
    decreases members.len(),
{
    if members.len() > 0 && members.last().0 != key {
        lemma_member_position(members.drop_last(), key);
        assert forall|i: int| 0 <= i < members.len() - 1 implies #[trigger] members[i].0 == members.drop_last()[i].0 by {}
    }
}

/// The members of an object after setting the member `key` to `x`, as a JSON map does: the value
/// of the member with that key is replaced where there is one, else the member is added last.
pub open spec fn json_members_insert(members: Seq<(Seq<char>, SpecJson)>, key: Seq<char>, x: SpecJson)
    -> Seq<(Seq<char>, SpecJson)>
{
    let p = spec_member_position(members, key);
    if 0 <= p < members.len() { members.update(p, (key, x)) } else { members.push((key, x)) }
}

pub proof fn lemma_view_json_members_update(s: Seq<(String, JsonValue)>, i: int, x: (String, JsonValue))
    requires 0 <= i < s.len(),
    ensures view_json_members(s.update(i, x)) == view_json_members(s).update(i, (x.0@, view_json(x.1))),
{
    lemma_view_json_members(s);
    lemma_view_json_members(s.update(i, x));
    assert(view_json_members(s.update(i, x)) =~= view_json_members(s).update(i, (x.0@, view_json(x.1))));
}

/// The position of the last member of an object with key `key`, if there is one.
pub fn json_member_position(members: &Vec<(String, JsonValue)>, key: &str) -> (r: Option<usize>)
    ensures
        match r {
            None => spec_member_position(view_json_members(members@), key@) == -1,
            Some(p) => p < members.len() && spec_member_position(view_json_members(members@), key@) == p,
        },
{
    proof { lemma_view_json_members(members@); }
    let ghost ms = view_json_members(members@);
    let mut i: usize = members.len();
    proof { assert(ms.take(i as int) =~= ms); }
    while i > 0
        invariant
            i <= members.len(),
            ms == view_json_members(members@),
            ms.len() == members.len(),
            forall|j: int| 0 <= j < members.len() ==> #[trigger] ms[j] == (members@[j].0@, view_json(members@[j].1)),
            spec_member_position(ms, key@) == spec_member_position(ms.take(i as int), key@),
        decreases i,
    {
        proof { assert(ms.take(i as int).drop_last() =~= ms.take(i - 1)); }
        if str_eq(members[i - 1].0.as_str(), key) {
            return Some(i - 1);
        }
        i = i - 1;
    }
    proof { assert(ms.take(0) =~= Seq::<(Seq<char>, SpecJson)>::empty()); }
    None
}

/// A reference to the value of the member with key `key` of an object.
pub fn json_get<'a>(members: &'a Vec<(String, JsonValue)>, key: &str) -> (r: Option<&'a JsonValue>)
    ensures
        match spec_json_get(view_json_members(members@), key@) {
            None => r is None,
            Some(v) => r is Some && r.unwrap()@ == v,
        },
{
    proof { lemma_view_json_members(members@); }
    match json_member_position(members, key) {
        Some(p) => Some(&members[p].1),
        None => None,
    }
}

} // verus!
