//! Holium selectors: a small language to point at parts of a Holium CBOR value.
use vstd::prelude::*;
use crate::values::{spec_member_position, CborValue, SpecCbor, JsonValue, JsonNumber, SpecJson, view_json_seq, view_json_members,
    lemma_view_json_seq, view_cbor_seq, view_cbor_pairs, lemma_view_cbor_seq, lemma_view_cbor_seq_push,
    lemma_view_json_seq_push, lemma_view_cbor_pairs, lemma_view_json_members_push, spec_json_get, json_get, str_eq,
    json_size, json_seq_size, json_members_size, lemma_json_seq_size, lemma_json_get_size, cbor_size,
    cbor_seq_size, cbor_pairs_size, lemma_cbor_seq_size, lemma_cbor_pairs_size, lemma_member_position};
use crate::codecs::{json_from_str, json_text_decoding};

verus! {

/// Envelope of a [`Selector`], as stored in connections.
pub struct SelectorEnvelope(pub Selector);

/// A selector picks one or several nodes in a tree of CBOR values.
pub enum Selector {
    Matcher(Matcher),
    ExploreIndex(Box<ExploreIndex>),
    ExploreRange(Box<ExploreRange>),
    ExploreUnion(Box<ExploreUnion>),
}

/// Selects the current node.
pub struct Matcher {
    pub label: Option<String>,
}

/// Selects the child at `index`, then applies `next` to it.
pub struct ExploreIndex {
    pub index: u64,
    pub next: Box<Selector>,
}

/// Selects the children at indices `start..end`.
pub struct ExploreRange {
    pub start: u64,
    pub end: u64,
    pub next: Box<Selector>,
}

/// Applies each selector in turn to the current node.
pub struct ExploreUnion(pub Vec<Selector>);

impl Selector {
    pub open spec fn spec_is_matcher(&self) -> bool {
        self is Matcher
    }

    /// Whether the selector is a [`Matcher`].
    #[verifier::when_used_as_spec(spec_is_matcher)]
    pub fn is_matcher(&self) -> (r: bool)
        ensures r == (self is Matcher),
    {
        match self {
            Selector::Matcher(_) => true,
            _ => false,
        }
    }
}

/// Mathematical model of a [`Selector`].
pub enum SpecSelector {
    Matcher(Option<Seq<char>>),
    ExploreIndex(u64, Box<SpecSelector>),
    ExploreRange(u64, u64, Box<SpecSelector>),
    ExploreUnion(Seq<SpecSelector>),
}

pub open spec fn view_selector(s: Selector) -> SpecSelector
    decreases s,
{
    match s {
        Selector::Matcher(m) => SpecSelector::Matcher(view_label(m.label)),
        Selector::ExploreIndex(b) => SpecSelector::ExploreIndex(b.index, Box::new(view_selector(*b.next))),
        Selector::ExploreRange(b) => SpecSelector::ExploreRange(b.start, b.end, Box::new(view_selector(*b.next))),
        Selector::ExploreUnion(u) => SpecSelector::ExploreUnion(view_selectors(u.0@)),
    }
}

pub open spec fn view_selectors(ss: Seq<Selector>) -> Seq<SpecSelector>
    decreases ss,
{
    if ss.len() == 0 { Seq::empty() } else { view_selectors(ss.drop_last()).push(view_selector(ss.last())) }
}

pub open spec fn view_label(l: Option<String>) -> Option<Seq<char>> {
    match l {
        Some(s) => Some(s@),
        None => None,
    }
}

impl View for Selector {
    type V = SpecSelector;

    open spec fn view(&self) -> SpecSelector {
        view_selector(*self)
    }
}

pub proof fn lemma_view_selectors(ss: Seq<Selector>)
    ensures
        view_selectors(ss).len() == ss.len(),
        forall|i: int| 0 <= i < ss.len() ==> #[trigger] view_selectors(ss)[i] == view_selector(ss[i]),
    decreases ss.len(),
{
    if ss.len() > 0 {
        lemma_view_selectors(ss.drop_last());
    }
}

pub proof fn lemma_view_selectors_push(ss: Seq<Selector>, x: Selector)
    ensures view_selectors(ss.push(x)) == view_selectors(ss).push(view_selector(x)),
{
    assert(ss.push(x).drop_last() =~= ss);
}

/// Errors raised while converting selectors from and to JSON and CBOR values.
#[derive(Clone, Copy, Debug, PartialEq, Eq, Structural)]
pub enum KindError {
    FailedToParseJsonLiteral,
    FailedToManipulate,
}

impl KindError {
    /// Human readable description of the error.
    pub fn message(&self) -> (r: String)
        ensures
            *self == KindError::FailedToParseJsonLiteral ==> r@ == "failed to parse json selector literal"@,
            *self == KindError::FailedToManipulate ==> r@ == "failed to manipulate selector kind"@,
    {
        match self {
            KindError::FailedToParseJsonLiteral => String::from_str("failed to parse json selector literal"),
            KindError::FailedToManipulate => String::from_str("failed to manipulate selector kind"),
        }
    }
}

/*********************************************
 * Selectors from JSON values
 *********************************************/

/// The unsigned integer a JSON number holds, if any.
pub open spec fn spec_json_as_u64(n: JsonNumber) -> Option<u64> {
    match n {
        JsonNumber::PosInt(u) => Some(u),
        _ => None,
    }
}

/// The selector a JSON value describes: an object with one of the keys `.`, `i`, `r` and `|`,
/// tried in this order.
pub open spec fn spec_selector_from_json(v: SpecJson) -> Result<SpecSelector, KindError>
    decreases json_size(v), 1nat,
{
    match v {
        SpecJson::Object(ms) => {
            if spec_json_get(ms, "."@) is Some {
                proof { lemma_json_get_size(ms, "."@); }
                match spec_matcher_from_json(spec_json_get(ms, "."@)->Some_0) {
                    Ok(l) => Ok(SpecSelector::Matcher(l)),
                    Err(e) => Err(e),
                }
            } else if spec_json_get(ms, "i"@) is Some {
                proof { lemma_json_get_size(ms, "i"@); }
                spec_index_from_json(spec_json_get(ms, "i"@)->Some_0)
            } else if spec_json_get(ms, "r"@) is Some {
                proof { lemma_json_get_size(ms, "r"@); }
                spec_range_from_json(spec_json_get(ms, "r"@)->Some_0)
            } else if spec_json_get(ms, "|"@) is Some {
                proof { lemma_json_get_size(ms, "|"@); }
                spec_union_from_json(spec_json_get(ms, "|"@)->Some_0)
            } else {
                Err(KindError::FailedToParseJsonLiteral)
            }
        },
        _ => Err(KindError::FailedToParseJsonLiteral),
    }
}

/// The label of a matcher a JSON object describes.
pub open spec fn spec_matcher_from_json(v: SpecJson) -> Result<Option<Seq<char>>, KindError> {
    match v {
        SpecJson::Object(ms) => match spec_json_get(ms, "label"@) {
            Some(SpecJson::String(l)) => Ok(Some(l)),
            _ => Ok(None),
        },
        _ => Err(KindError::FailedToParseJsonLiteral),
    }
}

/// The index selector a JSON object describes, with keys `i` and `>`.
pub open spec fn spec_index_from_json(v: SpecJson) -> Result<SpecSelector, KindError>
    decreases json_size(v), 0nat,
{
    match v {
        SpecJson::Object(ms) => match spec_json_get(ms, "i"@) {
            Some(SpecJson::Number(index)) => match spec_json_get(ms, ">"@) {
                Some(next) => match spec_json_as_u64(index) {
                    None => Err(KindError::FailedToParseJsonLiteral),
                    Some(i) => {
                        proof { lemma_json_get_size(ms, ">"@); }
                        match spec_selector_from_json(next) {
                            Ok(n) => Ok(SpecSelector::ExploreIndex(i, Box::new(n))),
                            Err(e) => Err(e),
                        }
                    },
                },
                None => Err(KindError::FailedToParseJsonLiteral),
            },
            _ => Err(KindError::FailedToParseJsonLiteral),
        },
        _ => Err(KindError::FailedToParseJsonLiteral),
    }
}

/// The range selector a JSON object describes, with keys `^`, `$` and `>`.
pub open spec fn spec_range_from_json(v: SpecJson) -> Result<SpecSelector, KindError>
    decreases json_size(v), 0nat,
{
    match v {
        SpecJson::Object(ms) => match spec_json_get(ms, "^"@) {
            Some(SpecJson::Number(start)) => match spec_json_get(ms, "$"@) {
                Some(SpecJson::Number(end)) => match spec_json_get(ms, ">"@) {
                    Some(next) => match spec_json_as_u64(start) {
                        None => Err(KindError::FailedToParseJsonLiteral),
                        Some(s) => match spec_json_as_u64(end) {
                            None => Err(KindError::FailedToParseJsonLiteral),
                            Some(e) => {
                                proof { lemma_json_get_size(ms, ">"@); }
                                match spec_selector_from_json(next) {
                                    Ok(n) => Ok(SpecSelector::ExploreRange(s, e, Box::new(n))),
                                    Err(err) => Err(err),
                                }
                            },
                        },
                    },
                    None => Err(KindError::FailedToParseJsonLiteral),
                },
                _ => Err(KindError::FailedToParseJsonLiteral),
            },
            _ => Err(KindError::FailedToParseJsonLiteral),
        },
        _ => Err(KindError::FailedToParseJsonLiteral),
    }
}

/// The union selector a JSON array describes.
pub open spec fn spec_union_from_json(v: SpecJson) -> Result<SpecSelector, KindError>
    decreases json_size(v), 0nat,
{
    match v {
        SpecJson::Array(vs) => match spec_selectors_from_json(vs, vs.len()) {
            Ok(ss) => Ok(SpecSelector::ExploreUnion(ss)),
            Err(e) => Err(e),
        },
        _ => Err(KindError::FailedToParseJsonLiteral),
    }
}

/// The selectors the first `n` elements of a JSON array describe.
pub open spec fn spec_selectors_from_json(vs: Seq<SpecJson>, n: nat) -> Result<Seq<SpecSelector>, KindError>
    decreases json_seq_size(vs), n + 1,
{
    if n == 0 || n > vs.len() {
        Ok(Seq::empty())
    } else {
        match spec_selectors_from_json(vs, (n - 1) as nat) {
            Err(e) => Err(e),
            Ok(prefix) => {
                proof { lemma_json_seq_size(vs, n - 1); }
                match spec_selector_from_json(vs[n - 1]) {
                    Err(e) => Err(e),
                    Ok(x) => Ok(prefix.push(x)),
                }
            },
        }
    }
}

proof fn lemma_selectors_from_json_err(vs: Seq<SpecJson>, k: nat, n: nat, e: KindError)
    requires
        k <= n <= vs.len(),
        spec_selectors_from_json(vs, k) == Err::<Seq<SpecSelector>, KindError>(e),
    ensures spec_selectors_from_json(vs, n) == Err::<Seq<SpecSelector>, KindError>(e),
    decreases n,
{
    if k < n {
        lemma_selectors_from_json_err(vs, k, (n - 1) as nat, e);
    }
}

fn json_as_u64(n: &JsonNumber) -> (r: Option<u64>)
    ensures r == spec_json_as_u64(*n),
{
    match n {
        JsonNumber::PosInt(u) => Some(*u),
        _ => None,
    }
}

impl Matcher {
    /// Read a matcher from a JSON object, with an optional `label` text.
    pub fn try_from_json(v: &JsonValue) -> (r: Result<Matcher, KindError>)
        ensures
            match spec_matcher_from_json(v@) {
                Ok(l) => r is Ok && view_label(r->Ok_0.label) == l,
                Err(e) => r == Err::<Matcher, KindError>(e),
            },
    {
        match v {
            JsonValue::Object(members) => {
                match json_get(members, "label") {
                    Some(JsonValue::String(label)) => Ok(Matcher { label: Some(label.clone()) }),
                    _ => Ok(Matcher { label: None }),
                }
            },
            _ => Err(KindError::FailedToParseJsonLiteral),
        }
    }
}

impl ExploreIndex {
    /// Read an index selector from a JSON object, with keys `i` and `>`.
    pub fn try_from_json(v: &JsonValue) -> (r: Result<ExploreIndex, KindError>)
        ensures
            match spec_index_from_json(v@) {
                Ok(s) => r is Ok && s == SpecSelector::ExploreIndex(r->Ok_0.index, Box::new(view_selector(*r->Ok_0.next))),
                Err(e) => r == Err::<ExploreIndex, KindError>(e),
            },
        decreases json_size(v@), 0nat,
    {
        if let JsonValue::Object(members) = v {
            if let Some(JsonValue::Number(index)) = json_get(members, "i") {
                if let Some(next_value) = json_get(members, ">") {
                    let index = match json_as_u64(index) {
                        Some(i) => i,
                        None => return Err(KindError::FailedToParseJsonLiteral),
                    };
                    proof { lemma_json_get_size(view_json_members(members@), ">"@); }
                    let next = Selector::try_from_json(next_value)?;
                    return Ok(ExploreIndex { index, next: Box::new(next) });
                }
            }
        }
        Err(KindError::FailedToParseJsonLiteral)
    }
}

impl ExploreRange {
    /// Read a range selector from a JSON object, with keys `^`, `$` and `>`.
    pub fn try_from_json(v: &JsonValue) -> (r: Result<ExploreRange, KindError>)
        ensures
            match spec_range_from_json(v@) {
                Ok(s) => r is Ok && s == SpecSelector::ExploreRange(r->Ok_0.start, r->Ok_0.end, Box::new(view_selector(*r->Ok_0.next))),
                Err(e) => r == Err::<ExploreRange, KindError>(e),
            },
        decreases json_size(v@), 0nat,
    {
        if let JsonValue::Object(members) = v {
            if let Some(JsonValue::Number(start)) = json_get(members, "^") {
                if let Some(JsonValue::Number(end)) = json_get(members, "$") {
                    if let Some(next_value) = json_get(members, ">") {
                        let start = match json_as_u64(start) {
                            Some(s) => s,
                            None => return Err(KindError::FailedToParseJsonLiteral),
                        };
                        let end = match json_as_u64(end) {
                            Some(e) => e,
                            None => return Err(KindError::FailedToParseJsonLiteral),
                        };
                        proof { lemma_json_get_size(view_json_members(members@), ">"@); }
                        let next = Selector::try_from_json(next_value)?;
                        return Ok(ExploreRange { start, end, next: Box::new(next) });
                    }
                }
            }
        }
        Err(KindError::FailedToParseJsonLiteral)
    }
}

impl ExploreUnion {
    /// Read a union of selectors from a JSON array.
    pub fn try_from_json(v: &JsonValue) -> (r: Result<ExploreUnion, KindError>)
        ensures
            match spec_union_from_json(v@) {
                Ok(s) => r is Ok && s == SpecSelector::ExploreUnion(view_selectors(r->Ok_0.0@)),
                Err(e) => r == Err::<ExploreUnion, KindError>(e),
            },
        decreases json_size(v@), 0nat,
    {
        match v {
            JsonValue::Array(values) => {
                let ghost vs = view_json_seq(values@);
                proof { lemma_view_json_seq(values@); }
                let mut selectors: Vec<Selector> = Vec::new();
                let mut i: usize = 0;
                while i < values.len()
                    invariant
                        i <= values.len(),
                        v@ == SpecJson::Array(vs),
                        vs == view_json_seq(values@),
                        vs.len() == values.len(),
                        forall|j: int| 0 <= j < values.len() ==> #[trigger] vs[j] == values@[j]@,
                        spec_selectors_from_json(vs, i as nat) == Ok::<Seq<SpecSelector>, KindError>(view_selectors(selectors@)),
                    decreases values.len() - i,
                {
                    proof { lemma_json_seq_size(vs, i as int); }
                    let x = match Selector::try_from_json(&values[i]) {
                        Ok(x) => x,
                        Err(e) => {
                            proof { lemma_selectors_from_json_err(vs, (i + 1) as nat, vs.len(), e); }
                            return Err(e);
                        },
                    };
                    proof { lemma_view_selectors_push(selectors@, x); }
                    selectors.push(x);
                    i = i + 1;
                }
                Ok(ExploreUnion(selectors))
            },
            _ => Err(KindError::FailedToParseJsonLiteral),
        }
    }
}

impl Selector {
    /// Read a selector from a JSON object with one of the keys `.`, `i`, `r` and `|`, tried in
    /// this order.
    pub fn try_from_json(v: &JsonValue) -> (r: Result<Selector, KindError>)
        ensures
            match spec_selector_from_json(v@) {
                Ok(s) => r is Ok && r->Ok_0@ == s,
                Err(e) => r == Err::<Selector, KindError>(e),
            },
        decreases json_size(v@), 1nat,
    {
        if let JsonValue::Object(members) = v {
            let ghost ms = view_json_members(members@);
            if let Some(child) = json_get(members, ".") {
                return Ok(Selector::Matcher(Matcher::try_from_json(child)?));
            } else if let Some(child) = json_get(members, "i") {
                proof { lemma_json_get_size(ms, "i"@); }
                return Ok(Selector::ExploreIndex(Box::new(ExploreIndex::try_from_json(child)?)));
            } else if let Some(child) = json_get(members, "r") {
                proof { lemma_json_get_size(ms, "r"@); }
                return Ok(Selector::ExploreRange(Box::new(ExploreRange::try_from_json(child)?)));
            } else if let Some(child) = json_get(members, "|") {
                proof { lemma_json_get_size(ms, "|"@); }
                return Ok(Selector::ExploreUnion(Box::new(ExploreUnion::try_from_json(child)?)));
            }
        }
        Err(KindError::FailedToParseJsonLiteral)
    }
}

/*********************************************
 * Selectors to JSON values
 *********************************************/

/// The JSON object of a matcher: its label under `label`, if it has one.
pub open spec fn spec_matcher_to_json(l: Option<Seq<char>>) -> SpecJson {
    match l {
        Some(label) => SpecJson::Object(seq![("label"@, SpecJson::String(label))]),
        None => SpecJson::Object(Seq::empty()),
    }
}

/// The JSON value of a selector. Indices are written as floats.
pub open spec fn spec_selector_to_json(s: SpecSelector) -> SpecJson
    decreases s,
{
    match s {
        SpecSelector::Matcher(l) => SpecJson::Object(seq![("."@, spec_matcher_to_json(l))]),
        SpecSelector::ExploreIndex(i, next) => SpecJson::Object(seq![("i"@, SpecJson::Object(seq![
            ("i"@, SpecJson::Number(JsonNumber::FloatOfUnsigned(i))),
            (">"@, spec_selector_to_json(*next)),
        ]))]),
        SpecSelector::ExploreRange(start, end, next) => SpecJson::Object(seq![("r"@, SpecJson::Object(seq![
            ("^"@, SpecJson::Number(JsonNumber::FloatOfUnsigned(start))),
            ("$"@, SpecJson::Number(JsonNumber::FloatOfUnsigned(end))),
            (">"@, spec_selector_to_json(*next)),
        ]))]),
        SpecSelector::ExploreUnion(ss) => SpecJson::Object(seq![("|"@, SpecJson::Array(spec_selectors_to_json(ss)))]),
    }
}

/// The JSON values of a sequence of selectors.
pub open spec fn spec_selectors_to_json(ss: Seq<SpecSelector>) -> Seq<SpecJson>
    decreases ss,
{
    if ss.len() == 0 { Seq::empty() } else { spec_selectors_to_json(ss.drop_last()).push(spec_selector_to_json(ss.last())) }
}

proof fn lemma_selectors_to_json_push(ss: Seq<SpecSelector>, x: SpecSelector)
    ensures spec_selectors_to_json(ss.push(x)) == spec_selectors_to_json(ss).push(spec_selector_to_json(x)),
{
    assert(ss.push(x).drop_last() =~= ss);
}

fn one_member(key: &str, v: JsonValue) -> (r: JsonValue)
    ensures r@ == SpecJson::Object(seq![(key@, v@)]),
{
    let mut members: Vec<(String, JsonValue)> = Vec::new();
    let m = (String::from_str(key), v);
    proof { lemma_view_json_members_push(members@, m); }
    members.push(m);
    JsonValue::Object(members)
}

impl Matcher {
    /// The JSON object of the matcher: its label under `label`, if it has one.
    pub fn to_json(&self) -> (r: JsonValue)
        ensures r@ == spec_matcher_to_json(view_label(self.label)),
    {
        match &self.label {
            Some(label) => one_member("label", JsonValue::String(label.clone())),
            None => {
                let members: Vec<(String, JsonValue)> = Vec::new();
                proof { assert(view_json_members(members@) =~= Seq::<(Seq<char>, SpecJson)>::empty()); }
                JsonValue::Object(members)
            },
        }
    }
}

impl Selector {
    /// The JSON value of the selector, as its JSON literal reads. Indices are written as floats.
    pub fn to_json(&self) -> (r: JsonValue)
        ensures r@ == spec_selector_to_json(self@),
        decreases self,
    {
        match self {
            Selector::Matcher(m) => {
                one_member(".", m.to_json())
            },
            Selector::ExploreIndex(b) => {
                let next = b.next.to_json();
                let mut members: Vec<(String, JsonValue)> = Vec::new();
                let m0 = (String::from_str("i"), JsonValue::Number(JsonNumber::FloatOfUnsigned(b.index)));
                proof { lemma_view_json_members_push(members@, m0); }
                members.push(m0);
                let m1 = (String::from_str(">"), next);
                proof { lemma_view_json_members_push(members@, m1); }
                members.push(m1);
                proof {
                    assert(view_json_members(members@) =~= seq![
                        ("i"@, SpecJson::Number(JsonNumber::FloatOfUnsigned(b.index))),
                        (">"@, spec_selector_to_json(view_selector(*b.next))),
                    ]);
                }
                one_member("i", JsonValue::Object(members))
            },
            Selector::ExploreRange(b) => {
                let next = b.next.to_json();
                let mut members: Vec<(String, JsonValue)> = Vec::new();
                let m0 = (String::from_str("^"), JsonValue::Number(JsonNumber::FloatOfUnsigned(b.start)));
                proof { lemma_view_json_members_push(members@, m0); }
                members.push(m0);
                let m1 = (String::from_str("$"), JsonValue::Number(JsonNumber::FloatOfUnsigned(b.end)));
                proof { lemma_view_json_members_push(members@, m1); }
                members.push(m1);
                let m2 = (String::from_str(">"), next);
                proof { lemma_view_json_members_push(members@, m2); }
                members.push(m2);
                proof {
                    assert(view_json_members(members@) =~= seq![
                        ("^"@, SpecJson::Number(JsonNumber::FloatOfUnsigned(b.start))),
                        ("$"@, SpecJson::Number(JsonNumber::FloatOfUnsigned(b.end))),
                        (">"@, spec_selector_to_json(view_selector(*b.next))),
                    ]);
                }
                one_member("r", JsonValue::Object(members))
            },
            Selector::ExploreUnion(u) => {
                let selectors = &u.0;
                proof { lemma_view_selectors(selectors@); }
                let mut out: Vec<JsonValue> = Vec::new();
                let mut i: usize = 0;
                while i < selectors.len()
                    invariant
                        i <= selectors.len(),
                        *self is ExploreUnion,
                        selectors == self->ExploreUnion_0.0,
                        view_selectors(selectors@).len() == selectors.len(),
                        forall|j: int| 0 <= j < selectors.len() ==> #[trigger] view_selectors(selectors@)[j] == view_selector(selectors@[j]),
                        view_json_seq(out@) == spec_selectors_to_json(view_selectors(selectors@).take(i as int)),
                    decreases selectors.len() - i,
                {
                    proof {
                        assert(decreases_to!(self->ExploreUnion_0.0 => selectors[i as int]));
                        assert(view_selectors(selectors@).take(i + 1) =~= view_selectors(selectors@).take(i as int).push(view_selector(selectors@[i as int])));
                        lemma_selectors_to_json_push(view_selectors(selectors@).take(i as int), view_selector(selectors@[i as int]));
                    }
                    let x = selectors[i].to_json();
                    proof { lemma_view_json_seq_push(out@, x); }
                    out.push(x);
                    i = i + 1;
                }
                proof { assert(view_selectors(selectors@).take(i as int) =~= view_selectors(selectors@)); }
                one_member("|", JsonValue::Array(out))
            },
        }
    }
}

/*********************************************
 * Selectors from and to CBOR values
 *********************************************/

/// The selector a CBOR map describes, read from its first entry, whose key is one of the texts
/// `.`, `i`, `r` and `|`.
pub open spec fn spec_selector_from_cbor(v: SpecCbor) -> Result<SpecSelector, KindError>
    decreases cbor_size(v), 1nat,
{
    match v {
        SpecCbor::Mapping(ps) => if ps.len() > 0 {
            proof { lemma_cbor_pairs_size(ps, 0); }
            match ps[0].0 {
                SpecCbor::TextString(k) => if k == "."@ {
                    match spec_matcher_from_cbor(ps[0].1) {
                        Ok(l) => Ok(SpecSelector::Matcher(l)),
                        Err(e) => Err(e),
                    }
                } else if k == "i"@ {
                    spec_index_from_cbor(ps[0].1)
                } else if k == "r"@ {
                    spec_range_from_cbor(ps[0].1)
                } else if k == "|"@ {
                    spec_union_from_cbor(ps[0].1)
                } else {
                    Err(KindError::FailedToManipulate)
                },
                _ => Err(KindError::FailedToManipulate),
            }
        } else {
            Err(KindError::FailedToManipulate)
        },
        _ => Err(KindError::FailedToManipulate),
    }
}

/// The label of a matcher a CBOR map describes: the text of its first entry, if it is one.
pub open spec fn spec_matcher_from_cbor(v: SpecCbor) -> Result<Option<Seq<char>>, KindError> {
    match v {
        SpecCbor::Mapping(ps) => if ps.len() > 0 {
            match ps[0].1 {
                SpecCbor::TextString(l) => Ok(Some(l)),
                _ => Ok(None),
            }
        } else {
            Ok(None)
        },
        _ => Err(KindError::FailedToManipulate),
    }
}

/// The index selector a CBOR map describes, as the sk-cbor reader gives it back with its keys
/// sorted: the next selector in the first entry, the index in the second.
pub open spec fn spec_index_from_cbor(v: SpecCbor) -> Result<SpecSelector, KindError>
    decreases cbor_size(v), 0nat,
{
    match v {
        SpecCbor::Mapping(ps) => if ps.len() > 1 {
            match ps[1].1 {
                SpecCbor::Unsigned(index) => {
                    proof { lemma_cbor_pairs_size(ps, 0); }
                    match spec_selector_from_cbor(ps[0].1) {
                        Ok(n) => Ok(SpecSelector::ExploreIndex(index, Box::new(n))),
                        Err(e) => Err(e),
                    }
                },
                _ => Err(KindError::FailedToManipulate),
            }
        } else {
            Err(KindError::FailedToManipulate)
        },
        _ => Err(KindError::FailedToManipulate),
    }
}

/// The range selector a CBOR map describes, as the sk-cbor reader gives it back with its keys
/// sorted: the end in the first entry, the next selector in the second, the start in the third.
pub open spec fn spec_range_from_cbor(v: SpecCbor) -> Result<SpecSelector, KindError>
    decreases cbor_size(v), 0nat,
{
    match v {
        SpecCbor::Mapping(ps) => if ps.len() > 2 {
            match (ps[2].1, ps[0].1) {
                (SpecCbor::Unsigned(start), SpecCbor::Unsigned(end)) => {
                    proof { lemma_cbor_pairs_size(ps, 1); }
                    match spec_selector_from_cbor(ps[1].1) {
                        Ok(n) => Ok(SpecSelector::ExploreRange(start, end, Box::new(n))),
                        Err(e) => Err(e),
                    }
                },
                _ => Err(KindError::FailedToManipulate),
            }
        } else {
            Err(KindError::FailedToManipulate)
        },
        _ => Err(KindError::FailedToManipulate),
    }
}

/// The union selector a CBOR array describes.
pub open spec fn spec_union_from_cbor(v: SpecCbor) -> Result<SpecSelector, KindError>
    decreases cbor_size(v), 0nat,
{
    match v {
        SpecCbor::Array(vs) => match spec_selectors_from_cbor(vs, vs.len()) {
            Ok(ss) => Ok(SpecSelector::ExploreUnion(ss)),
            Err(e) => Err(e),
        },
        _ => Err(KindError::FailedToManipulate),
    }
}

/// The selectors the first `n` elements of a CBOR array describe.
pub open spec fn spec_selectors_from_cbor(vs: Seq<SpecCbor>, n: nat) -> Result<Seq<SpecSelector>, KindError>
    decreases cbor_seq_size(vs), n + 1,
{
    if n == 0 || n > vs.len() {
        Ok(Seq::empty())
    } else {
        match spec_selectors_from_cbor(vs, (n - 1) as nat) {
            Err(e) => Err(e),
            Ok(prefix) => {
                proof { lemma_cbor_seq_size(vs, n - 1); }
                match spec_selector_from_cbor(vs[n - 1]) {
                    Err(e) => Err(e),
                    Ok(x) => Ok(prefix.push(x)),
                }
            },
        }
    }
}

proof fn lemma_selectors_from_cbor_err(vs: Seq<SpecCbor>, k: nat, n: nat, e: KindError)
    requires
        k <= n <= vs.len(),
        spec_selectors_from_cbor(vs, k) == Err::<Seq<SpecSelector>, KindError>(e),
    ensures spec_selectors_from_cbor(vs, n) == Err::<Seq<SpecSelector>, KindError>(e),
    decreases n,
{
    if k < n {
        lemma_selectors_from_cbor_err(vs, k, (n - 1) as nat, e);
    }
}

/// The CBOR map of a matcher: its label under `label`, if it has one.
pub open spec fn spec_matcher_to_cbor(l: Option<Seq<char>>) -> SpecCbor {
    match l {
        Some(label) => SpecCbor::Mapping(seq![(SpecCbor::TextString("label"@), SpecCbor::TextString(label))]),
        None => SpecCbor::Mapping(Seq::empty()),
    }
}

/// The CBOR value of a selector, with the entries of each map in the order they are built in.
pub open spec fn spec_selector_to_cbor(s: SpecSelector) -> SpecCbor
    decreases s,
{
    match s {
        SpecSelector::Matcher(l) => SpecCbor::Mapping(seq![(SpecCbor::TextString("."@), spec_matcher_to_cbor(l))]),
        SpecSelector::ExploreIndex(i, next) => SpecCbor::Mapping(seq![(SpecCbor::TextString("i"@), SpecCbor::Mapping(seq![
            (SpecCbor::TextString("i"@), SpecCbor::Unsigned(i)),
            (SpecCbor::TextString(">"@), spec_selector_to_cbor(*next)),
        ]))]),
        SpecSelector::ExploreRange(start, end, next) => SpecCbor::Mapping(seq![(SpecCbor::TextString("r"@), SpecCbor::Mapping(seq![
            (SpecCbor::TextString("^"@), SpecCbor::Unsigned(start)),
            (SpecCbor::TextString("$"@), SpecCbor::Unsigned(end)),
            (SpecCbor::TextString(">"@), spec_selector_to_cbor(*next)),
        ]))]),
        SpecSelector::ExploreUnion(ss) => SpecCbor::Mapping(seq![(SpecCbor::TextString("|"@), SpecCbor::Array(spec_selectors_to_cbor(ss)))]),
    }
}

/// The CBOR values of a sequence of selectors.
pub open spec fn spec_selectors_to_cbor(ss: Seq<SpecSelector>) -> Seq<SpecCbor>
    decreases ss,
{
    if ss.len() == 0 { Seq::empty() } else { spec_selectors_to_cbor(ss.drop_last()).push(spec_selector_to_cbor(ss.last())) }
}

proof fn lemma_selectors_to_cbor_push(ss: Seq<SpecSelector>, x: SpecSelector)
    ensures spec_selectors_to_cbor(ss.push(x)) == spec_selectors_to_cbor(ss).push(spec_selector_to_cbor(x)),
{
    assert(ss.push(x).drop_last() =~= ss);
}

fn one_entry(key: &str, v: CborValue) -> (r: CborValue)
    ensures r@ == SpecCbor::Mapping(seq![(SpecCbor::TextString(key@), v@)]),
{
    let mut pairs: Vec<(CborValue, CborValue)> = Vec::new();
    pairs.push((CborValue::TextString(String::from_str(key)), v));
    proof {
        lemma_view_cbor_pairs(pairs@);
        assert(view_cbor_pairs(pairs@) =~= seq![(SpecCbor::TextString(key@), v@)]);
    }
    CborValue::Mapping(pairs)
}

impl Matcher {
    /// Read a matcher from a CBOR map: the text of its first entry is its label, if it is one.
    pub fn try_from_cbor(v: &CborValue) -> (r: Result<Matcher, KindError>)
        ensures
            match spec_matcher_from_cbor(v@) {
                Ok(l) => r is Ok && view_label(r->Ok_0.label) == l,
                Err(e) => r == Err::<Matcher, KindError>(e),
            },
    {
        match v {
            CborValue::Mapping(pairs) => {
                proof { lemma_view_cbor_pairs(pairs@); }
                if pairs.len() > 0 {
                    if let CborValue::TextString(label) = &pairs[0].1 {
                        return Ok(Matcher { label: Some(label.clone()) });
                    }
                }
                Ok(Matcher { label: None })
            },
            _ => Err(KindError::FailedToManipulate),
        }
    }

    /// The CBOR map of the matcher: its label under `label`, if it has one.
    pub fn to_cbor(&self) -> (r: CborValue)
        ensures r@ == spec_matcher_to_cbor(view_label(self.label)),
    {
        match &self.label {
            Some(label) => one_entry("label", CborValue::TextString(label.clone())),
            None => {
                let pairs: Vec<(CborValue, CborValue)> = Vec::new();
                proof { assert(view_cbor_pairs(pairs@) =~= Seq::<(SpecCbor, SpecCbor)>::empty()); }
                CborValue::Mapping(pairs)
            },
        }
    }
}

impl ExploreIndex {
    /// Read an index selector from a CBOR map whose keys are sorted: the next selector in the first
    /// entry, the index in the second.
    pub fn try_from_cbor(v: &CborValue) -> (r: Result<ExploreIndex, KindError>)
        ensures
            match spec_index_from_cbor(v@) {
                Ok(s) => r is Ok && s == SpecSelector::ExploreIndex(r->Ok_0.index, Box::new(view_selector(*r->Ok_0.next))),
                Err(e) => r == Err::<ExploreIndex, KindError>(e),
            },
        decreases cbor_size(v@), 0nat,
    {
        if let CborValue::Mapping(pairs) = v {
            proof { lemma_view_cbor_pairs(pairs@); }
            if pairs.len() > 1 {
                if let CborValue::Unsigned(index) = &pairs[1].1 {
                    proof { lemma_cbor_pairs_size(view_cbor_pairs(pairs@), 0); }
                    let next = Selector::try_from_cbor(&pairs[0].1)?;
                    return Ok(ExploreIndex { index: *index, next: Box::new(next) });
                }
            }
        }
        Err(KindError::FailedToManipulate)
    }
}

impl ExploreRange {
    /// Read a range selector from a CBOR map whose keys are sorted: the end in the first entry,
    /// the next selector in the second, the start in the third.
    pub fn try_from_cbor(v: &CborValue) -> (r: Result<ExploreRange, KindError>)
        ensures
            match spec_range_from_cbor(v@) {
                Ok(s) => r is Ok && s == SpecSelector::ExploreRange(r->Ok_0.start, r->Ok_0.end, Box::new(view_selector(*r->Ok_0.next))),
                Err(e) => r == Err::<ExploreRange, KindError>(e),
            },
        decreases cbor_size(v@), 0nat,
    {
        if let CborValue::Mapping(pairs) = v {
            proof { lemma_view_cbor_pairs(pairs@); }
            if pairs.len() > 2 {
                if let CborValue::Unsigned(start) = &pairs[2].1 {
                    if let CborValue::Unsigned(end) = &pairs[0].1 {
                        proof { lemma_cbor_pairs_size(view_cbor_pairs(pairs@), 1); }
                        let next = Selector::try_from_cbor(&pairs[1].1)?;
                        return Ok(ExploreRange { start: *start, end: *end, next: Box::new(next) });
                    }
                }
            }
        }
        Err(KindError::FailedToManipulate)
    }
}

impl ExploreUnion {
    /// Read a union of selectors from a CBOR array.
    pub fn try_from_cbor(v: &CborValue) -> (r: Result<ExploreUnion, KindError>)
        ensures
            match spec_union_from_cbor(v@) {
                Ok(s) => r is Ok && s == SpecSelector::ExploreUnion(view_selectors(r->Ok_0.0@)),
                Err(e) => r == Err::<ExploreUnion, KindError>(e),
            },
        decreases cbor_size(v@), 0nat,
    {
        match v {
            CborValue::Array(values) => {
                let ghost vs = view_cbor_seq(values@);
                proof { lemma_view_cbor_seq(values@); }
                let mut selectors: Vec<Selector> = Vec::new();
                let mut i: usize = 0;
                while i < values.len()
                    invariant
                        i <= values.len(),
                        v@ == SpecCbor::Array(vs),
                        vs == view_cbor_seq(values@),
                        vs.len() == values.len(),
                        forall|j: int| 0 <= j < values.len() ==> #[trigger] vs[j] == values@[j]@,
                        spec_selectors_from_cbor(vs, i as nat) == Ok::<Seq<SpecSelector>, KindError>(view_selectors(selectors@)),
                    decreases values.len() - i,
                {
                    proof { lemma_cbor_seq_size(vs, i as int); }
                    let x = match Selector::try_from_cbor(&values[i]) {
                        Ok(x) => x,
                        Err(e) => {
                            proof { lemma_selectors_from_cbor_err(vs, (i + 1) as nat, vs.len(), e); }
                            return Err(e);
                        },
                    };
                    proof { lemma_view_selectors_push(selectors@, x); }
                    selectors.push(x);
                    i = i + 1;
                }
                Ok(ExploreUnion(selectors))
            },
            _ => Err(KindError::FailedToManipulate),
        }
    }
}

impl Selector {
    /// Read a selector from a CBOR map, from its first entry, whose key is one of the texts `.`,
    /// `i`, `r` and `|`.
    pub fn try_from_cbor(v: &CborValue) -> (r: Result<Selector, KindError>)
        ensures
            match spec_selector_from_cbor(v@) {
                Ok(s) => r is Ok && r->Ok_0@ == s,
                Err(e) => r == Err::<Selector, KindError>(e),
            },
        decreases cbor_size(v@), 1nat,
    {
        if let CborValue::Mapping(pairs) = v {
            proof { lemma_view_cbor_pairs(pairs@); }
            if pairs.len() > 0 {
                proof { lemma_cbor_pairs_size(view_cbor_pairs(pairs@), 0); }
                let (k, child) = &pairs[0];
                if let CborValue::TextString(k) = k {
                    if str_eq(k.as_str(), ".") {
                        return Ok(Selector::Matcher(Matcher::try_from_cbor(child)?));
                    } else if str_eq(k.as_str(), "i") {
                        return Ok(Selector::ExploreIndex(Box::new(ExploreIndex::try_from_cbor(child)?)));
                    } else if str_eq(k.as_str(), "r") {
                        return Ok(Selector::ExploreRange(Box::new(ExploreRange::try_from_cbor(child)?)));
                    } else if str_eq(k.as_str(), "|") {
                        return Ok(Selector::ExploreUnion(Box::new(ExploreUnion::try_from_cbor(child)?)));
                    }
                }
            }
        }
        Err(KindError::FailedToManipulate)
    }

    /// The CBOR value of the selector: a map of one entry, whose key tells the kind of selector.
    pub fn to_cbor(&self) -> (r: CborValue)
        ensures r@ == spec_selector_to_cbor(self@),
        decreases self,
    {
        match self {
            Selector::Matcher(m) => one_entry(".", m.to_cbor()),
            Selector::ExploreIndex(b) => {
                let next = b.next.to_cbor();
                let mut pairs: Vec<(CborValue, CborValue)> = Vec::new();
                pairs.push((CborValue::TextString(String::from_str("i")), CborValue::Unsigned(b.index)));
                pairs.push((CborValue::TextString(String::from_str(">")), next));
                proof {
                    lemma_view_cbor_pairs(pairs@);
                    assert(view_cbor_pairs(pairs@) =~= seq![
                        (SpecCbor::TextString("i"@), SpecCbor::Unsigned(b.index)),
                        (SpecCbor::TextString(">"@), spec_selector_to_cbor(view_selector(*b.next))),
                    ]);
                }
                one_entry("i", CborValue::Mapping(pairs))
            },
            Selector::ExploreRange(b) => {
                let next = b.next.to_cbor();
                let mut pairs: Vec<(CborValue, CborValue)> = Vec::new();
                pairs.push((CborValue::TextString(String::from_str("^")), CborValue::Unsigned(b.start)));
                pairs.push((CborValue::TextString(String::from_str("$")), CborValue::Unsigned(b.end)));
                pairs.push((CborValue::TextString(String::from_str(">")), next));
                proof {
                    lemma_view_cbor_pairs(pairs@);
                    assert(view_cbor_pairs(pairs@) =~= seq![
                        (SpecCbor::TextString("^"@), SpecCbor::Unsigned(b.start)),
                        (SpecCbor::TextString("$"@), SpecCbor::Unsigned(b.end)),
                        (SpecCbor::TextString(">"@), spec_selector_to_cbor(view_selector(*b.next))),
                    ]);
                }
                one_entry("r", CborValue::Mapping(pairs))
            },
            Selector::ExploreUnion(u) => {
                let selectors = &u.0;
                proof { lemma_view_selectors(selectors@); }
                let mut out: Vec<CborValue> = Vec::new();
                let mut i: usize = 0;
                while i < selectors.len()
                    invariant
                        i <= selectors.len(),
                        *self is ExploreUnion,
                        selectors == self->ExploreUnion_0.0,
                        view_selectors(selectors@).len() == selectors.len(),
                        forall|j: int| 0 <= j < selectors.len() ==> #[trigger] view_selectors(selectors@)[j] == view_selector(selectors@[j]),
                        view_cbor_seq(out@) == spec_selectors_to_cbor(view_selectors(selectors@).take(i as int)),
                    decreases selectors.len() - i,
                {
                    proof {
                        assert(decreases_to!(self->ExploreUnion_0.0 => selectors[i as int]));
                        assert(view_selectors(selectors@).take(i + 1) =~= view_selectors(selectors@).take(i as int).push(view_selector(selectors@[i as int])));
                        lemma_selectors_to_cbor_push(view_selectors(selectors@).take(i as int), view_selector(selectors@[i as int]));
                    }
                    let x = selectors[i].to_cbor();
                    proof { lemma_view_cbor_seq_push(out@, x); }
                    out.push(x);
                    i = i + 1;
                }
                proof { assert(view_selectors(selectors@).take(i as int) =~= view_selectors(selectors@)); }
                one_entry("|", CborValue::Array(out))
            },
        }
    }
}

/*********************************************
 * Selector envelopes
 *********************************************/

/// The selector envelope a JSON literal describes.
pub open spec fn spec_selector_envelope_new(literal: Seq<char>) -> Result<SpecSelector, KindError> {
    match json_text_decoding(literal) {
        None => Err(KindError::FailedToParseJsonLiteral),
        Some(v) => spec_selector_from_json(v),
    }
}

/// The selector a CBOR envelope holds: the value of its first entry.
pub open spec fn spec_envelope_from_cbor(v: SpecCbor) -> Result<SpecSelector, KindError> {
    match v {
        SpecCbor::Mapping(ps) => if ps.len() > 0 { spec_selector_from_cbor(ps[0].1) } else { Err(KindError::FailedToManipulate) },
        _ => Err(KindError::FailedToManipulate),
    }
}

impl SelectorEnvelope {
    /// Parse a selector from its JSON literal.
    pub fn new(selector_str: &str) -> (r: Result<SelectorEnvelope, KindError>)
        ensures
            match spec_selector_envelope_new(selector_str@) {
                Ok(s) => r is Ok && r->Ok_0.0@ == s,
                Err(e) => r is Err && r->Err_0 == e,
            },
    {
        let v = match json_from_str(selector_str) {
            Some(v) => v,
            None => return Err(KindError::FailedToParseJsonLiteral),
        };
        let selector = Selector::try_from_json(&v)?;
        Ok(SelectorEnvelope(selector))
    }

    /// Read a selector envelope from a CBOR map: its selector is the value of its first entry.
    pub fn try_from_cbor(v: &CborValue) -> (r: Result<SelectorEnvelope, KindError>)
        ensures
            match spec_envelope_from_cbor(v@) {
                Ok(s) => r is Ok && r->Ok_0.0@ == s,
                Err(e) => r is Err && r->Err_0 == e,
            },
    {
        if let CborValue::Mapping(pairs) = v {
            proof { lemma_view_cbor_pairs(pairs@); }
            if pairs.len() > 0 {
                let selector = Selector::try_from_cbor(&pairs[0].1)?;
                return Ok(SelectorEnvelope(selector));
            }
        }
        Err(KindError::FailedToManipulate)
    }

    /// The CBOR value of the envelope: its selector under `selector`.
    pub fn to_cbor(&self) -> (r: CborValue)
        ensures r@ == SpecCbor::Mapping(seq![(SpecCbor::TextString("selector"@), spec_selector_to_cbor(self.0@))]),
    {
        one_entry("selector", self.0.to_cbor())
    }
}

/*********************************************
 * Round trips of selectors
 *********************************************/

/// The selector is made of matchers and unions only: no index nor range, whose numbers the JSON
/// value writes as floats.
pub open spec fn matchers_only(s: SpecSelector) -> bool
    decreases s,
{
    match s {
        SpecSelector::Matcher(_) => true,
        SpecSelector::ExploreUnion(ss) => matchers_only_seq(ss),
        _ => false,
    }
}

pub open spec fn matchers_only_seq(ss: Seq<SpecSelector>) -> bool
    decreases ss,
{
    if ss.len() == 0 { true } else { matchers_only_seq(ss.drop_last()) && matchers_only(ss.last()) }
}

proof fn lemma_selectors_to_json_index(ss: Seq<SpecSelector>)
    ensures
        spec_selectors_to_json(ss).len() == ss.len(),
        forall|k: int| 0 <= k < ss.len() ==> #[trigger] spec_selectors_to_json(ss)[k] == spec_selector_to_json(ss[k]),
    decreases ss.len(),
{
    if ss.len() > 0 {
        lemma_selectors_to_json_index(ss.drop_last());
    }
}

proof fn lemma_selectors_to_cbor_index(ss: Seq<SpecSelector>)
    ensures
        spec_selectors_to_cbor(ss).len() == ss.len(),
        forall|k: int| 0 <= k < ss.len() ==> #[trigger] spec_selectors_to_cbor(ss)[k] == spec_selector_to_cbor(ss[k]),
    decreases ss.len(),
{
    if ss.len() > 0 {
        lemma_selectors_to_cbor_index(ss.drop_last());
    }
}

proof fn lemma_matchers_only_seq(ss: Seq<SpecSelector>, k: int)
    requires matchers_only_seq(ss), 0 <= k < ss.len(),
    ensures matchers_only(ss[k]),
    decreases ss.len(),
{
    if k < ss.len() - 1 {
        lemma_matchers_only_seq(ss.drop_last(), k);
    }
}

proof fn lemma_keys_distinct()
    ensures
        "."@ != "i"@, "."@ != "r"@, "."@ != "|"@, "i"@ != "|"@, "r"@ != "|"@, "label"@ != "."@,
{
    reveal_strlit(".");
    reveal_strlit("i");
    reveal_strlit("r");
    reveal_strlit("|");
    reveal_strlit("label");
    assert("."@[0] != "i"@[0]);
    assert("."@[0] != "r"@[0]);
    assert("."@[0] != "|"@[0]);
    assert("i"@[0] != "|"@[0]);
    assert("r"@[0] != "|"@[0]);
}

proof fn lemma_selectors_json_round_trip(ss: Seq<SpecSelector>, n: nat)
    requires
        n <= ss.len(),
        matchers_only_seq(ss),
    ensures
        spec_selectors_from_json(spec_selectors_to_json(ss), n) == Ok::<Seq<SpecSelector>, KindError>(ss.subrange(0, n as int)),
    decreases ss, n,
{
    lemma_selectors_to_json_index(ss);
    if n > 0 {
        lemma_selectors_json_round_trip(ss, (n - 1) as nat);
        lemma_matchers_only_seq(ss, n - 1);
        law_selector_json_round_trip(ss[n - 1]);
        assert(ss.subrange(0, n as int) =~= ss.subrange(0, n - 1).push(ss[n - 1]));
    } else {
        assert(ss.subrange(0, 0) =~= Seq::<SpecSelector>::empty());
    }
}

/// Writing a selector made of matchers and unions as JSON, then reading it back, gives the
/// selector again.
pub proof fn law_selector_json_round_trip(s: SpecSelector)
    requires matchers_only(s),
    ensures spec_selector_from_json(spec_selector_to_json(s)) == Ok::<SpecSelector, KindError>(s),
    decreases s,
{
    lemma_keys_distinct();
    match s {
        SpecSelector::Matcher(l) => {
            let m = spec_matcher_to_json(l);
            assert(spec_json_get(seq![("."@, m)], "."@) == Some(m));
            match l {
                Some(label) => {
                    assert(spec_json_get(seq![("label"@, SpecJson::String(label))], "label"@) == Some(SpecJson::String(label)));
                },
                None => {
                    assert(spec_json_get(Seq::<(Seq<char>, SpecJson)>::empty(), "label"@) is None);
                },
            }
        },
        SpecSelector::ExploreUnion(ss) => {
            let js = spec_selectors_to_json(ss);
            let ms = seq![("|"@, SpecJson::Array(js))];
            assert(ms.drop_last() =~= Seq::<(Seq<char>, SpecJson)>::empty());
            assert(ms.last().0 == "|"@);
            assert(spec_member_position(ms.drop_last(), "."@) == -1);
            assert(spec_member_position(ms, "."@) == -1);
            assert(spec_member_position(ms.drop_last(), "i"@) == -1);
            assert(spec_member_position(ms, "i"@) == -1);
            assert(spec_member_position(ms.drop_last(), "r"@) == -1);
            assert(spec_member_position(ms, "r"@) == -1);
            assert(spec_json_get(ms, "."@) is None);
            assert(spec_json_get(ms, "i"@) is None);
            assert(spec_json_get(ms, "r"@) is None);
            assert(spec_json_get(ms, "|"@) == Some(SpecJson::Array(js)));
            lemma_selectors_to_json_index(ss);
            lemma_selectors_json_round_trip(ss, ss.len());
            assert(ss.subrange(0, ss.len() as int) =~= ss);
        },
        _ => {},
    }
}

proof fn lemma_selectors_cbor_round_trip(ss: Seq<SpecSelector>, n: nat)
    requires
        n <= ss.len(),
        matchers_only_seq(ss),
    ensures
        spec_selectors_from_cbor(spec_selectors_to_cbor(ss), n) == Ok::<Seq<SpecSelector>, KindError>(ss.subrange(0, n as int)),
    decreases ss, n,
{
    lemma_selectors_to_cbor_index(ss);
    if n > 0 {
        lemma_selectors_cbor_round_trip(ss, (n - 1) as nat);
        lemma_matchers_only_seq(ss, n - 1);
        law_selector_cbor_round_trip(ss[n - 1]);
        assert(ss.subrange(0, n as int) =~= ss.subrange(0, n - 1).push(ss[n - 1]));
    } else {
        assert(ss.subrange(0, 0) =~= Seq::<SpecSelector>::empty());
    }
}

/// Writing a selector made of matchers and unions as a CBOR value, then reading it back, gives
/// the selector again.
pub proof fn law_selector_cbor_round_trip(s: SpecSelector)
    requires matchers_only(s),
    ensures spec_selector_from_cbor(spec_selector_to_cbor(s)) == Ok::<SpecSelector, KindError>(s),
    decreases s,
{
    lemma_keys_distinct();
    match s {
        SpecSelector::ExploreUnion(ss) => {
            lemma_selectors_to_cbor_index(ss);
            lemma_selectors_cbor_round_trip(ss, ss.len());
            assert(ss.subrange(0, ss.len() as int) =~= ss);
        },
        _ => {},
    }
}

/// The JSON value of a selector literal, as `serde_json` parses it: indices are unsigned
/// integers, and each object holds its members in the order written (`^`, `$`, `>` for a range;
/// `i`, `>` for an index).
pub open spec fn spec_selector_to_literal_json(s: SpecSelector) -> SpecJson
    decreases s,
{
    match s {
        SpecSelector::Matcher(l) => SpecJson::Object(seq![("."@, spec_matcher_to_json(l))]),
        SpecSelector::ExploreIndex(i, next) => SpecJson::Object(seq![("i"@, SpecJson::Object(seq![
            ("i"@, SpecJson::Number(JsonNumber::PosInt(i))),
            (">"@, spec_selector_to_literal_json(*next)),
        ]))]),
        SpecSelector::ExploreRange(start, end, next) => SpecJson::Object(seq![("r"@, SpecJson::Object(seq![
            ("^"@, SpecJson::Number(JsonNumber::PosInt(start))),
            ("$"@, SpecJson::Number(JsonNumber::PosInt(end))),
            (">"@, spec_selector_to_literal_json(*next)),
        ]))]),
        SpecSelector::ExploreUnion(ss) => SpecJson::Object(seq![("|"@, SpecJson::Array(spec_selectors_to_literal_json(ss)))]),
    }
}

/// The JSON values of the literals of a sequence of selectors.
pub open spec fn spec_selectors_to_literal_json(ss: Seq<SpecSelector>) -> Seq<SpecJson>
    decreases ss,
{
    if ss.len() == 0 { Seq::empty() } else { spec_selectors_to_literal_json(ss.drop_last()).push(spec_selector_to_literal_json(ss.last())) }
}

proof fn lemma_selectors_to_literal_json_index(ss: Seq<SpecSelector>)
    ensures
        spec_selectors_to_literal_json(ss).len() == ss.len(),
        forall|k: int| 0 <= k < ss.len() ==> #[trigger] spec_selectors_to_literal_json(ss)[k] == spec_selector_to_literal_json(ss[k]),
    decreases ss.len(),
{
    if ss.len() > 0 {
        lemma_selectors_to_literal_json_index(ss.drop_last());
    }
}

proof fn lemma_selectors_literal_json_round_trip(ss: Seq<SpecSelector>, n: nat)
    requires n <= ss.len(),
    ensures
        spec_selectors_from_json(spec_selectors_to_literal_json(ss), n) == Ok::<Seq<SpecSelector>, KindError>(ss.subrange(0, n as int)),
    decreases ss, n,
{
    lemma_selectors_to_literal_json_index(ss);
    if n > 0 {
        lemma_selectors_literal_json_round_trip(ss, (n - 1) as nat);
        law_selector_literal_json_round_trip(ss[n - 1]);
        assert(ss.subrange(0, n as int) =~= ss.subrange(0, n - 1).push(ss[n - 1]));
    } else {
        assert(ss.subrange(0, 0) =~= Seq::<SpecSelector>::empty());
    }
}

proof fn lemma_selector_keys_distinct()
    ensures
        "."@ != "i"@, "."@ != "r"@, "."@ != "|"@, "i"@ != "r"@, "i"@ != "|"@, "r"@ != "|"@,
        "^"@ != "$"@, "^"@ != ">"@, "$"@ != ">"@, "i"@ != ">"@, "label"@ != "."@,
{
    reveal_strlit(".");
    reveal_strlit("i");
    reveal_strlit("r");
    reveal_strlit("|");
    reveal_strlit("^");
    reveal_strlit("$");
    reveal_strlit(">");
    reveal_strlit("label");
    assert("."@[0] != "i"@[0]);
    assert("."@[0] != "r"@[0]);
    assert("."@[0] != "|"@[0]);
    assert("i"@[0] != "r"@[0]);
    assert("i"@[0] != "|"@[0]);
    assert("r"@[0] != "|"@[0]);
    assert("^"@[0] != "$"@[0]);
    assert("^"@[0] != ">"@[0]);
    assert("$"@[0] != ">"@[0]);
    assert("i"@[0] != ">"@[0]);
}

/// Parsing the JSON literal of any selector gives the selector again: a range selector takes its
/// start from the `^` member and its end from the `$` member, an index selector its index from
/// the `i` member, each its next selector from the `>` member; a union keeps its selectors in
/// order and a matcher its label.
pub proof fn law_selector_literal_json_round_trip(s: SpecSelector)
    ensures spec_selector_from_json(spec_selector_to_literal_json(s)) == Ok::<SpecSelector, KindError>(s),
    decreases s,
{
    lemma_selector_keys_distinct();
    match s {
        SpecSelector::Matcher(l) => {
            let ms = seq![("."@, spec_matcher_to_json(l))];
            lemma_member_position(ms, "."@);
            match l {
                Some(label) => {
                    let lm = seq![("label"@, SpecJson::String(label))];
                    lemma_member_position(lm, "label"@);
                },
                None => {
                    lemma_member_position(Seq::<(Seq<char>, SpecJson)>::empty(), "label"@);
                },
            }
            assert(spec_selector_from_json(spec_selector_to_literal_json(s)) == Ok::<SpecSelector, KindError>(s));
        },
        SpecSelector::ExploreIndex(i, next) => {
            law_selector_literal_json_round_trip(*next);
            let ms = seq![("i"@, SpecJson::Object(seq![
                ("i"@, SpecJson::Number(JsonNumber::PosInt(i))),
                (">"@, spec_selector_to_literal_json(*next)),
            ]))];
            lemma_member_position(ms, "."@);
            lemma_member_position(ms, "i"@);
            let inner = seq![
                ("i"@, SpecJson::Number(JsonNumber::PosInt(i))),
                (">"@, spec_selector_to_literal_json(*next)),
            ];
            lemma_member_position(inner, "i"@);
            lemma_member_position(inner, ">"@);
            assert(inner[0].0 == "i"@ && inner[1].0 == ">"@);
            assert(spec_json_get(inner, "i"@) == Some(SpecJson::Number(JsonNumber::PosInt(i))));
            assert(spec_json_get(inner, ">"@) == Some(spec_selector_to_literal_json(*next)));
            assert(ms[0].0 == "i"@);
            assert(spec_json_get(ms, "."@) is None);
            assert(spec_json_get(ms, "i"@) == Some(SpecJson::Object(inner)));
            assert(spec_selector_from_json(spec_selector_to_literal_json(s)) == Ok::<SpecSelector, KindError>(s));
        },
        SpecSelector::ExploreRange(start, end, next) => {
            law_selector_literal_json_round_trip(*next);
            let inner = seq![
                ("^"@, SpecJson::Number(JsonNumber::PosInt(start))),
                ("$"@, SpecJson::Number(JsonNumber::PosInt(end))),
                (">"@, spec_selector_to_literal_json(*next)),
            ];
            let ms = seq![("r"@, SpecJson::Object(inner))];
            lemma_member_position(ms, "."@);
            lemma_member_position(ms, "i"@);
            lemma_member_position(ms, "r"@);
            lemma_member_position(inner, "^"@);
            lemma_member_position(inner, "$"@);
            lemma_member_position(inner, ">"@);
            assert(inner[0].0 == "^"@ && inner[1].0 == "$"@ && inner[2].0 == ">"@);
            assert(spec_json_get(inner, "^"@) == Some(SpecJson::Number(JsonNumber::PosInt(start))));
            assert(spec_json_get(inner, "$"@) == Some(SpecJson::Number(JsonNumber::PosInt(end))));
            assert(spec_json_get(inner, ">"@) == Some(spec_selector_to_literal_json(*next)));
            assert(ms[0].0 == "r"@);
            assert(spec_json_get(ms, "."@) is None);
            assert(spec_json_get(ms, "i"@) is None);
            assert(spec_json_get(ms, "r"@) == Some(SpecJson::Object(inner)));
            assert(spec_selector_from_json(spec_selector_to_literal_json(s)) == Ok::<SpecSelector, KindError>(s));
        },
        SpecSelector::ExploreUnion(ss) => {
            let ms = seq![("|"@, SpecJson::Array(spec_selectors_to_literal_json(ss)))];
            lemma_member_position(ms, "."@);
            lemma_member_position(ms, "i"@);
            lemma_member_position(ms, "r"@);
            lemma_member_position(ms, "|"@);
            lemma_selectors_to_literal_json_index(ss);
            lemma_selectors_literal_json_round_trip(ss, ss.len());
            assert(ss.subrange(0, ss.len() as int) =~= ss);
            assert(spec_selector_from_json(spec_selector_to_literal_json(s)) == Ok::<SpecSelector, KindError>(s));
        },
    }
}

/// The CBOR value of a selector as the sk-cbor reader gives it back once it has been written:
/// the entries of each map sorted by their keys, so that the range entries come as `$` (its end),
/// `>` (its next selector), `^` (its start), and the index entries as `>` (its next selector),
/// `i` (its index).
pub open spec fn spec_selector_to_read_cbor(s: SpecSelector) -> SpecCbor
    decreases s,
{
    match s {
        SpecSelector::Matcher(l) => SpecCbor::Mapping(seq![(SpecCbor::TextString("."@), spec_matcher_to_cbor(l))]),
        SpecSelector::ExploreIndex(i, next) => SpecCbor::Mapping(seq![(SpecCbor::TextString("i"@), SpecCbor::Mapping(seq![
            (SpecCbor::TextString(">"@), spec_selector_to_read_cbor(*next)),
            (SpecCbor::TextString("i"@), SpecCbor::Unsigned(i)),
        ]))]),
        SpecSelector::ExploreRange(start, end, next) => SpecCbor::Mapping(seq![(SpecCbor::TextString("r"@), SpecCbor::Mapping(seq![
            (SpecCbor::TextString("$"@), SpecCbor::Unsigned(end)),
            (SpecCbor::TextString(">"@), spec_selector_to_read_cbor(*next)),
            (SpecCbor::TextString("^"@), SpecCbor::Unsigned(start)),
        ]))]),
        SpecSelector::ExploreUnion(ss) => SpecCbor::Mapping(seq![(SpecCbor::TextString("|"@), SpecCbor::Array(spec_selectors_to_read_cbor(ss)))]),
    }
}

/// The CBOR values of a sequence of selectors, as the sk-cbor reader gives them back.
pub open spec fn spec_selectors_to_read_cbor(ss: Seq<SpecSelector>) -> Seq<SpecCbor>
    decreases ss,
{
    if ss.len() == 0 { Seq::empty() } else { spec_selectors_to_read_cbor(ss.drop_last()).push(spec_selector_to_read_cbor(ss.last())) }
}

proof fn lemma_selectors_to_read_cbor_index(ss: Seq<SpecSelector>)
    ensures
        spec_selectors_to_read_cbor(ss).len() == ss.len(),
        forall|k: int| 0 <= k < ss.len() ==> #[trigger] spec_selectors_to_read_cbor(ss)[k] == spec_selector_to_read_cbor(ss[k]),
    decreases ss.len(),
{
    if ss.len() > 0 {
        lemma_selectors_to_read_cbor_index(ss.drop_last());
    }
}

proof fn lemma_selectors_read_cbor_round_trip(ss: Seq<SpecSelector>, n: nat)
    requires n <= ss.len(),
    ensures
        spec_selectors_from_cbor(spec_selectors_to_read_cbor(ss), n) == Ok::<Seq<SpecSelector>, KindError>(ss.subrange(0, n as int)),
    decreases ss, n,
{
    lemma_selectors_to_read_cbor_index(ss);
    if n > 0 {
        lemma_selectors_read_cbor_round_trip(ss, (n - 1) as nat);
        law_selector_read_cbor_round_trip(ss[n - 1]);
        assert(ss.subrange(0, n as int) =~= ss.subrange(0, n - 1).push(ss[n - 1]));
    } else {
        assert(ss.subrange(0, 0) =~= Seq::<SpecSelector>::empty());
    }
}

/// Reading back the CBOR block of any selector gives the selector again: a matcher keeps its
/// label, an index selector its index and next selector, a range selector takes its start from
/// the `^` entry and its end from the `$` entry, and a union keeps its selectors in order.
pub proof fn law_selector_read_cbor_round_trip(s: SpecSelector)
    ensures spec_selector_from_cbor(spec_selector_to_read_cbor(s)) == Ok::<SpecSelector, KindError>(s),
    decreases s,
{
    lemma_keys_distinct();
    match s {
        SpecSelector::ExploreIndex(i, next) => {
            law_selector_read_cbor_round_trip(*next);
        },
        SpecSelector::ExploreRange(start, end, next) => {
            law_selector_read_cbor_round_trip(*next);
            assert("r"@ != "i"@) by {
                reveal_strlit("r");
                reveal_strlit("i");
                assert("r"@[0] != "i"@[0]);
            }
        },
        SpecSelector::ExploreUnion(ss) => {
            lemma_selectors_to_read_cbor_index(ss);
            lemma_selectors_read_cbor_round_trip(ss, ss.len());
            assert(ss.subrange(0, ss.len() as int) =~= ss);
        },
        SpecSelector::Matcher(_) => {},
    }
}

} // verus!
