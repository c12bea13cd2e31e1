//! Structural description of the CBOR major types found in Holium CBOR data.
use vstd::prelude::*;
use crate::cbor_errors::{CborError, ParseError, SelectorError};
use crate::selector::{Selector, ExploreIndex, ExploreRange, ExploreUnion};

verus! {

broadcast use vstd::std_specs::vec::group_vec_axioms;

/// All information relative to a scalar cbor major type in a buffer.
#[derive(Clone, Copy, Debug, PartialEq, Eq, Structural)]
pub struct ScalarType {
    pub header_offset: u64,
    pub data_offset: Option<u64>,
    pub data_size: u64,
}

/// All information relative to a recursive cbor major type in a buffer.
#[derive(Debug)]
pub struct RecursiveType {
    pub header_offset: u64,
    pub data_offset: Option<u64>,
    /// Number of awaited elements, as given by the cbor header.
    pub nbr_elements: usize,
    /// Details of the children that have been read so far.
    pub elements: Vec<MajorType>,
}

/// Cbor major types that can be found in the Holium CBOR format.
#[derive(Debug)]
pub enum MajorType {
    Unsigned(ScalarType),
    Negative(ScalarType),
    Bytes(ScalarType),
    String(ScalarType),
    Array(RecursiveType),
    Mapping(RecursiveType),
    SimpleValues(ScalarType),
}

/// Mathematical model of a [`RecursiveType`].
pub struct SpecRecursiveType {
    pub header_offset: u64,
    pub data_offset: Option<u64>,
    pub nbr_elements: usize,
    pub elements: Seq<SpecMajorType>,
}

/// Mathematical model of a [`MajorType`].
pub enum SpecMajorType {
    Unsigned(ScalarType),
    Negative(ScalarType),
    Bytes(ScalarType),
    String(ScalarType),
    Array(SpecRecursiveType),
    Mapping(SpecRecursiveType),
    SimpleValues(ScalarType),
}

/// Model of a sequence of major types, element by element.
pub open spec fn view_seq(s: Seq<MajorType>) -> Seq<SpecMajorType>
    decreases s,
{
    if s.len() == 0 {
        Seq::empty()
    } else {
        view_seq(s.drop_last()).push(view_major(s.last()))
    }
}

pub open spec fn view_recursive(r: RecursiveType) -> SpecRecursiveType
    decreases r,
{
    SpecRecursiveType {
        header_offset: r.header_offset,
        data_offset: r.data_offset,
        nbr_elements: r.nbr_elements,
        elements: view_seq(r.elements@),
    }
}

pub open spec fn view_major(m: MajorType) -> SpecMajorType
    decreases m,
{
    match m {
        MajorType::Unsigned(s) => SpecMajorType::Unsigned(s),
        MajorType::Negative(s) => SpecMajorType::Negative(s),
        MajorType::Bytes(s) => SpecMajorType::Bytes(s),
        MajorType::String(s) => SpecMajorType::String(s),
        MajorType::Array(r) => SpecMajorType::Array(view_recursive(r)),
        MajorType::Mapping(r) => SpecMajorType::Mapping(view_recursive(r)),
        MajorType::SimpleValues(s) => SpecMajorType::SimpleValues(s),
    }
}

impl View for MajorType {
    type V = SpecMajorType;

    open spec fn view(&self) -> SpecMajorType {
        view_major(*self)
    }
}

impl View for RecursiveType {
    type V = SpecRecursiveType;

    open spec fn view(&self) -> SpecRecursiveType {
        view_recursive(*self)
    }
}

pub proof fn lemma_view_seq(s: Seq<MajorType>)
    ensures
        view_seq(s).len() == s.len(),
        forall|i: int| 0 <= i < s.len() ==> #[trigger] view_seq(s)[i] == view_major(s[i]),
    decreases s.len(),
{
    if s.len() > 0 {
        lemma_view_seq(s.drop_last());
    }
}


/// The scalar details of a scalar major type, if any.
pub open spec fn scalar_of(m: SpecMajorType) -> Option<ScalarType> {
    match m {
        SpecMajorType::Unsigned(s) => Some(s),
        SpecMajorType::Negative(s) => Some(s),
        SpecMajorType::Bytes(s) => Some(s),
        SpecMajorType::String(s) => Some(s),
        SpecMajorType::SimpleValues(s) => Some(s),
        _ => None,
    }
}

/// The recursive details of an array or a map.
pub open spec fn recursive_of(m: SpecMajorType) -> Option<SpecRecursiveType> {
    match m {
        SpecMajorType::Array(r) => Some(r),
        SpecMajorType::Mapping(r) => Some(r),
        _ => None,
    }
}

pub open spec fn fits_u64(x: int) -> bool {
    0 <= x <= u64::MAX
}

/// Offset of the first byte after a major type; `None` where computing it would overflow or
/// would need a data offset that is absent.
pub open spec fn spec_next_offset(m: SpecMajorType) -> Option<int>
    decreases m,
{
    match m {
        SpecMajorType::Array(r) => recursive_next_offset(r),
        SpecMajorType::Mapping(r) => recursive_next_offset(r),
        SpecMajorType::Unsigned(s) => scalar_next_offset(s),
        SpecMajorType::Negative(s) => scalar_next_offset(s),
        SpecMajorType::Bytes(s) => scalar_next_offset(s),
        SpecMajorType::String(s) => scalar_next_offset(s),
        SpecMajorType::SimpleValues(s) => scalar_next_offset(s),
    }
}

pub open spec fn scalar_next_offset(s: ScalarType) -> Option<int> {
    let v = match s.data_offset {
        Some(d) => d + s.data_size,
        None => s.header_offset + 1,
    };
    if fits_u64(v) { Some(v) } else { None }
}

pub open spec fn recursive_next_offset(r: SpecRecursiveType) -> Option<int>
    decreases r,
{
    if r.nbr_elements == 0 {
        if fits_u64(r.header_offset + 1) { Some(r.header_offset + 1) } else { None }
    } else if r.elements.len() == 0 {
        match r.data_offset {
            Some(d) => Some(d as int),
            None => None,
        }
    } else {
        spec_next_offset(r.elements[r.elements.len() - 1])
    }
}

/// Size in bytes of a scalar major type (header included), as `details` computes it;
/// `None` where the computation would underflow or overflow.
pub open spec fn scalar_size(s: ScalarType) -> Option<int> {
    match s.data_offset {
        None => Some(1),
        Some(d) => if d >= s.header_offset && fits_u64(d - s.header_offset + s.data_size) {
            Some(((d - s.header_offset + s.data_size) as u64) as usize as int)
        } else {
            None
        },
    }
}

/// Header offset and size in bytes of a major type, as `details` computes them;
/// `None` where the computation would panic.
pub open spec fn spec_details(m: SpecMajorType) -> Option<(u64, int)>
    decreases m,
{
    match m {
        SpecMajorType::Array(r) => recursive_details(r),
        SpecMajorType::Mapping(r) => recursive_details(r),
        SpecMajorType::Unsigned(s) => scalar_details(s),
        SpecMajorType::Negative(s) => scalar_details(s),
        SpecMajorType::Bytes(s) => scalar_details(s),
        SpecMajorType::String(s) => scalar_details(s),
        SpecMajorType::SimpleValues(s) => scalar_details(s),
    }
}

pub open spec fn scalar_details(s: ScalarType) -> Option<(u64, int)> {
    match scalar_size(s) {
        Some(n) => Some((s.header_offset, n)),
        None => None,
    }
}

pub open spec fn recursive_details(r: SpecRecursiveType) -> Option<(u64, int)>
    decreases r,
{
    if r.nbr_elements == 0 {
        Some((r.header_offset, 1))
    } else {
        match r.data_offset {
            None => None,
            Some(d) => if d < r.header_offset {
                None
            } else {
                match sizes_sum(((d - r.header_offset) as u64) as usize as int, r.elements) {
                    Some(total) => Some((r.header_offset, total)),
                    None => None,
                }
            },
        }
    }
}

/// `acc` plus the sizes of all major types in `es`, added from the first to the last, where no
/// partial sum exceeds `usize::MAX`.
pub open spec fn sizes_sum(acc: int, es: Seq<SpecMajorType>) -> Option<int>
    decreases es,
{
    if es.len() == 0 {
        if acc <= usize::MAX { Some(acc) } else { None }
    } else {
        match sizes_sum(acc, es.drop_last()) {
            None => None,
            Some(prefix) => match spec_details(es.last()) {
                None => None,
                Some(d) => if prefix + d.1 <= usize::MAX { Some(prefix + d.1) } else { None },
            },
        }
    }
}


/// Whether every array and map of `m` holds as many element details as its header announces.
pub open spec fn spec_complete(m: SpecMajorType) -> bool
    decreases m,
{
    match recursive_of(m) {
        None => true,
        Some(r) => r.elements.len() == r.nbr_elements && forall|i: int|
            0 <= i < r.elements.len() ==> spec_complete(#[trigger] r.elements[i]),
    }
}

/// The child at `index` of a recursive major type, as `RecursiveType::child` returns it;
/// `None` where the index lies in the announced elements but no detail was read for it.
pub open spec fn spec_child(r: SpecRecursiveType, index: usize) -> Option<Result<SpecMajorType, SelectorError>> {
    if r.nbr_elements == 0 || r.nbr_elements - 1 < index {
        Some(Err(SelectorError::NoNodeFound))
    } else if index < r.elements.len() {
        Some(Ok(r.elements[index as int]))
    } else {
        None
    }
}

/// The children at indices `idx..end`, stopping at the first failing child.
pub open spec fn range_children(r: SpecRecursiveType, idx: u64, end: u64) -> Option<Result<Seq<SpecMajorType>, SelectorError>>
    decreases end - idx,
{
    if idx >= end {
        Some(Ok(Seq::empty()))
    } else {
        match spec_child(r, idx as usize) {
            None => None,
            Some(Err(e)) => Some(Err(e)),
            Some(Ok(c)) => match range_children(r, (idx + 1) as u64, end) {
                None => None,
                Some(Err(e)) => Some(Err(e)),
                Some(Ok(cs)) => Some(Ok(seq![c] + cs)),
            },
        }
    }
}

/// Result of applying a selector to a major type: a list of data sets, each a list of major types.
/// `None` where the selection would panic.
pub open spec fn spec_select(m: SpecMajorType, sel: Selector) -> Option<Result<Seq<Seq<SpecMajorType>>, CborError>>
    decreases sel,
{
    match sel {
        Selector::Matcher(_) => Some(Ok(seq![seq![m]])),
        Selector::ExploreIndex(ei) => match recursive_of(m) {
            None => Some(Err(CborError::Parse(ParseError::MajorTypeNonRecursive))),
            Some(r) => match spec_child(r, ei.index as usize) {
                None => None,
                Some(Err(e)) => Some(Err(CborError::Selector(e))),
                Some(Ok(c)) => spec_select(c, *ei.next),
            },
        },
        Selector::ExploreRange(er) => if !(*er.next is Matcher) {
            Some(Err(CborError::Selector(SelectorError::NonValidSelectorStructure)))
        } else if er.end < er.start {
            None
        } else {
            match recursive_of(m) {
                None => Some(Err(CborError::Parse(ParseError::MajorTypeNonRecursive))),
                Some(r) => match range_children(r, er.start, er.end) {
                    None => None,
                    Some(Err(e)) => Some(Err(CborError::Selector(e))),
                    Some(Ok(cs)) => Some(Ok(seq![cs])),
                },
            }
        },
        Selector::ExploreUnion(eu) => union_select(m, eu.0@),
    }
}

/// The data sets of each selector of a union, concatenated in order; the first error stops.
pub open spec fn union_select(m: SpecMajorType, sels: Seq<Selector>) -> Option<Result<Seq<Seq<SpecMajorType>>, CborError>>
    decreases sels,
{
    if sels.len() == 0 {
        Some(Ok(Seq::empty()))
    } else {
        match union_select(m, sels.drop_last()) {
            None => None,
            Some(Err(e)) => Some(Err(e)),
            Some(Ok(prefix)) => match spec_select(m, sels.last()) {
                None => None,
                Some(Err(e)) => Some(Err(e)),
                Some(Ok(last)) => Some(Ok(prefix + last)),
            },
        }
    }
}

/// Model of a list of data sets.
pub open spec fn view_sets(s: Seq<Vec<MajorType>>) -> Seq<Seq<SpecMajorType>> {
    Seq::new(s.len(), |i: int| view_seq(s[i]@))
}


pub proof fn lemma_next_offset_fits(m: SpecMajorType)
    ensures spec_next_offset(m) is Some ==> fits_u64(spec_next_offset(m).unwrap()),
    decreases m,
{
    match recursive_of(m) {
        Some(r) => if r.nbr_elements != 0 && r.elements.len() != 0 {
            lemma_next_offset_fits(r.elements[r.elements.len() - 1]);
        },
        None => {},
    }
}

pub proof fn lemma_view_seq_push(s: Seq<MajorType>, x: MajorType)
    ensures view_seq(s.push(x)) == view_seq(s).push(view_major(x)),
{
    assert(s.push(x).drop_last() =~= s);
}

pub proof fn lemma_sizes_sum_prefix(acc: int, es: Seq<SpecMajorType>, k: int)
    requires
        sizes_sum(acc, es) is Some,
        0 <= k <= es.len(),
    ensures
        sizes_sum(acc, es.take(k)) is Some,
        k < es.len() ==> spec_details(es[k]) is Some,
    decreases es.len(),
{
    if k < es.len() {
        lemma_sizes_sum_prefix(acc, es.drop_last(), k);
        assert(es.drop_last().take(k) =~= es.take(k));
        if k < es.len() - 1 {
            assert(es.drop_last()[k] == es[k]);
        }
    } else {
        assert(es.take(k) =~= es);
    }
}

impl RecursiveType {
    /// Return a reference to a child of a recursive major type.
    pub fn child(&self, index: usize) -> (res: Result<&MajorType, CborError>)
        requires spec_child(self@, index) is Some,
        ensures
            match spec_child(self@, index).unwrap() {
                Ok(c) => res is Ok && res->Ok_0@ == c,
                Err(e) => res == Err::<&MajorType, CborError>(CborError::Selector(e)),
            },
    {
        proof { lemma_view_seq(self.elements@); }
        if self.nbr_elements == 0usize || self.nbr_elements - 1 < index {
            return Err(CborError::Selector(SelectorError::NoNodeFound));
        }
        Ok(&self.elements[index])
    }
}

impl MajorType {
    /// Whether the major type is an array.
    pub fn is_array(&self) -> (r: bool)
        ensures r == (self is Array),
    {
        match self {
            MajorType::Array(_) => true,
            _ => false,
        }
    }

    /// Whether the major type is a map.
    pub fn is_map(&self) -> (r: bool)
        ensures r == (self is Mapping),
    {
        match self {
            MajorType::Mapping(_) => true,
            _ => false,
        }
    }

    /// A copy of the whole structure.
    pub fn copy_tree(&self) -> (r: MajorType)
        ensures r@ == self@,
        decreases self,
    {
        match self {
            MajorType::Unsigned(s) => MajorType::Unsigned(*s),
            MajorType::Negative(s) => MajorType::Negative(*s),
            MajorType::Bytes(s) => MajorType::Bytes(*s),
            MajorType::String(s) => MajorType::String(*s),
            MajorType::SimpleValues(s) => MajorType::SimpleValues(*s),
            MajorType::Array(r) => MajorType::Array(r.copy_recursive()),
            MajorType::Mapping(r) => MajorType::Mapping(r.copy_recursive()),
        }
    }

    /// Header offset of a major type and its size in bytes. Without data, the size is `1`.
    pub fn details(&self) -> (r: (u64, usize))
        requires spec_details(self@) is Some,
        ensures
            r.0 == spec_details(self@).unwrap().0,
            r.1 as int == spec_details(self@).unwrap().1,
        decreases self,
    {
        match self {
            MajorType::Unsigned(scalar) => scalar_type_details(scalar),
            MajorType::Negative(scalar) => scalar_type_details(scalar),
            MajorType::Bytes(scalar) => scalar_type_details(scalar),
            MajorType::String(scalar) => scalar_type_details(scalar),
            MajorType::SimpleValues(scalar) => scalar_type_details(scalar),
            MajorType::Array(recursive) => recursive.details_rec(),
            MajorType::Mapping(recursive) => recursive.details_rec(),
        }
    }

    /// Offset of the first byte after the major type.
    pub fn next_offset(&self) -> (r: u64)
        requires spec_next_offset(self@) is Some,
        ensures r as int == spec_next_offset(self@).unwrap(),
        decreases self,
    {
        match self {
            MajorType::Array(recursive) => recursive.next_offset_rec(),
            MajorType::Mapping(recursive) => recursive.next_offset_rec(),
            MajorType::Unsigned(scalar) => scalar_type_next_offset(scalar),
            MajorType::Negative(scalar) => scalar_type_next_offset(scalar),
            MajorType::Bytes(scalar) => scalar_type_next_offset(scalar),
            MajorType::String(scalar) => scalar_type_next_offset(scalar),
            MajorType::SimpleValues(scalar) => scalar_type_next_offset(scalar),
        }
    }
}

fn scalar_type_details(scalar: &ScalarType) -> (r: (u64, usize))
    requires scalar_details(*scalar) is Some,
    ensures
        r.0 == scalar_details(*scalar).unwrap().0,
        r.1 as int == scalar_details(*scalar).unwrap().1,
{
    match scalar.data_offset {
        None => (scalar.header_offset, 1usize),
        Some(d) => (scalar.header_offset, (d - scalar.header_offset + scalar.data_size) as usize),
    }
}

fn scalar_type_next_offset(scalar: &ScalarType) -> (r: u64)
    requires scalar_next_offset(*scalar) is Some,
    ensures r as int == scalar_next_offset(*scalar).unwrap(),
{
    match scalar.data_offset {
        Some(d) => d + scalar.data_size,
        None => scalar.header_offset + 1,
    }
}

impl MajorType {
    /// Offset of the first byte after the major type, or `None` where it does not fit in a `u64`
    /// or a data offset is missing.
    pub fn try_next_offset(&self) -> (r: Option<u64>)
        ensures
            r is Some == spec_next_offset(self@) is Some,
            r is Some ==> r.unwrap() as int == spec_next_offset(self@).unwrap(),
        decreases self,
    {
        match self {
            MajorType::Array(recursive) => recursive.try_next_offset_rec(),
            MajorType::Mapping(recursive) => recursive.try_next_offset_rec(),
            MajorType::Unsigned(scalar) => scalar_try_next_offset(scalar),
            MajorType::Negative(scalar) => scalar_try_next_offset(scalar),
            MajorType::Bytes(scalar) => scalar_try_next_offset(scalar),
            MajorType::String(scalar) => scalar_try_next_offset(scalar),
            MajorType::SimpleValues(scalar) => scalar_try_next_offset(scalar),
        }
    }
}

fn scalar_try_next_offset(scalar: &ScalarType) -> (r: Option<u64>)
    ensures
        r is Some == scalar_next_offset(*scalar) is Some,
        r is Some ==> r.unwrap() as int == scalar_next_offset(*scalar).unwrap(),
{
    match scalar.data_offset {
        Some(d) => d.checked_add(scalar.data_size),
        None => scalar.header_offset.checked_add(1),
    }
}

impl RecursiveType {
    fn try_next_offset_rec(&self) -> (r: Option<u64>)
        ensures
            r is Some == recursive_next_offset(self@) is Some,
            r is Some ==> r.unwrap() as int == recursive_next_offset(self@).unwrap(),
        decreases self,
    {
        proof { lemma_view_seq(self.elements@); }
        if self.nbr_elements == 0usize {
            return self.header_offset.checked_add(1);
        }
        if self.elements.len() == 0usize {
            return self.data_offset;
        }
        self.elements[self.elements.len() - 1].try_next_offset()
    }

    fn copy_recursive(&self) -> (c: RecursiveType)
        ensures c@ == self@,
        decreases self,
    {
        let mut elements: Vec<MajorType> = Vec::new();
        let mut i: usize = 0;
        while i < self.elements.len()
            invariant
                i <= self.elements.len(),
                view_seq(elements@) == view_seq(self.elements@.take(i as int)),
            decreases self.elements.len() - i,
        {
            let c = self.elements[i].copy_tree();
            proof {
                lemma_view_seq_push(elements@, c);
                lemma_view_seq_push(self.elements@.take(i as int), self.elements@[i as int]);
                assert(self.elements@.take(i as int).push(self.elements@[i as int]) =~= self.elements@.take(i + 1));
            }
            elements.push(c);
            i = i + 1;
        }
        proof { assert(self.elements@.take(i as int) =~= self.elements@); }
        RecursiveType {
            header_offset: self.header_offset,
            data_offset: self.data_offset,
            nbr_elements: self.nbr_elements,
            elements,
        }
    }

    fn details_rec(&self) -> (r: (u64, usize))
        requires recursive_details(self@) is Some,
        ensures
            r.0 == recursive_details(self@).unwrap().0,
            r.1 as int == recursive_details(self@).unwrap().1,
        decreases self,
    {
        if self.nbr_elements == 0 {
            return (self.header_offset, 1);
        }
        let ghost es = view_seq(self.elements@);
        proof { lemma_view_seq(self.elements@); }
        let d = self.data_offset.unwrap();
        let mut recursive_size: usize = (d - self.header_offset) as usize;
        let ghost acc = recursive_size as int;
        let mut i: usize = 0;
        while i < self.elements.len()
            invariant
                i <= self.elements.len(),
                es == view_seq(self.elements@),
                es.len() == self.elements.len(),
                forall|j: int| 0 <= j < self.elements.len() ==> #[trigger] es[j] == view_major(self.elements@[j]),
                sizes_sum(acc, es) is Some,
                sizes_sum(acc, es.take(i as int)) == Some(recursive_size as int),
            decreases self.elements.len() - i,
        {
            proof {
                lemma_sizes_sum_prefix(acc, es, i as int);
                lemma_sizes_sum_prefix(acc, es, i + 1);
                assert(es.take(i + 1).drop_last() =~= es.take(i as int));
            }
            let (_, s) = self.elements[i].details();
            recursive_size = recursive_size + s;
            i = i + 1;
        }
        proof { assert(es.take(i as int) =~= es); }
        (self.header_offset, recursive_size)
    }

    fn next_offset_rec(&self) -> (r: u64)
        requires recursive_next_offset(self@) is Some,
        ensures r as int == recursive_next_offset(self@).unwrap(),
        decreases self,
    {
        proof { lemma_view_seq(self.elements@); }
        if self.nbr_elements == 0usize {
            return self.header_offset + 1;
        }
        if self.elements.len() == 0usize {
            return self.data_offset.unwrap();
        }
        self.elements[self.elements.len() - 1].next_offset()
    }
}


pub proof fn lemma_union_prefix(m: SpecMajorType, sels: Seq<Selector>, k: int)
    requires
        union_select(m, sels) is Some,
        0 <= k <= sels.len(),
    ensures
        union_select(m, sels.take(k)) is Some,
        k < sels.len() && union_select(m, sels.take(k)).unwrap() is Ok ==> spec_select(m, sels[k]) is Some,
    decreases sels.len(),
{
    if k < sels.len() {
        lemma_union_prefix(m, sels.drop_last(), k);
        assert(sels.drop_last().take(k) =~= sels.take(k));
        if k == sels.len() - 1 {
            assert(sels.take(k) =~= sels.drop_last());
        } else {
            assert(sels.drop_last()[k] == sels[k]);
        }
    } else {
        assert(sels.take(k) =~= sels);
    }
}

pub proof fn lemma_union_err_propagates(m: SpecMajorType, sels: Seq<Selector>, k: int)
    requires
        0 <= k <= sels.len(),
        union_select(m, sels.take(k)) is Some,
        union_select(m, sels.take(k)).unwrap() is Err,
    ensures union_select(m, sels) == union_select(m, sels.take(k)),
    decreases sels.len(),
{
    if k == sels.len() {
        assert(sels.take(k) =~= sels);
    } else {
        assert(sels.drop_last().take(k) =~= sels.take(k));
        lemma_union_err_propagates(m, sels.drop_last(), k);
    }
}

/// A union selection is the concatenation, in order, of the data sets its members select, where
/// every member selects some.
pub proof fn law_union_selection(m: SpecMajorType, sels: Seq<Selector>, rs: Seq<Seq<Seq<SpecMajorType>>>)
    requires
        sels.len() == rs.len(),
        forall|j: int| 0 <= j < sels.len() ==> #[trigger] spec_select(m, sels[j]) == Some(Ok::<Seq<Seq<SpecMajorType>>, CborError>(rs[j])),
    ensures union_select(m, sels) == Some(Ok::<Seq<Seq<SpecMajorType>>, CborError>(rs.flatten())),
    decreases sels.len(),
{
    rs.lemma_flatten_and_flatten_alt_are_equivalent();
    if sels.len() > 0 {
        let d = sels.drop_last();
        let rd = rs.drop_last();
        assert forall|j: int| 0 <= j < d.len() implies #[trigger] spec_select(m, d[j]) == Some(Ok::<Seq<Seq<SpecMajorType>>, CborError>(rd[j])) by {
            assert(d[j] == sels[j]);
            assert(spec_select(m, sels[j]) == Some(Ok::<Seq<Seq<SpecMajorType>>, CborError>(rs[j])));
        }
        law_union_selection(m, d, rd);
        rd.lemma_flatten_and_flatten_alt_are_equivalent();
        assert(spec_select(m, sels[sels.len() - 1]) == Some(Ok::<Seq<Seq<SpecMajorType>>, CborError>(rs[rs.len() - 1])));
    } else {
        assert(rs.flatten_alt() =~= Seq::<Seq<SpecMajorType>>::empty());
    }
}

/// A union selection fails with the error of the first of its members that fails, where the
/// members before it select some data sets.
pub proof fn law_union_selection_error(m: SpecMajorType, sels: Seq<Selector>, k: int, e: CborError)
    requires
        0 <= k < sels.len(),
        forall|j: int| 0 <= j < k ==> (#[trigger] spec_select(m, sels[j])) is Some && spec_select(m, sels[j]).unwrap() is Ok,
        spec_select(m, sels[k]) == Some(Err::<Seq<Seq<SpecMajorType>>, CborError>(e)),
    ensures union_select(m, sels) == Some(Err::<Seq<Seq<SpecMajorType>>, CborError>(e)),
{
    let t = sels.take(k);
    let rs = Seq::new(k as nat, |j: int| spec_select(m, sels[j]).unwrap()->Ok_0);
    assert forall|j: int| 0 <= j < t.len() implies #[trigger] spec_select(m, t[j]) == Some(Ok::<Seq<Seq<SpecMajorType>>, CborError>(rs[j])) by {
        assert(t[j] == sels[j]);
        assert(spec_select(m, sels[j]) is Some && spec_select(m, sels[j]).unwrap() is Ok);
    }
    law_union_selection(m, t, rs);
    let t2 = sels.take(k + 1);
    assert(t2.drop_last() =~= t);
    assert(t2.last() == sels[k]);
    assert(union_select(m, t2) == Some(Err::<Seq<Seq<SpecMajorType>>, CborError>(e)));
    lemma_union_err_propagates(m, sels, k + 1);
}

pub proof fn lemma_range_children_step(r: SpecRecursiveType, idx: u64, end: u64)
    requires
        idx < end,
        range_children(r, idx, end) is Some,
    ensures
        spec_child(r, idx as usize) is Some,
        spec_child(r, idx as usize).unwrap() is Ok ==> range_children(r, (idx + 1) as u64, end) is Some,
{
}

/// No range of the selector, at any depth, ends before it starts (where selecting would panic).
pub open spec fn ranges_ordered(sel: Selector) -> bool
    decreases sel,
{
    match sel {
        Selector::Matcher(_) => true,
        Selector::ExploreIndex(ei) => ranges_ordered(*ei.next),
        Selector::ExploreRange(er) => er.start <= er.end,
        Selector::ExploreUnion(eu) => forall|j: int| 0 <= j < eu.0@.len() ==> ranges_ordered(#[trigger] eu.0@[j]),
    }
}

proof fn lemma_range_children_defined(r: SpecRecursiveType, idx: u64, end: u64)
    requires r.elements.len() == r.nbr_elements,
    ensures range_children(r, idx, end) is Some,
    decreases end - idx,
{
    if idx < end {
        lemma_range_children_defined(r, (idx + 1) as u64, end);
    }
}

/// Selecting in a structure whose arrays and maps hold all their announced elements is defined
/// for every selector whose ranges are ordered: it gives data sets or an error, and never panics.
pub proof fn law_selection_defined(m: SpecMajorType, sel: Selector)
    requires spec_complete(m), ranges_ordered(sel),
    ensures spec_select(m, sel) is Some,
    decreases sel, 1nat,
{
    match sel {
        Selector::Matcher(_) => {},
        Selector::ExploreIndex(ei) => {
            match recursive_of(m) {
                None => {},
                Some(r) => {
                    let i = ei.index as usize;
                    if !(r.nbr_elements == 0 || r.nbr_elements - 1 < i) {
                        assert(spec_complete(r.elements[i as int]));
                        law_selection_defined(r.elements[i as int], *ei.next);
                    }
                },
            }
        },
        Selector::ExploreRange(er) => {
            match recursive_of(m) {
                None => {},
                Some(r) => lemma_range_children_defined(r, er.start, er.end),
            }
        },
        Selector::ExploreUnion(eu) => lemma_union_defined(m, eu.0@, sel),
    }
}

proof fn lemma_union_defined(m: SpecMajorType, sels: Seq<Selector>, parent: Selector)
    requires
        spec_complete(m),
        forall|j: int| 0 <= j < sels.len() ==> ranges_ordered(#[trigger] sels[j]),
        forall|j: int| 0 <= j < sels.len() ==> decreases_to!(parent => #[trigger] sels[j]),
    ensures union_select(m, sels) is Some,
    decreases parent, 0nat, sels.len(),
{
    if sels.len() > 0 {
        let d = sels.drop_last();
        assert forall|j: int| 0 <= j < d.len() implies ranges_ordered(#[trigger] d[j]) && decreases_to!(parent => d[j]) by {
            assert(d[j] == sels[j]);
            assert(ranges_ordered(sels[j]));
            assert(decreases_to!(parent => sels[j]));
        }
        lemma_union_defined(m, d, parent);
        let last = sels[sels.len() - 1];
        assert(ranges_ordered(last));
        assert(decreases_to!(parent => last));
        law_selection_defined(m, last);
    }
}

/// Selecting an index in a structure: an error for a scalar or an index past the announced
/// elements, else the selection of the rest of the selector in the child at that index.
pub proof fn law_index_selection(m: SpecMajorType, ei: ExploreIndex)
    requires spec_complete(m),
    ensures
        spec_select(m, Selector::ExploreIndex(Box::new(ei))) == (match recursive_of(m) {
            None => Some(Err::<Seq<Seq<SpecMajorType>>, CborError>(CborError::Parse(ParseError::MajorTypeNonRecursive))),
            Some(r) => if (ei.index as usize) >= r.nbr_elements {
                Some(Err::<Seq<Seq<SpecMajorType>>, CborError>(CborError::Selector(SelectorError::NoNodeFound)))
            } else {
                spec_select(r.elements[ei.index as usize as int], *ei.next)
            },
        }),
{
}

proof fn lemma_range_children(r: SpecRecursiveType, idx: u64, end: u64)
    requires
        r.elements.len() == r.nbr_elements,
        idx <= end,
        end <= usize::MAX,
    ensures
        range_children(r, idx, end) == (if idx == end {
            Some(Ok::<Seq<SpecMajorType>, SelectorError>(Seq::empty()))
        } else if end > r.nbr_elements {
            Some(Err::<Seq<SpecMajorType>, SelectorError>(SelectorError::NoNodeFound))
        } else {
            Some(Ok::<Seq<SpecMajorType>, SelectorError>(r.elements.subrange(idx as int, end as int)))
        }),
    decreases end - idx,
{
    if idx < end {
        lemma_range_children(r, (idx + 1) as u64, end);
        assert(idx as usize == idx);
        if idx < r.nbr_elements {
            if idx + 1 == end {
                assert(seq![r.elements[idx as int]] + Seq::<SpecMajorType>::empty() =~= r.elements.subrange(idx as int, end as int));
            } else if end <= r.nbr_elements {
                assert(seq![r.elements[idx as int]] + r.elements.subrange(idx + 1, end as int) =~= r.elements.subrange(idx as int, end as int));
            }
        }
    }
}

/// Selecting a range of a complete major type: a range whose next selector is not a matcher is
/// refused; a scalar has no elements to select; an empty range selects one empty data set; a
/// range reaching past the announced elements finds no node; any other range selects one data
/// set made of the elements at its indices, in order.
pub proof fn law_range_selection(m: SpecMajorType, er: ExploreRange)
    requires
        spec_complete(m),
        er.start <= er.end,
        er.end <= usize::MAX,
    ensures
        spec_select(m, Selector::ExploreRange(Box::new(er))) == (if !(*er.next is Matcher) {
            Some(Err::<Seq<Seq<SpecMajorType>>, CborError>(CborError::Selector(SelectorError::NonValidSelectorStructure)))
        } else {
            match recursive_of(m) {
                None => Some(Err::<Seq<Seq<SpecMajorType>>, CborError>(CborError::Parse(ParseError::MajorTypeNonRecursive))),
                Some(r) => if er.start == er.end {
                    Some(Ok::<Seq<Seq<SpecMajorType>>, CborError>(seq![Seq::empty()]))
                } else if er.end > r.nbr_elements {
                    Some(Err::<Seq<Seq<SpecMajorType>>, CborError>(CborError::Selector(SelectorError::NoNodeFound)))
                } else {
                    Some(Ok::<Seq<Seq<SpecMajorType>>, CborError>(seq![r.elements.subrange(er.start as int, er.end as int)]))
                },
            }
        }),
{
    match recursive_of(m) {
        Some(r) => { lemma_range_children(r, er.start, er.end); },
        None => {},
    }
}

impl MajorType {
    /// Find major types by using a selector. The result is a list of data set descriptions: a
    /// union of selectors gives one data set per member, and each data set holds one or several
    /// major types.
    pub fn select(&self, selector: &Selector) -> (res: Result<Vec<Vec<MajorType>>, CborError>)
        requires spec_select(self@, *selector) is Some,
        ensures
            match spec_select(self@, *selector).unwrap() {
                Ok(sets) => res is Ok && view_sets(res->Ok_0@) == sets,
                Err(e) => res == Err::<Vec<Vec<MajorType>>, CborError>(e),
            },
        decreases selector,
    {
        match selector {
            Selector::Matcher(_) => {
                let c = self.copy_tree();
                let mut inner: Vec<MajorType> = Vec::new();
                inner.push(c);
                let mut outer: Vec<Vec<MajorType>> = Vec::new();
                outer.push(inner);
                proof {
                    lemma_view_seq_push(Seq::empty(), c);
                    assert(Seq::<MajorType>::empty().push(c) =~= inner@);
                    assert(view_sets(outer@) =~= seq![seq![self@]]);
                }
                Ok(outer)
            }
            Selector::ExploreIndex(explore_index) => match self {
                MajorType::Array(recursive_type) => select_index(recursive_type, explore_index),
                MajorType::Mapping(recursive_type) => select_index(recursive_type, explore_index),
                _ => Err(CborError::Parse(ParseError::MajorTypeNonRecursive)),
            },
            Selector::ExploreRange(explore_range) => {
                // After a range we expect a matcher, otherwise error
                if !explore_range.next.is_matcher() {
                    return Err(CborError::Selector(SelectorError::NonValidSelectorStructure));
                }
                let _capacity = explore_range.end - explore_range.start;
                match self {
                    MajorType::Array(recursive_type) => select_range(recursive_type, explore_range),
                    MajorType::Mapping(recursive_type) => select_range(recursive_type, explore_range),
                    _ => Err(CborError::Parse(ParseError::MajorTypeNonRecursive)),
                }
            }
            Selector::ExploreUnion(explore_union) => {
                let selectors = &explore_union.0;
                let mut selectors_results: Vec<Vec<MajorType>> = Vec::new();
                let mut i: usize = 0;
                proof {
                    assert(selectors@.take(0) =~= Seq::<Selector>::empty());
                    assert(view_sets(selectors_results@) =~= Seq::<Seq<SpecMajorType>>::empty());
                }
                while i < selectors.len()
                    invariant
                        i <= selectors.len(),
                        *selector is ExploreUnion,
                        selectors == selector->ExploreUnion_0.0,
                        union_select(self@, selectors@) is Some,
                        union_select(self@, selectors@.take(i as int)) == Some(Ok::<Seq<Seq<SpecMajorType>>, CborError>(view_sets(selectors_results@))),
                        spec_select(self@, *selector) == union_select(self@, selectors@),
                    decreases selectors.len() - i,
                {
                    proof {
                        lemma_union_prefix(self@, selectors@, i as int);
                        assert(selectors@.take(i + 1).drop_last() =~= selectors@.take(i as int));
                        assert(selectors@.take(i + 1).last() == selectors@[i as int]);
                    }
                    proof {
                        assert(decreases_to!(selector->ExploreUnion_0.0 => selectors[i as int]));
                    }
                    let mut r = self.select(&selectors[i]);
                    match r {
                        Err(e) => {
                            proof { lemma_union_err_propagates(self@, selectors@, i + 1); }
                            return Err(e);
                        }
                        Ok(mut sets) => {
                            let ghost prev = selectors_results@;
                            let ghost added = sets@;
                            selectors_results.append(&mut sets);
                            proof {
                                assert(selectors_results@ == prev + added);
                                assert(view_sets(selectors_results@) =~= view_sets(prev) + view_sets(added));
                            }
                        }
                    }
                    i = i + 1;
                }
                proof { assert(selectors@.take(i as int) =~= selectors@); }
                Ok(selectors_results)
            }
        }
    }
}

fn select_index(recursive_type: &RecursiveType, explore_index: &ExploreIndex) -> (res: Result<Vec<Vec<MajorType>>, CborError>)
    requires
        spec_child(recursive_type@, explore_index.index as usize) is Some,
        spec_child(recursive_type@, explore_index.index as usize).unwrap() is Ok ==>
            spec_select(spec_child(recursive_type@, explore_index.index as usize).unwrap()->Ok_0, *explore_index.next) is Some,
    ensures
        match spec_child(recursive_type@, explore_index.index as usize).unwrap() {
            Err(e) => res == Err::<Vec<Vec<MajorType>>, CborError>(CborError::Selector(e)),
            Ok(c) => match spec_select(c, *explore_index.next).unwrap() {
                Ok(sets) => res is Ok && view_sets(res->Ok_0@) == sets,
                Err(e) => res == Err::<Vec<Vec<MajorType>>, CborError>(e),
            },
        },
    decreases explore_index,
{
    let major_type = recursive_type.child(explore_index.index as usize)?;
    major_type.select(&explore_index.next)
}

fn select_range(recursive_type: &RecursiveType, explore_range: &ExploreRange) -> (res: Result<Vec<Vec<MajorType>>, CborError>)
    requires
        explore_range.start <= explore_range.end,
        range_children(recursive_type@, explore_range.start, explore_range.end) is Some,
    ensures
        match range_children(recursive_type@, explore_range.start, explore_range.end).unwrap() {
            Err(e) => res == Err::<Vec<Vec<MajorType>>, CborError>(CborError::Selector(e)),
            Ok(cs) => res is Ok && view_sets(res->Ok_0@) == seq![cs],
        },
{
    let mut selected_major_types: Vec<MajorType> = Vec::new();
    let mut index: u64 = explore_range.start;
    while index < explore_range.end
        invariant
            explore_range.start <= index <= explore_range.end,
            range_children(recursive_type@, index, explore_range.end) is Some,
            range_children(recursive_type@, explore_range.start, explore_range.end) ==
                match range_children(recursive_type@, index, explore_range.end).unwrap() {
                    Err(e) => Some(Err::<Seq<SpecMajorType>, SelectorError>(e)),
                    Ok(rest) => Some(Ok(view_seq(selected_major_types@) + rest)),
                },
        decreases explore_range.end - index,
    {
        proof { lemma_range_children_step(recursive_type@, index, explore_range.end); }
        let major_type = recursive_type.child(index as usize)?;
        let c = major_type.copy_tree();
        proof {
            lemma_view_seq_push(selected_major_types@, c);
            let rest = range_children(recursive_type@, (index + 1) as u64, explore_range.end).unwrap();
            if rest is Ok {
                assert(view_seq(selected_major_types@) + (seq![c@] + rest->Ok_0) =~= view_seq(selected_major_types@).push(c@) + rest->Ok_0);
            }
        }
        selected_major_types.push(c);
        index = index + 1;
    }
    proof { assert(view_seq(selected_major_types@) + Seq::<SpecMajorType>::empty() =~= view_seq(selected_major_types@)); }
    let mut outer: Vec<Vec<MajorType>> = Vec::new();
    outer.push(selected_major_types);
    proof { assert(view_sets(outer@) =~= seq![view_seq(selected_major_types@)]); }
    Ok(outer)
}

} // verus!
