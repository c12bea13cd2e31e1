//! Holium CBOR data: reading its structure, selecting parts of it, and copying selected parts
//! into new Holium CBOR data.
use vstd::prelude::*;
use crate::cbor_errors::{CborError, WriteError};
use crate::cbor_read::{spec_read_header, spec_complete_cbor_structure, complete_cbor_structure, retrieve_cbor_in_reader,
    retrieve_defined, spec_retrieve_result, view_data_sets};
use crate::cbor_write::{HoliumCborNode, SpecNode, SpecNodeData, spec_ingest, spec_generate, view_data_set};
use crate::major_type::{MajorType, SpecMajorType, spec_select, view_sets};
use crate::selector::{Selector, SelectorEnvelope};

verus! {

broadcast use vstd::std_specs::vec::group_vec_axioms;

/// Holium CBOR serialized data.
pub type HoliumCbor = Vec<u8>;

/// The data sets a selector picks in Holium CBOR data, as structures; `None` where the
/// selection would panic.
pub open spec fn spec_select_cbor_structure(s: Seq<u8>, sel: Selector) -> Option<Result<Seq<Seq<SpecMajorType>>, CborError>> {
    match spec_complete_cbor_structure(s) {
        Err(e) => Some(Err(CborError::Parse(e))),
        Ok(m) => spec_select(m, sel),
    }
}

/// The data sets a selector picks in Holium CBOR data, as bytes; `None` where the selection
/// would panic.
pub open spec fn spec_select_cbor(s: Seq<u8>, sel: Selector) -> Option<Result<Seq<Seq<Seq<u8>>>, CborError>> {
    match spec_select_cbor_structure(s, sel) {
        None => None,
        Some(Err(e)) => Some(Err(e)),
        Some(Ok(sets)) => if retrieve_defined(sets) { Some(spec_retrieve_result(s, sets)) } else { None },
    }
}

/// The root of a tree under construction.
pub open spec fn spec_root_node() -> SpecNode {
    SpecNode::NonLeaf { index: None, data: SpecNodeData::Children(Seq::empty()) }
}

/// Ingest data sets `i..`, each placed by the selector of the same position.
pub open spec fn spec_union_ingest(n: SpecNode, sels: Seq<Selector>, sets: Seq<Seq<Seq<u8>>>, i: nat)
    -> Option<Result<SpecNode, CborError>>
    decreases sets.len() - i,
{
    if i >= sets.len() {
        Some(Ok(n))
    } else if i >= sels.len() {
        None
    } else {
        match spec_ingest(n, sels[i as int], sets[i as int]) {
            None => None,
            Some(Err(e)) => Some(Err(e)),
            Some(Ok(n2)) => spec_union_ingest(n2, sels, sets, i + 1),
        }
    }
}

/// The tree built from the data sets selected by `tail` in `s`, placed as `head` designates: where
/// both are unions of as many selectors, data set `j` is placed by the `j`-th selector of `head`.
pub open spec fn spec_build_tree(sets: Seq<Seq<Seq<u8>>>, tail: Selector, head: Selector) -> Option<Result<SpecNode, CborError>> {
    match head {
        Selector::ExploreUnion(head_union) => match tail {
            Selector::ExploreUnion(tail_union) => if tail_union.0@.len() != head_union.0@.len() {
                Some(Err(CborError::Write(WriteError::DifferentUnionLength)))
            } else {
                spec_union_ingest(spec_root_node(), head_union.0@, sets, 0)
            },
            _ => Some(Err(CborError::Write(WriteError::NonCompatibleSelectors))),
        },
        _ => if sets.len() == 0 {
            Some(Err(CborError::Write(WriteError::NoDataInDataSet)))
        } else {
            spec_ingest(spec_root_node(), head, sets[0])
        },
    }
}

/// New Holium CBOR data holding the parts of `s` that `tail` selects, placed as `head`
/// designates; `None` where the copy would panic.
pub open spec fn spec_copy_cbor(s: Seq<u8>, tail: Selector, head: Selector) -> Option<Result<Seq<u8>, CborError>> {
    match spec_select_cbor(s, tail) {
        None => None,
        Some(Err(e)) => Some(Err(e)),
        Some(Ok(sets)) => match spec_build_tree(sets, tail, head) {
            None => None,
            Some(Err(e)) => Some(Err(e)),
            Some(Ok(n)) => match spec_generate(n) {
                None => None,
                Some(Err(e)) => Some(Err(CborError::Write(e))),
                Some(Ok(b)) => Some(Ok(b)),
            },
        },
    }
}

/// Select part of a Holium CBOR serialized object using a selector.
pub fn select_cbor_structure(s: &[u8], selector_envelope: &SelectorEnvelope) -> (r: Result<Vec<Vec<MajorType>>, CborError>)
    requires spec_select_cbor_structure(s@, selector_envelope.0) is Some,
    ensures
        match spec_select_cbor_structure(s@, selector_envelope.0).unwrap() {
            Ok(sets) => r is Ok && view_sets(r->Ok_0@) == sets,
            Err(e) => r == Err::<Vec<Vec<MajorType>>, CborError>(e),
        },
{
    let major_type = match complete_cbor_structure(s) {
        Err(e) => return Err(CborError::Parse(e)),
        Ok(m) => m,
    };
    major_type.select(&selector_envelope.0)
}

/// Fetch the cbor data of the parts of a Holium CBOR serialized object that a selector picks.
pub fn select_cbor(s: &[u8], selector_envelope: &SelectorEnvelope) -> (r: Result<Vec<Vec<Vec<u8>>>, CborError>)
    requires spec_select_cbor(s@, selector_envelope.0) is Some,
    ensures
        match spec_select_cbor(s@, selector_envelope.0).unwrap() {
            Ok(sets) => r is Ok && view_data_sets(r->Ok_0@) == sets,
            Err(e) => r == Err::<Vec<Vec<Vec<u8>>>, CborError>(e),
        },
{
    let select_cbor_structure = select_cbor_structure(s, selector_envelope)?;
    retrieve_cbor_in_reader(s, select_cbor_structure.as_slice())
}

proof fn lemma_data_sets_view(v: Seq<Vec<Vec<u8>>>, i: int)
    requires 0 <= i < v.len(),
    ensures view_data_set(v[i]@) == view_data_sets(v)[i],
{
    assert(view_data_set(v[i]@) =~= view_data_sets(v)[i]);
}

/// Copy the parts of `source_data` that `tail_selector` picks into new Holium CBOR data, placing
/// them where `head_selector` designates.
pub fn copy_cbor(source_data: &[u8], tail_selector: &SelectorEnvelope, head_selector: &SelectorEnvelope)
    -> (r: Result<Vec<u8>, CborError>)
    requires spec_copy_cbor(source_data@, tail_selector.0, head_selector.0) is Some,
    ensures
        match spec_copy_cbor(source_data@, tail_selector.0, head_selector.0).unwrap() {
            Ok(b) => r is Ok && r->Ok_0@ == b,
            Err(e) => r == Err::<Vec<u8>, CborError>(e),
        },
{
    let selected_cbor = select_cbor(source_data, tail_selector)?;
    let ghost sets = view_data_sets(selected_cbor@);
    let mut holium_cbor_constructor = HoliumCborNode::new();
    // If head selector a union, check that tail selector is also one with the same number of
    // selectors
    match &head_selector.0 {
        Selector::ExploreUnion(receiver_union) => match &tail_selector.0 {
            Selector::ExploreUnion(source_union) => {
                if source_union.0.len() != receiver_union.0.len() {
                    return Err(CborError::Write(WriteError::DifferentUnionLength));
                }
                let mut i: usize = 0;
                while i < selected_cbor.len()
                    invariant
                        i <= selected_cbor.len(),
                        sets == view_data_sets(selected_cbor@),
                        spec_select_cbor(source_data@, tail_selector.0) == Some(Ok::<Seq<Seq<Seq<u8>>>, CborError>(sets)),
                        spec_build_tree(sets, tail_selector.0, head_selector.0) == spec_union_ingest(spec_root_node(), receiver_union.0@, sets, 0),
                        spec_union_ingest(spec_root_node(), receiver_union.0@, sets, 0)
                            == spec_union_ingest(holium_cbor_constructor@, receiver_union.0@, sets, i as nat),
                        spec_union_ingest(holium_cbor_constructor@, receiver_union.0@, sets, i as nat) is Some,
                    decreases selected_cbor.len() - i,
                {
                    proof { lemma_data_sets_view(selected_cbor@, i as int); }
                    holium_cbor_constructor.ingest(&receiver_union.0[i], selected_cbor[i].as_slice())?;
                    i = i + 1;
                }
            }
            _ => return Err(CborError::Write(WriteError::NonCompatibleSelectors)),
        },
        _ => {
            if selected_cbor.len() == 0 {
                return Err(CborError::Write(WriteError::NoDataInDataSet));
            }
            proof { lemma_data_sets_view(selected_cbor@, 0); }
            holium_cbor_constructor.ingest(&head_selector.0, selected_cbor[0].as_slice())?;
        }
    }
    match holium_cbor_constructor.generate_cbor() {
        Ok(b) => Ok(b),
        Err(e) => Err(CborError::Write(e)),
    }
}

/// Types holding Holium CBOR data that can be read and selected from.
pub trait AsHoliumCbor {
    spec fn holium_cbor_view(&self) -> Seq<u8>;

    /// The serialized Holium CBOR data.
    fn holium_bytes(&self) -> (r: &[u8])
        ensures r@ == self.holium_cbor_view();

    /// Give the entire description of a Holium CBOR serialized object.
    fn complete_cbor_structure(&self) -> (r: Result<MajorType, CborError>)
        ensures
            match spec_complete_cbor_structure(self.holium_cbor_view()) {
                Ok(m) => r is Ok && r->Ok_0@ == m,
                Err(e) => r == Err::<MajorType, CborError>(CborError::Parse(e)),
            },
    {
        match complete_cbor_structure(self.holium_bytes()) {
            Ok(m) => Ok(m),
            Err(e) => Err(CborError::Parse(e)),
        }
    }

    /// Select part of a Holium CBOR serialized object using a selector.
    fn select_cbor_structure(&self, selector_envelope: &SelectorEnvelope) -> (r: Result<Vec<Vec<MajorType>>, CborError>)
        requires spec_select_cbor_structure(self.holium_cbor_view(), selector_envelope.0) is Some,
        ensures
            match spec_select_cbor_structure(self.holium_cbor_view(), selector_envelope.0).unwrap() {
                Ok(sets) => r is Ok && view_sets(r->Ok_0@) == sets,
                Err(e) => r == Err::<Vec<Vec<MajorType>>, CborError>(e),
            },
    {
        select_cbor_structure(self.holium_bytes(), selector_envelope)
    }

    /// Fetch the cbor data of the parts that a selector picks.
    fn select_cbor(&self, selector_envelope: &SelectorEnvelope) -> (r: Result<Vec<Vec<Vec<u8>>>, CborError>)
        requires spec_select_cbor(self.holium_cbor_view(), selector_envelope.0) is Some,
        ensures
            match spec_select_cbor(self.holium_cbor_view(), selector_envelope.0).unwrap() {
                Ok(sets) => r is Ok && view_data_sets(r->Ok_0@) == sets,
                Err(e) => r == Err::<Vec<Vec<Vec<u8>>>, CborError>(e),
            },
    {
        select_cbor(self.holium_bytes(), selector_envelope)
    }
}

impl AsHoliumCbor for HoliumCbor {
    open spec fn holium_cbor_view(&self) -> Seq<u8> {
        self@
    }

    fn holium_bytes(&self) -> (r: &[u8]) {
        self.as_slice()
    }
}

/// Types able to receive Holium CBOR data copied from another Holium CBOR value.
pub trait WriteHoliumCbor {
    /// Copy the parts of `source_data` that `tail_selector` picks into new Holium CBOR data,
    /// placing them where `head_selector` designates.
    fn copy_cbor<H: AsHoliumCbor>(&self, source_data: H, tail_selector: &SelectorEnvelope, head_selector: &SelectorEnvelope)
        -> (r: Result<Vec<u8>, CborError>)
        requires spec_copy_cbor(source_data.holium_cbor_view(), tail_selector.0, head_selector.0) is Some,
        ensures
            match spec_copy_cbor(source_data.holium_cbor_view(), tail_selector.0, head_selector.0).unwrap() {
                Ok(b) => r is Ok && r->Ok_0@ == b,
                Err(e) => r == Err::<Vec<u8>, CborError>(e),
            },
    {
        copy_cbor(source_data.holium_bytes(), tail_selector, head_selector)
    }
}

impl WriteHoliumCbor for HoliumCbor {
}

/// Reading the structure of Holium CBOR data panics where its root array header reads but one
/// of its elements does not.
pub open spec fn spec_parse_panics(s: Seq<u8>) -> bool {
    &&& spec_read_header(s, 0) is Ok
    &&& spec_read_header(s, 0)->Ok_0 is Array
    &&& spec_complete_cbor_structure(s) is Err
}

/// Types holding Holium CBOR data that can be read and selected from, reading the elements of
/// the root array without recovering from an error in them.
pub trait ParseHoliumCbor {
    spec fn parse_view(&self) -> Seq<u8>;

    /// The serialized Holium CBOR data.
    fn parse_bytes(&self) -> (r: &[u8])
        ensures r@ == self.parse_view();

    /// Give the entire description of a Holium CBOR serialized object.
    fn complete_cbor_structure(&self) -> (r: Result<MajorType, CborError>)
        requires !spec_parse_panics(self.parse_view()),
        ensures
            match spec_complete_cbor_structure(self.parse_view()) {
                Ok(m) => r is Ok && r->Ok_0@ == m,
                Err(e) => r == Err::<MajorType, CborError>(CborError::Parse(e)),
            },
    {
        match complete_cbor_structure(self.parse_bytes()) {
            Ok(m) => Ok(m),
            Err(e) => Err(CborError::Parse(e)),
        }
    }

    /// Select part of a Holium CBOR serialized object using a selector.
    fn select_cbor_structure(&self, selector_envelope: &SelectorEnvelope) -> (r: Result<Vec<Vec<MajorType>>, CborError>)
        requires
            !spec_parse_panics(self.parse_view()),
            spec_select_cbor_structure(self.parse_view(), selector_envelope.0) is Some,
        ensures
            match spec_select_cbor_structure(self.parse_view(), selector_envelope.0).unwrap() {
                Ok(sets) => r is Ok && view_sets(r->Ok_0@) == sets,
                Err(e) => r == Err::<Vec<Vec<MajorType>>, CborError>(e),
            },
    {
        select_cbor_structure(self.parse_bytes(), selector_envelope)
    }

    /// Fetch the cbor data of the parts that a selector picks.
    fn select_cbor(&self, selector_envelope: &SelectorEnvelope) -> (r: Result<Vec<Vec<Vec<u8>>>, CborError>)
        requires
            !spec_parse_panics(self.parse_view()),
            spec_select_cbor(self.parse_view(), selector_envelope.0) is Some,
        ensures
            match spec_select_cbor(self.parse_view(), selector_envelope.0).unwrap() {
                Ok(sets) => r is Ok && view_data_sets(r->Ok_0@) == sets,
                Err(e) => r == Err::<Vec<Vec<Vec<u8>>>, CborError>(e),
            },
    {
        select_cbor(self.parse_bytes(), selector_envelope)
    }
}

impl ParseHoliumCbor for HoliumCbor {
    open spec fn parse_view(&self) -> Seq<u8> {
        self@
    }

    fn parse_bytes(&self) -> (r: &[u8]) {
        self.as_slice()
    }
}

} // verus!
