//! Building new Holium CBOR data from data sets picked by selectors.
use vstd::prelude::*;
use crate::cbor_errors::{CborError, SelectorError, WriteError};
use crate::cbor_read::{spec_array_header, generate_array_cbor_header};
use crate::selector::{Selector, ExploreIndex, ExploreRange};

verus! {

broadcast use vstd::std_specs::vec::group_vec_axioms;

/// A leaf of a Holium CBOR tree under construction: ready cbor data at an index.
pub struct ScalarNode {
    pub index: u64,
    pub data: Vec<u8>,
}

/// What a non-leaf node holds: either ready cbor data, or children still to be assembled.
pub enum NodeData {
    Cbor(Vec<u8>),
    Children(Vec<HoliumCborNode>),
}

/// A non-leaf node of a Holium CBOR tree under construction.
pub struct RecursiveNode {
    pub index: Option<u64>,
    pub data: NodeData,
}

/// Utility structure to create a Holium CBOR object at a later time.
pub enum HoliumCborNode {
    Leaf(ScalarNode),
    NonLeaf(RecursiveNode),
}

/// Mathematical model of a [`HoliumCborNode`].
pub enum SpecNode {
    Leaf { index: u64, data: Seq<u8> },
    NonLeaf { index: Option<u64>, data: SpecNodeData },
}

/// Mathematical model of a [`NodeData`].
pub enum SpecNodeData {
    Cbor(Seq<u8>),
    Children(Seq<SpecNode>),
}

pub open spec fn view_nodes(s: Seq<HoliumCborNode>) -> Seq<SpecNode>
    decreases s,
{
    if s.len() == 0 {
        Seq::empty()
    } else {
        view_nodes(s.drop_last()).push(view_node(s.last()))
    }
}

pub open spec fn view_node_data(d: NodeData) -> SpecNodeData
    decreases d,
{
    match d {
        NodeData::Cbor(b) => SpecNodeData::Cbor(b@),
        NodeData::Children(cs) => SpecNodeData::Children(view_nodes(cs@)),
    }
}

pub open spec fn view_node(n: HoliumCborNode) -> SpecNode
    decreases n,
{
    match n {
        HoliumCborNode::Leaf(l) => SpecNode::Leaf { index: l.index, data: l.data@ },
        HoliumCborNode::NonLeaf(r) => SpecNode::NonLeaf { index: r.index, data: view_node_data(r.data) },
    }
}

impl View for HoliumCborNode {
    type V = SpecNode;

    open spec fn view(&self) -> SpecNode {
        view_node(*self)
    }
}

pub proof fn lemma_view_nodes(s: Seq<HoliumCborNode>)
    ensures
        view_nodes(s).len() == s.len(),
        forall|i: int| 0 <= i < s.len() ==> #[trigger] view_nodes(s)[i] == view_node(s[i]),
    decreases s.len(),
{
    if s.len() > 0 {
        lemma_view_nodes(s.drop_last());
    }
}

pub proof fn lemma_view_nodes_push(s: Seq<HoliumCborNode>, x: HoliumCborNode)
    ensures view_nodes(s.push(x)) == view_nodes(s).push(view_node(x)),
{
    assert(s.push(x).drop_last() =~= s);
}

pub open spec fn spec_get_index(n: SpecNode) -> Option<u64> {
    match n {
        SpecNode::NonLeaf { index, .. } => index,
        SpecNode::Leaf { index, .. } => Some(index),
    }
}

/// Whether a child has the index `index`; an error if some child has no index at all.
pub open spec fn spec_has_child(cs: Seq<SpecNode>, index: usize) -> Result<bool, WriteError> {
    if exists|i: int| 0 <= i < cs.len() && (#[trigger] spec_get_index(cs[i])) is None {
        Err(WriteError::NoIndexOnChild)
    } else {
        Ok(exists|i: int| 0 <= i < cs.len() && (#[trigger] spec_get_index(cs[i])).unwrap() as usize == index)
    }
}

/// Position of the first child with index `index`, scanning from position `k`.
pub open spec fn spec_find_child(cs: Seq<SpecNode>, index: usize, k: int) -> Result<int, WriteError>
    decreases cs.len() - k,
{
    if k >= cs.len() || k < 0 {
        Err(WriteError::NoNodeAtIndex)
    } else {
        match spec_get_index(cs[k]) {
            None => Err(WriteError::NoIndexOnChild),
            Some(i) => if i as usize == index { Ok(k) } else { spec_find_child(cs, index, k + 1) },
        }
    }
}

/// The children after pushing `child`, which must have a free index.
pub open spec fn spec_push_child(data: SpecNodeData, child: SpecNode) -> Result<Seq<SpecNode>, WriteError> {
    match spec_get_index(child) {
        None => Err(WriteError::NoIndexOnChild),
        Some(i) => match data {
            SpecNodeData::Cbor(_) => Err(WriteError::ExpectedChildrenForRecursiveType),
            SpecNodeData::Children(cs) => match spec_has_child(cs, i as usize) {
                Err(e) => Err(e),
                Ok(true) => Err(WriteError::IndexAlreadyTaken),
                Ok(false) => Ok(cs.push(child)),
            },
        },
    }
}

impl HoliumCborNode {
    /// A new empty non-leaf node, with no index.
    pub fn new() -> (r: Self)
        ensures r@ == (SpecNode::NonLeaf { index: None, data: SpecNodeData::Children(Seq::empty()) }),
    {
        let r = HoliumCborNode::NonLeaf(RecursiveNode { index: None, data: NodeData::Children(Vec::new()) });
        proof { assert(view_nodes(Seq::<HoliumCborNode>::empty()) =~= Seq::empty()); }
        r
    }

    pub fn get_index(&self) -> (r: Option<u64>)
        ensures r == spec_get_index(self@),
    {
        match self {
            HoliumCborNode::NonLeaf(node) => node.index,
            HoliumCborNode::Leaf(leaf) => Some(leaf.index),
        }
    }

    pub fn is_node(&self) -> (r: bool)
        ensures r == (self@ is NonLeaf),
    {
        match self {
            HoliumCborNode::NonLeaf(_) => true,
            _ => false,
        }
    }
}

impl RecursiveNode {
    /// Whether the node has a child with the given index.
    pub fn has_child(&self, index: usize) -> (r: Result<bool, WriteError>)
        ensures
            match view_node_data(self.data) {
                SpecNodeData::Cbor(_) => r == Err::<bool, WriteError>(WriteError::ExpectedChildrenForRecursiveType),
                SpecNodeData::Children(cs) => r == spec_has_child(cs, index),
            },
    {
        match &self.data {
            NodeData::Children(children) => {
                proof {
                    lemma_view_nodes(children@);
                    assert(view_node_data(self.data) == SpecNodeData::Children(view_nodes(children@)));
                }
                let ghost cs = view_nodes(children@);
                let mut has_child = false;
                let mut i: usize = 0;
                while i < children.len()
                    invariant
                        i <= children.len(),
                        cs == view_nodes(children@),
                        view_node_data(self.data) == SpecNodeData::Children(cs),
                        cs.len() == children.len(),
                        forall|j: int| 0 <= j < children.len() ==> #[trigger] cs[j] == view_node(children@[j]),
                        forall|j: int| 0 <= j < i ==> (#[trigger] spec_get_index(cs[j])) is Some,
                        has_child == exists|j: int| 0 <= j < i && (#[trigger] spec_get_index(cs[j])).unwrap() as usize == index,
                    decreases children.len() - i,
                {
                    let c = &children[i];
                    let ci_opt = c.get_index();
                    proof { assert(cs[i as int] == c@); }
                    match ci_opt {
                        None => {
                            proof {
                                assert(spec_get_index(cs[i as int]) is None);
                                assert(exists|j: int| 0 <= j < cs.len() && (#[trigger] spec_get_index(cs[j])) is None);
                                assert(spec_has_child(cs, index) == Err::<bool, WriteError>(WriteError::NoIndexOnChild));
                            }
                            return Err(WriteError::NoIndexOnChild);
                        }
                        Some(ci) => {
                            let ghost old_has = has_child;
                            if ci as usize == index {
                                has_child = true;
                            }
                            proof {
                                assert(has_child == (old_has || spec_get_index(cs[i as int]).unwrap() as usize == index));
                                assert(has_child == exists|j: int| 0 <= j < i + 1 && (#[trigger] spec_get_index(cs[j])).unwrap() as usize == index) by {
                                    if has_child && !old_has {
                                        assert(spec_get_index(cs[i as int]).unwrap() as usize == index);
                                    }
                                    if !has_child {
                                        assert forall|j: int| 0 <= j < i + 1 implies !((#[trigger] spec_get_index(cs[j])).unwrap() as usize == index) by {
                                            if j < i {
                                                assert(!(exists|j2: int| 0 <= j2 < i && (#[trigger] spec_get_index(cs[j2])).unwrap() as usize == index));
                                            }
                                        }
                                    }
                                }
                            }
                        }
                    }
                    i = i + 1;
                }
                Ok(has_child)
            }
            _ => Err(WriteError::ExpectedChildrenForRecursiveType),
        }
    }

    /// Position of the child with the given index.
    pub fn child_position(&self, index: usize) -> (r: Result<usize, WriteError>)
        ensures
            match view_node_data(self.data) {
                SpecNodeData::Cbor(_) => r == Err::<usize, WriteError>(WriteError::ExpectedChildrenForRecursiveType),
                SpecNodeData::Children(cs) => match spec_find_child(cs, index, 0) {
                    Ok(k) => r is Ok && r->Ok_0 as int == k && 0 <= k < cs.len(),
                    Err(e) => r == Err::<usize, WriteError>(e),
                },
            },
    {
        match &self.data {
            NodeData::Children(children) => {
                proof {
                    lemma_view_nodes(children@);
                    assert(view_node_data(self.data) == SpecNodeData::Children(view_nodes(children@)));
                }
                let ghost cs = view_nodes(children@);
                let mut i: usize = 0;
                while i < children.len()
                    invariant
                        i <= children.len(),
                        cs == view_nodes(children@),
                        view_node_data(self.data) == SpecNodeData::Children(cs),
                        cs.len() == children.len(),
                        forall|j: int| 0 <= j < children.len() ==> #[trigger] cs[j] == view_node(children@[j]),
                        spec_find_child(cs, index, 0) == spec_find_child(cs, index, i as int),
                    decreases children.len() - i,
                {
                    let ci_opt = children[i].get_index();
                    proof {
                        assert(cs[i as int] == children@[i as int]@);
                        assert(spec_get_index(cs[i as int]) == ci_opt);
                    }
                    match ci_opt {
                        None => return Err(WriteError::NoIndexOnChild),
                        Some(ci) => {
                            if ci as usize == index {
                                return Ok(i);
                            }
                        }
                    }
                    i = i + 1;
                }
                Err(WriteError::NoNodeAtIndex)
            }
            _ => Err(WriteError::ExpectedChildrenForRecursiveType),
        }
    }

    /// Add a child, whose index must be free.
    pub fn push_child(&mut self, child: HoliumCborNode) -> (r: Result<(), WriteError>)
        ensures
            match spec_push_child(view_node_data(old(self).data), child@) {
                Ok(cs) => r is Ok && view_node_data(final(self).data) == SpecNodeData::Children(cs)
                    && final(self).index == old(self).index,
                Err(e) => r == Err::<(), WriteError>(e),
            },
    {
        // Making sure index is not already taken
        let index = match child.get_index() {
            None => return Err(WriteError::NoIndexOnChild),
            Some(i) => i,
        };
        if self.has_child(index as usize)? {
            return Err(WriteError::IndexAlreadyTaken);
        }
        match &mut self.data {
            NodeData::Children(children) => {
                let ghost prev = children@;
                children.push(child);
                proof { lemma_view_nodes_push(prev, child); }
                Ok(())
            }
            _ => Err(WriteError::ExpectedChildrenForRecursiveType),
        }
    }
}


/// Model of a data set.
pub open spec fn view_data_set(ds: Seq<Vec<u8>>) -> Seq<Seq<u8>> {
    Seq::new(ds.len(), |i: int| ds[i]@)
}

/// Leaves holding each datum of a data set, at indices `0..`.
pub open spec fn spec_leaves(ds: Seq<Seq<u8>>) -> Seq<SpecNode> {
    Seq::new(ds.len(), |i: int| SpecNode::Leaf { index: i as u64, data: ds[i] })
}

/// All data of a data set, one after the other.
pub open spec fn spec_concat(ds: Seq<Seq<u8>>) -> Seq<u8>
    decreases ds.len(),
{
    if ds.len() == 0 { Seq::empty() } else { spec_concat(ds.drop_last()) + ds.last() }
}

/// `has_child` on the data of a non-leaf node.
pub open spec fn spec_has_child_of(data: SpecNodeData, index: usize) -> Result<bool, WriteError> {
    match data {
        SpecNodeData::Cbor(_) => Err(WriteError::ExpectedChildrenForRecursiveType),
        SpecNodeData::Children(cs) => spec_has_child(cs, index),
    }
}

/// Leaves pushed for the indices `cur..end` of a range starting at `start`.
pub open spec fn spec_range_push(data: SpecNodeData, start: u64, cur: u64, end: u64, ds: Seq<Seq<u8>>)
    -> Result<SpecNodeData, WriteError>
    decreases end - cur,
{
    if cur >= end {
        Ok(data)
    } else {
        match spec_has_child_of(data, cur as usize) {
            Err(e) => Err(e),
            Ok(true) => Err(WriteError::IndexAlreadyTaken),
            Ok(false) => match spec_push_child(data, SpecNode::Leaf { index: cur, data: ds[cur - start] }) {
                Err(e) => Err(e),
                Ok(cs) => spec_range_push(SpecNodeData::Children(cs), start, (cur + 1) as u64, end, ds),
            },
        }
    }
}

/// The node after ingesting a data set at the place a selector designates; `None` where the
/// ingestion would panic.
pub open spec fn spec_ingest(n: SpecNode, sel: Selector, ds: Seq<Seq<u8>>) -> Option<Result<SpecNode, CborError>>
    decreases sel,
{
    match sel {
        Selector::ExploreIndex(ei) => match n {
            SpecNode::Leaf { .. } => Some(Err(CborError::Write(WriteError::IndexSelectionOnLeaf))),
            SpecNode::NonLeaf { index: ni, data } => match *ei.next {
                Selector::Matcher(_) => match spec_has_child_of(data, ei.index as usize) {
                    Err(e) => Some(Err(CborError::Write(e))),
                    Ok(true) => Some(Err(CborError::Write(WriteError::IndexAlreadyTaken))),
                    Ok(false) => {
                        let child = if ds.len() > 1 {
                            Ok(SpecNode::NonLeaf { index: Some(ei.index), data: SpecNodeData::Children(spec_leaves(ds)) })
                        } else if ds.len() == 0 {
                            Err(WriteError::NoDataInDataSet)
                        } else {
                            Ok(SpecNode::Leaf { index: ei.index, data: ds[0] })
                        };
                        match child {
                            Err(e) => Some(Err(CborError::Write(e))),
                            Ok(c) => match spec_push_child(data, c) {
                                Err(e) => Some(Err(CborError::Write(e))),
                                Ok(cs) => Some(Ok(SpecNode::NonLeaf { index: ni, data: SpecNodeData::Children(cs) })),
                            },
                        }
                    },
                },
                Selector::ExploreUnion(_) => Some(Err(CborError::Selector(SelectorError::UnionOnlyAtRoot))),
                _ => match spec_has_child_of(data, ei.index as usize) {
                    Err(e) => Some(Err(CborError::Write(e))),
                    Ok(has) => {
                        let cs1 = if has {
                            match data {
                                SpecNodeData::Children(cs) => Ok(cs),
                                SpecNodeData::Cbor(_) => Err(WriteError::ExpectedChildrenForRecursiveType),
                            }
                        } else {
                            spec_push_child(data, SpecNode::NonLeaf { index: Some(ei.index), data: SpecNodeData::Children(Seq::empty()) })
                        };
                        match cs1 {
                            Err(e) => Some(Err(CborError::Write(e))),
                            Ok(cs) => match spec_find_child(cs, ei.index as usize, 0) {
                                Err(e) => Some(Err(CborError::Write(e))),
                                Ok(k) => match spec_ingest(cs[k], *ei.next, ds) {
                                    None => None,
                                    Some(Err(e)) => Some(Err(e)),
                                    Some(Ok(c)) => Some(Ok(SpecNode::NonLeaf { index: ni, data: SpecNodeData::Children(cs.update(k, c)) })),
                                },
                            },
                        }
                    },
                },
            },
        },
        Selector::ExploreRange(er) => match n {
            SpecNode::Leaf { .. } => Some(Err(CborError::Write(WriteError::RangeSelectionOnLeaf))),
            SpecNode::NonLeaf { index: ni, data } => if er.end < er.start {
                None
            } else if ds.len() != er.end - er.start {
                Some(Err(CborError::Write(WriteError::DatasetLengthInequalRangeLength)))
            } else {
                match spec_range_push(data, er.start, er.start, er.end, ds) {
                    Err(e) => Some(Err(CborError::Write(e))),
                    Ok(d) => Some(Ok(SpecNode::NonLeaf { index: ni, data: d })),
                }
            },
        },
        Selector::ExploreUnion(_) => Some(Err(CborError::Write(WriteError::UnionOnlyAtRootLevel))),
        Selector::Matcher(_) => match n {
            SpecNode::Leaf { .. } => None,
            SpecNode::NonLeaf { index: ni, .. } => Some(Ok(SpecNode::NonLeaf {
                index: ni,
                data: SpecNodeData::Cbor(if ds.len() == 1 { ds[0] } else { spec_array_header(ds.len() as u64) + spec_concat(ds) }),
            })),
        },
    }
}

/// Position of the first child with index `i`, from position `j` on, or `-1`.
pub open spec fn spec_first_with_index(cs: Seq<SpecNode>, i: u64, j: int) -> int
    decreases cs.len() - j,
{
    if j >= cs.len() || j < 0 {
        -1
    } else if spec_get_index(cs[j]) == Some(i) {
        j
    } else {
        spec_first_with_index(cs, i, j + 1)
    }
}

/// The cbor data a node stands for; `None` where generating it would panic.
pub open spec fn spec_generate(n: SpecNode) -> Option<Result<Seq<u8>, WriteError>>
    decreases n, 0nat,
{
    match n {
        SpecNode::Leaf { data, .. } => Some(Ok(data)),
        SpecNode::NonLeaf { data: SpecNodeData::Cbor(d), .. } => Some(Ok(d)),
        SpecNode::NonLeaf { data: SpecNodeData::Children(cs), .. } =>
            if cs.len() > 0 && exists|k: int| 0 <= k < cs.len() && (#[trigger] spec_get_index(cs[k])) is None {
                None
            } else {
                match spec_generate_children(cs, 0) {
                    None => None,
                    Some(Err(e)) => Some(Err(e)),
                    Some(Ok(body)) => Some(Ok(spec_array_header(cs.len() as u64) + body)),
                }
            },
    }
}

/// The cbor data of the children with indices `i..cs.len()`, in index order.
pub open spec fn spec_generate_children(cs: Seq<SpecNode>, i: nat) -> Option<Result<Seq<u8>, WriteError>>
    decreases cs, (cs.len() - i) as nat,
{
    if i >= cs.len() {
        Some(Ok(Seq::empty()))
    } else {
        let k = spec_first_with_index(cs, i as u64, 0);
        if k < 0 || k >= cs.len() {
            Some(Err(WriteError::NoNodeAtIndex))
        } else {
            match spec_generate(cs[k]) {
                None => None,
                Some(Err(e)) => Some(Err(e)),
                Some(Ok(b)) => match spec_generate_children(cs, i + 1) {
                    None => None,
                    Some(Err(e)) => Some(Err(e)),
                    Some(Ok(rest)) => Some(Ok(b + rest)),
                },
            }
        }
    }
}


/// A copy of a byte vector.
pub fn copy_bytes(v: &Vec<u8>) -> (r: Vec<u8>)
    ensures r@ == v@,
{
    let mut r: Vec<u8> = Vec::new();
    let mut i: usize = 0;
    while i < v.len()
        invariant
            i <= v.len(),
            r@ =~= v@.take(i as int),
        decreases v.len() - i,
    {
        r.push(v[i]);
        i = i + 1;
    }
    proof { assert(v@.take(i as int) =~= v@); }
    r
}

proof fn lemma_view_nodes_replace(s: Seq<HoliumCborNode>, k: int, x: HoliumCborNode)
    requires 0 <= k < s.len(),
    ensures view_nodes(s.remove(k).insert(k, x)) == view_nodes(s).update(k, view_node(x)),
{
    lemma_view_nodes(s);
    lemma_view_nodes(s.remove(k).insert(k, x));
    assert(view_nodes(s.remove(k).insert(k, x)) =~= view_nodes(s).update(k, view_node(x)));
}

fn leaves_of(data_set: &[Vec<u8>]) -> (r: Vec<HoliumCborNode>)
    ensures view_nodes(r@) == spec_leaves(view_data_set(data_set@)),
{
    let mut r: Vec<HoliumCborNode> = Vec::new();
    let mut i: usize = 0;
    while i < data_set.len()
        invariant
            i <= data_set.len(),
            view_nodes(r@) == spec_leaves(view_data_set(data_set@)).take(i as int),
        decreases data_set.len() - i,
    {
        let leaf = HoliumCborNode::Leaf(ScalarNode { index: i as u64, data: copy_bytes(&data_set[i]) });
        proof {
            lemma_view_nodes_push(r@, leaf);
            assert(spec_leaves(view_data_set(data_set@)).take(i + 1) =~= spec_leaves(view_data_set(data_set@)).take(i as int).push(leaf@));
        }
        r.push(leaf);
        i = i + 1;
    }
    proof { assert(spec_leaves(view_data_set(data_set@)).take(i as int) =~= spec_leaves(view_data_set(data_set@))); }
    r
}

fn concat_data_set(buff: &mut Vec<u8>, data_set: &[Vec<u8>])
    ensures final(buff)@ == old(buff)@ + spec_concat(view_data_set(data_set@)),
{
    let mut i: usize = 0;
    let ghost start = buff@;
    while i < data_set.len()
        invariant
            i <= data_set.len(),
            start == old(buff)@,
            buff@ == start + spec_concat(view_data_set(data_set@).take(i as int)),
        decreases data_set.len() - i,
    {
        let mut d = copy_bytes(&data_set[i]);
        let ghost prev = buff@;
        buff.append(&mut d);
        proof {
            let vd = view_data_set(data_set@);
            assert(vd.take(i + 1).drop_last() =~= vd.take(i as int));
            assert(buff@ =~= start + spec_concat(vd.take(i + 1)));
        }
        i = i + 1;
    }
    proof { assert(view_data_set(data_set@).take(i as int) =~= view_data_set(data_set@)); }
}

fn range_push(node: &mut RecursiveNode, start: u64, end: u64, data_set: &[Vec<u8>]) -> (r: Result<(), WriteError>)
    requires
        start <= end,
        data_set@.len() == end - start,
    ensures
        match spec_range_push(view_node_data(old(node).data), start, start, end, view_data_set(data_set@)) {
            Ok(d) => r is Ok && view_node_data(final(node).data) == d && final(node).index == old(node).index,
            Err(e) => r == Err::<(), WriteError>(e),
        },
{
    let ghost ds = view_data_set(data_set@);
    let mut to_set_index: u64 = start;
    while to_set_index < end
        invariant
            start <= to_set_index <= end,
            data_set@.len() == end - start,
            ds == view_data_set(data_set@),
            node.index == old(node).index,
            spec_range_push(view_node_data(old(node).data), start, start, end, ds)
                == spec_range_push(view_node_data(node.data), start, to_set_index, end, ds),
        decreases end - to_set_index,
    {
        let i = (to_set_index - start) as usize;
        // Making sure index is not already taken
        if node.has_child(to_set_index as usize)? {
            return Err(WriteError::IndexAlreadyTaken);
        }
        let leaf = HoliumCborNode::Leaf(ScalarNode { index: to_set_index, data: copy_bytes(&data_set[i]) });
        proof { assert(leaf@ == (SpecNode::Leaf { index: to_set_index, data: ds[to_set_index - start] })); }
        node.push_child(leaf)?;
        to_set_index = to_set_index + 1;
    }
    Ok(())
}

/// A copy of a node, with copies of its data and of all its children.
fn copy_node(n: &HoliumCborNode) -> (r: HoliumCborNode)
    ensures r@ == n@,
    decreases n,
{
    match n {
        HoliumCborNode::Leaf(leaf) => HoliumCborNode::Leaf(ScalarNode { index: leaf.index, data: copy_bytes(&leaf.data) }),
        HoliumCborNode::NonLeaf(node) => {
            let data = match &node.data {
                NodeData::Cbor(d) => NodeData::Cbor(copy_bytes(d)),
                NodeData::Children(children) => {
                    let ghost cs = view_nodes(children@);
                    proof { lemma_view_nodes(children@); }
                    let mut out: Vec<HoliumCborNode> = Vec::new();
                    let mut i: usize = 0;
                    while i < children.len()
                        invariant
                            i <= children.len(),
                            *n == HoliumCborNode::NonLeaf(*node),
                            node.data == NodeData::Children(*children),
                            n@ == (SpecNode::NonLeaf { index: node.index, data: SpecNodeData::Children(cs) }),
                            cs == view_nodes(children@),
                            cs.len() == children.len(),
                            forall|j: int| 0 <= j < children.len() ==> #[trigger] cs[j] == view_node(children@[j]),
                            view_nodes(out@) == cs.take(i as int),
                        decreases children.len() - i,
                    {
                        proof {
                            assert(cs[i as int] == view_node(children@[i as int]));
                            assert(decreases_to!(*n => children@[i as int]));
                        }
                        let c = copy_node(&children[i]);
                        proof {
                            lemma_view_nodes_push(out@, c);
                            assert(cs.take(i + 1) =~= cs.take(i as int).push(c@));
                        }
                        out.push(c);
                        i = i + 1;
                    }
                    proof { assert(cs.take(i as int) =~= cs); }
                    NodeData::Children(out)
                },
            };
            HoliumCborNode::NonLeaf(RecursiveNode { index: node.index, data })
        },
    }
}

impl HoliumCborNode {
    /// Ingest a data set at the place a [`Selector`] designates. On an error the node is left as
    /// it was.
    pub fn ingest(&mut self, selector: &Selector, data_set: &[Vec<u8>]) -> (r: Result<(), CborError>)
        requires spec_ingest(old(self)@, *selector, view_data_set(data_set@)) is Some,
        ensures
            match spec_ingest(old(self)@, *selector, view_data_set(data_set@)).unwrap() {
                Ok(n) => r is Ok && final(self)@ == n,
                Err(e) => r == Err::<(), CborError>(e) && final(self)@ == old(self)@,
            },
    {
        let copy = copy_node(self);
        match copy.ingested(selector, data_set) {
            Ok(n) => {
                *self = n;
                Ok(())
            },
            Err(e) => Err(e),
        }
    }

    /// The node after ingesting a data set at the place a [`Selector`] designates.
    fn ingested(self, selector: &Selector, data_set: &[Vec<u8>]) -> (r: Result<HoliumCborNode, CborError>)
        requires spec_ingest(self@, *selector, view_data_set(data_set@)) is Some,
        ensures
            match spec_ingest(self@, *selector, view_data_set(data_set@)).unwrap() {
                Ok(n) => r is Ok && r->Ok_0@ == n,
                Err(e) => r == Err::<HoliumCborNode, CborError>(e),
            },
        decreases selector,
    {
        let ghost ds = view_data_set(data_set@);
        match selector {
            Selector::ExploreIndex(explore_index) => {
                match self {
                    HoliumCborNode::NonLeaf(mut node) => {
                        let idx = explore_index.index as usize;
                        match &*explore_index.next {
                            Selector::Matcher(_) => {
                                // Making sure index is not already taken
                                match node.has_child(idx) {
                                    Err(e) => return Err(CborError::Write(e)),
                                    Ok(true) => return Err(CborError::Write(WriteError::IndexAlreadyTaken)),
                                    Ok(false) => {},
                                }
                                // If several objects in the data set, create a non-leaf node holding
                                // one leaf each, at the given index; otherwise store the data in a leaf
                                let child = if data_set.len() > 1usize {
                                    HoliumCborNode::NonLeaf(RecursiveNode {
                                        index: Some(explore_index.index),
                                        data: NodeData::Children(leaves_of(data_set)),
                                    })
                                } else {
                                    if data_set.len() == 0 {
                                        return Err(CborError::Write(WriteError::NoDataInDataSet));
                                    }
                                    HoliumCborNode::Leaf(ScalarNode { index: explore_index.index, data: copy_bytes(&data_set[0]) })
                                };
                                match node.push_child(child) {
                                    Err(e) => Err(CborError::Write(e)),
                                    Ok(()) => Ok(HoliumCborNode::NonLeaf(node)),
                                }
                            }
                            Selector::ExploreUnion(_) => Err(CborError::Selector(SelectorError::UnionOnlyAtRoot)),
                            _ => {
                                let ghost orig_data = view_node_data(node.data);
                                assert(self@ == SpecNode::NonLeaf { index: node.index, data: orig_data });
                                // If the node does not exist then create it
                                let child_exists = match node.has_child(idx) {
                                    Err(e) => return Err(CborError::Write(e)),
                                    Ok(h) => h,
                                };
                                if !child_exists {
                                    let empty = HoliumCborNode::NonLeaf(RecursiveNode { index: Some(explore_index.index), data: NodeData::Children(Vec::new()) });
                                    proof { assert(view_nodes(Seq::<HoliumCborNode>::empty()) =~= Seq::empty()); }
                                    match node.push_child(empty) {
                                        Err(e) => return Err(CborError::Write(e)),
                                        Ok(()) => {},
                                    }
                                }
                                let pos = node.child_position(idx);
                                let k = match pos {
                                    Err(e) => return Err(CborError::Write(e)),
                                    Ok(k) => k,
                                };
                                proof {
                                    match view_node_data(node.data) {
                                        SpecNodeData::Children(cs) => {
                                            let f = spec_find_child(cs, idx, 0);
                                            assert(f is Ok);
                                            assert(f->Ok_0 == k as int);
                                        },
                                        SpecNodeData::Cbor(_) => { assert(false); },
                                    }
                                }
                                let ni = node.index;
                                let ghost data_now = view_node_data(node.data);
                                match node.data {
                                    NodeData::Children(mut children) => {
                                        proof {
                                            lemma_view_nodes(children@);
                                            assert(data_now == SpecNodeData::Children(view_nodes(children@)));
                                            assert(view_nodes(children@)[k as int] == view_node(children@[k as int]));
                                            assert(spec_find_child(view_nodes(children@), idx, 0) == Ok::<int, WriteError>(k as int));
                                            assert(spec_ingest(view_node(children@[k as int]), *explore_index.next, ds) is Some);
                                        }
                                        let ghost before = children@;
                                        let child = children.remove(k);
                                        let new_child = child.ingested(&explore_index.next, data_set)?;
                                        children.insert(k, new_child);
                                        proof { lemma_view_nodes_replace(before, k as int, new_child); }
                                        Ok(HoliumCborNode::NonLeaf(RecursiveNode { index: ni, data: NodeData::Children(children) }))
                                    }
                                    NodeData::Cbor(_) => Err(CborError::Write(WriteError::ExpectedChildrenForRecursiveType)),
                                }
                            }
                        }
                    }
                    _ => Err(CborError::Write(WriteError::IndexSelectionOnLeaf)),
                }
            }
            Selector::ExploreRange(explore_range) => {
                match self {
                    HoliumCborNode::NonLeaf(mut node) => {
                        // The data set needs to have exactly as many elements as the range
                        if data_set.len() as u64 != explore_range.end - explore_range.start {
                            return Err(CborError::Write(WriteError::DatasetLengthInequalRangeLength));
                        }
                        match range_push(&mut node, explore_range.start, explore_range.end, data_set) {
                            Err(e) => Err(CborError::Write(e)),
                            Ok(()) => Ok(HoliumCborNode::NonLeaf(node)),
                        }
                    }
                    _ => Err(CborError::Write(WriteError::RangeSelectionOnLeaf)),
                }
            }
            Selector::ExploreUnion(_) => Err(CborError::Write(WriteError::UnionOnlyAtRootLevel)),
            Selector::Matcher(_) => {
                match self {
                    HoliumCborNode::NonLeaf(node) => {
                        // One element is the data itself, several make an array
                        let data = if data_set.len() == 1usize {
                            copy_bytes(&data_set[0])
                        } else {
                            let mut buff = generate_array_cbor_header(data_set.len() as u64);
                            concat_data_set(&mut buff, data_set);
                            buff
                        };
                        Ok(HoliumCborNode::NonLeaf(RecursiveNode { index: node.index, data: NodeData::Cbor(data) }))
                    }
                    HoliumCborNode::Leaf(_) => {
                        proof { assert(false); }
                        Err(CborError::Write(WriteError::ExpectedChildrenForRecursiveType))
                    }
                }
            }
        }
    }
}


proof fn lemma_first_with_index_range(cs: Seq<SpecNode>, i: u64, j: int)
    requires 0 <= j,
    ensures
        spec_first_with_index(cs, i, j) == -1 || (j <= spec_first_with_index(cs, i, j) < cs.len()
            && spec_get_index(cs[spec_first_with_index(cs, i, j)]) == Some(i)),
    decreases cs.len() - j,
{
    if j < cs.len() && spec_get_index(cs[j]) != Some(i) {
        lemma_first_with_index_range(cs, i, j + 1);
    }
}

proof fn lemma_generate_children_step(cs: Seq<SpecNode>, i: nat)
    requires
        i < cs.len(),
        spec_generate_children(cs, i) is Some,
    ensures
        ({
            let k = spec_first_with_index(cs, i as u64, 0);
            0 <= k < cs.len() ==> spec_generate(cs[k]) is Some
                && (spec_generate(cs[k]).unwrap() is Ok ==> spec_generate_children(cs, i + 1) is Some)
        }),
{
}

impl HoliumCborNode {
    /// Generate the cbor object that the node stands for: ready data as is, children in index
    /// order behind an array header.
    pub fn generate_cbor(&self) -> (r: Result<Vec<u8>, WriteError>)
        requires spec_generate(self@) is Some,
        ensures
            match spec_generate(self@).unwrap() {
                Ok(b) => r is Ok && r->Ok_0@ == b,
                Err(e) => r == Err::<Vec<u8>, WriteError>(e),
            },
        decreases self,
    {
        match self {
            HoliumCborNode::Leaf(leaf) => Ok(copy_bytes(&leaf.data)),
            HoliumCborNode::NonLeaf(node) => {
                match &node.data {
                    NodeData::Cbor(d) => Ok(copy_bytes(d)),
                    NodeData::Children(elements) => {
                        let ghost cs = view_nodes(elements@);
                        proof { lemma_view_nodes(elements@); }
                        let mut buff: Vec<u8> = generate_array_cbor_header(elements.len() as u64);
                        let ghost header = buff@;
                        proof {
                            assert(buff@.subrange(header.len() as int, buff@.len() as int) =~= Seq::<u8>::empty());
                            assert(buff@.subrange(0, header.len() as int) =~= header);
                            if spec_generate_children(cs, 0) is Some && spec_generate_children(cs, 0).unwrap() is Ok {
                                assert(Seq::<u8>::empty() + spec_generate_children(cs, 0).unwrap()->Ok_0 =~= spec_generate_children(cs, 0).unwrap()->Ok_0);
                            }
                            if elements.len() > 0 {
                                assert forall|jj: int| 0 <= jj < cs.len() implies (#[trigger] spec_get_index(cs[jj])) is Some by {
                                    if spec_get_index(cs[jj]) is None {
                                        assert(exists|k: int| 0 <= k < cs.len() && (#[trigger] spec_get_index(cs[k])) is None);
                                    }
                                }
                            }
                        }
                        let mut i: usize = 0;
                        while i < elements.len()
                            invariant
                                i <= elements.len(),
                                cs == view_nodes(elements@),
                                cs.len() == elements.len(),
                                forall|j: int| 0 <= j < elements.len() ==> #[trigger] cs[j] == view_node(elements@[j]),
                                self@ == (SpecNode::NonLeaf { index: node.index, data: SpecNodeData::Children(cs) }),
                                *self == HoliumCborNode::NonLeaf(*node),
                                node.data == NodeData::Children(*elements),
                                spec_generate(self@) is Some,
                                forall|j: int| 0 <= j < cs.len() ==> (#[trigger] spec_get_index(cs[j])) is Some,
                                header == spec_array_header(cs.len() as u64),
                                spec_generate_children(cs, 0) == match spec_generate_children(cs, i as nat) {
                                    None => None,
                                    Some(Err(e)) => Some(Err::<Seq<u8>, WriteError>(e)),
                                    Some(Ok(rest)) => Some(Ok(buff@.subrange(header.len() as int, buff@.len() as int) + rest)),
                                },
                                buff@.subrange(0, header.len() as int) == header,
                                header.len() <= buff@.len(),
                                spec_generate_children(cs, i as nat) is Some,
                            decreases elements.len() - i,
                        {
                            proof { lemma_generate_children_step(cs, i as nat); }
                            // Find the first child with index i
                            let mut found: Option<usize> = None;
                            let mut j: usize = elements.len();
                            while j > 0
                                invariant
                                    j <= elements.len(),
                                    cs.len() == elements.len(),
                                    forall|jj: int| 0 <= jj < elements.len() ==> #[trigger] cs[jj] == view_node(elements@[jj]),
                                    forall|jj: int| 0 <= jj < cs.len() ==> (#[trigger] spec_get_index(cs[jj])) is Some,
                                    found is None ==> spec_first_with_index(cs, i as u64, j as int) == -1,
                                    found is Some ==> spec_first_with_index(cs, i as u64, j as int) == found.unwrap() as int,
                                decreases j,
                            {
                                j = j - 1;
                                let e_index = elements[j].get_index();
                                proof {
                                    assert(cs[j as int] == elements@[j as int]@);
                                    assert(spec_get_index(cs[j as int]) is Some);
                                }
                                if e_index.unwrap() == i as u64 {
                                    found = Some(j);
                                }
                            }
                            let pos = match found {
                                None => return Err(WriteError::NoNodeAtIndex),
                                Some(p) => p,
                            };
                            proof {
                                lemma_first_with_index_range(cs, i as u64, 0);
                                assert(cs[pos as int] == elements@[pos as int]@);
                            }
                            proof {
                                assert(decreases_to!(*self => elements@[pos as int]));
                            }
                            let mut b = elements[pos].generate_cbor()?;
                            let ghost prev = buff@;
                            let ghost bv = b@;
                            buff.append(&mut b);
                            proof {
                                assert(buff@ == prev + bv);
                                assert(buff@.subrange(0, header.len() as int) =~= prev.subrange(0, header.len() as int));
                                assert(buff@.subrange(header.len() as int, buff@.len() as int) =~= prev.subrange(header.len() as int, prev.len() as int) + bv);
                                let rest = spec_generate_children(cs, (i + 1) as nat);
                                if rest is Some && rest.unwrap() is Ok {
                                    assert(prev.subrange(header.len() as int, prev.len() as int) + (bv + rest.unwrap()->Ok_0)
                                        =~= buff@.subrange(header.len() as int, buff@.len() as int) + rest.unwrap()->Ok_0);
                                }
                            }
                            i = i + 1;
                        }
                        proof {
                            assert(buff@ =~= header + buff@.subrange(header.len() as int, buff@.len() as int));
                            assert(buff@.subrange(header.len() as int, buff@.len() as int) + Seq::<u8>::empty() =~= buff@.subrange(header.len() as int, buff@.len() as int));
                        }
                        Ok(buff)
                    }
                }
            }
        }
    }
}

} // verus!
