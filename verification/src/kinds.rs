//! Interplanetary kinds: the CBOR values of the blocks that describe pipelines, their nodes,
//! connections and data. A CID is held by its bytes.
use vstd::prelude::*;
use crate::context_helpers::{NodeType, build_node_typed_name, spec_typed_node_name};
use crate::values::{CborValue, SpecCbor, view_cbor_seq, view_cbor_pairs, lemma_view_cbor_seq,
    lemma_view_cbor_seq_push, lemma_view_cbor_pairs, str_eq};
use crate::local_helpers::BlockMulticodec;
use crate::multiformats::{cid_read_bytes, cid_reencoding};
use crate::cbor_write::copy_bytes;

verus! {

broadcast use vstd::std_specs::vec::group_vec_axioms;

/// CBOR tag registered to identify IPLD content identifiers.
pub const IPLD_CONTENT_CBOR_TAG_ID: u64 = 42;

/// The kind of block that could not be read from a CBOR value.
#[derive(Clone, Copy, Debug, PartialEq, Eq, Structural)]
pub enum ManipulationError {
    Link,
    Connection,
    PipelineEdge,
    DryTransformation,
    RecursiveData,
    RecursiveDataEnvelope,
    Metadata,
}

impl ManipulationError {
    /// Human readable description of the error.
    pub fn message(&self) -> (r: String)
        ensures
            *self == ManipulationError::Link ==> r@ == "failed to manipulate link kind"@,
            *self == ManipulationError::Connection ==> r@ == "failed to manipulate connection kind"@,
            *self == ManipulationError::PipelineEdge ==> r@ == "failed to manipulate pipeline edge kind"@,
            *self == ManipulationError::DryTransformation ==> r@ == "failed to manipulate dry transformation kind"@,
            *self == ManipulationError::RecursiveData ==> r@ == "failed to manipulate recursive data kind"@,
            *self == ManipulationError::RecursiveDataEnvelope ==> r@ == "failed to manipulate recursive data envelope kind"@,
            *self == ManipulationError::Metadata ==> r@ == "failed to manipulate metadata kind"@,
    {
        match self {
            ManipulationError::Link => String::from_str("failed to manipulate link kind"),
            ManipulationError::Connection => String::from_str("failed to manipulate connection kind"),
            ManipulationError::PipelineEdge => String::from_str("failed to manipulate pipeline edge kind"),
            ManipulationError::DryTransformation => String::from_str("failed to manipulate dry transformation kind"),
            ManipulationError::RecursiveData => String::from_str("failed to manipulate recursive data kind"),
            ManipulationError::RecursiveDataEnvelope => String::from_str("failed to manipulate recursive data envelope kind"),
            ManipulationError::Metadata => String::from_str("failed to manipulate metadata kind"),
        }
    }
}

fn text(s: &str) -> (r: CborValue)
    ensures r@ == SpecCbor::TextString(s@),
{
    CborValue::TextString(String::from_str(s))
}

/*********************************************
 * Links
 *********************************************/

/// The CBOR value of a link to a CID: its bytes, tagged as an IPLD content identifier.
pub open spec fn spec_link_to_cbor(cid: Seq<u8>) -> SpecCbor {
    SpecCbor::Tag(IPLD_CONTENT_CBOR_TAG_ID, Box::new(SpecCbor::ByteString(cid)))
}

/// The CID a CBOR link holds: the CID read from the bytes under a tag.
pub open spec fn spec_link_from_cbor(v: SpecCbor) -> Result<Seq<u8>, ManipulationError> {
    match v {
        SpecCbor::Tag(_, b) => match *b {
            SpecCbor::ByteString(bytes) => match cid_reencoding(bytes) {
                Some(c) => Ok(c),
                None => Err(ManipulationError::Link),
            },
            _ => Err(ManipulationError::Link),
        },
        _ => Err(ManipulationError::Link),
    }
}

/// A link to a block, by the bytes of its CID.
pub struct Link(pub Vec<u8>);

impl Link {
    /// The CBOR value of the link: the bytes of the CID, tagged as an IPLD content identifier.
    pub fn to_cbor(&self) -> (r: CborValue)
        ensures r@ == spec_link_to_cbor(self.0@),
    {
        let inner = CborValue::ByteString(copy_bytes(&self.0));
        assert(inner@ == SpecCbor::ByteString(self.0@));
        let r = CborValue::Tag(IPLD_CONTENT_CBOR_TAG_ID, Box::new(inner));
        assert(r@ == SpecCbor::Tag(42, Box::new(inner@)));
        r
    }

    /// Read a link from its CBOR value.
    pub fn try_from_cbor(v: &CborValue) -> (r: Result<Link, ManipulationError>)
        ensures
            match spec_link_from_cbor(v@) {
                Ok(c) => r is Ok && r->Ok_0.0@ == c,
                Err(e) => r is Err && r->Err_0 == e,
            },
    {
        if let CborValue::Tag(t, boxed_bytes) = v {
            assert(v@ == SpecCbor::Tag(*t, Box::new((**boxed_bytes)@)));
            if let CborValue::ByteString(cid_bytes) = &**boxed_bytes {
                assert((**boxed_bytes)@ == SpecCbor::ByteString(cid_bytes@));
                return match cid_read_bytes(cid_bytes.as_slice()) {
                    Some(c) => Ok(Link(c)),
                    None => Err(ManipulationError::Link),
                };
            }
        }
        Err(ManipulationError::Link)
    }
}

/// The CIDs of a CBOR array of links, the first `n` of them.
pub open spec fn spec_links_from_cbor(vs: Seq<SpecCbor>, n: nat) -> Result<Seq<Seq<u8>>, ManipulationError>
    decreases n,
{
    if n == 0 || n > vs.len() {
        Ok(Seq::empty())
    } else {
        match spec_links_from_cbor(vs, (n - 1) as nat) {
            Err(e) => Err(e),
            Ok(prefix) => match spec_link_from_cbor(vs[n - 1]) {
                Err(e) => Err(e),
                Ok(c) => Ok(prefix.push(c)),
            },
        }
    }
}

proof fn lemma_links_from_cbor_err(vs: Seq<SpecCbor>, k: nat, n: nat, e: ManipulationError)
    requires
        k <= n <= vs.len(),
        spec_links_from_cbor(vs, k) == Err::<Seq<Seq<u8>>, ManipulationError>(e),
    ensures spec_links_from_cbor(vs, n) == Err::<Seq<Seq<u8>>, ManipulationError>(e),
    decreases n,
{
    if k < n {
        lemma_links_from_cbor_err(vs, k, (n - 1) as nat, e);
    }
}

/// The bytes of a sequence of CIDs.
pub open spec fn view_cids(cids: Seq<Vec<u8>>) -> Seq<Seq<u8>> {
    Seq::new(cids.len(), |i: int| cids[i]@)
}

/*********************************************
 * Recursive data
 *********************************************/

/// The elements of recursive data, by the CIDs of their blocks.
pub struct RecursiveData {
    pub elements_cids: Vec<Vec<u8>>,
}

impl RecursiveData {
    /// The CBOR value of recursive data: the array of the links to its elements.
    pub fn to_cbor(&self) -> (r: CborValue)
        ensures r@ == SpecCbor::Array(Seq::new(self.elements_cids@.len(), |i: int| spec_link_to_cbor(self.elements_cids@[i]@))),
    {
        let mut links: Vec<CborValue> = Vec::new();
        let mut i: usize = 0;
        while i < self.elements_cids.len()
            invariant
                i <= self.elements_cids.len(),
                view_cbor_seq(links@) =~= Seq::new(i as nat, |j: int| spec_link_to_cbor(self.elements_cids@[j]@)),
            decreases self.elements_cids.len() - i,
        {
            let link = Link(copy_bytes(&self.elements_cids[i])).to_cbor();
            proof { lemma_view_cbor_seq_push(links@, link); }
            links.push(link);
            i = i + 1;
        }
        CborValue::Array(links)
    }

    /// Read recursive data from a CBOR array of links.
    pub fn try_from_cbor(v: &CborValue) -> (r: Result<RecursiveData, ManipulationError>)
        ensures
            match v@ {
                SpecCbor::Array(vs) => match spec_links_from_cbor(vs, vs.len()) {
                    Ok(cids) => r is Ok && view_cids(r->Ok_0.elements_cids@) == cids,
                    Err(e) => r is Err && r->Err_0 == e,
                },
                _ => r is Err && r->Err_0 == ManipulationError::RecursiveData,
            },
    {
        match v {
            CborValue::Array(links) => {
                let ghost vs = view_cbor_seq(links@);
                proof { lemma_view_cbor_seq(links@); }
                let mut elements_cids: Vec<Vec<u8>> = Vec::new();
                proof { assert(view_cids(elements_cids@) =~= Seq::<Seq<u8>>::empty()); }
                let mut i: usize = 0;
                while i < links.len()
                    invariant
                        i <= links.len(),
                        v@ == SpecCbor::Array(vs),
                        vs == view_cbor_seq(links@),
                        vs.len() == links.len(),
                        forall|j: int| 0 <= j < links.len() ==> #[trigger] vs[j] == links@[j]@,
                        spec_links_from_cbor(vs, i as nat) == Ok::<Seq<Seq<u8>>, ManipulationError>(view_cids(elements_cids@)),
                    decreases links.len() - i,
                {
                    let link = match Link::try_from_cbor(&links[i]) {
                        Ok(l) => l,
                        Err(e) => {
                            proof { lemma_links_from_cbor_err(vs, (i + 1) as nat, vs.len(), e); }
                            return Err(e);
                        },
                    };
                    proof { assert(view_cids(elements_cids@.push(link.0)) =~= view_cids(elements_cids@).push(link.0@)); }
                    elements_cids.push(link.0);
                    i = i + 1;
                }
                Ok(RecursiveData { elements_cids })
            },
            _ => Err(ManipulationError::RecursiveData),
        }
    }
}

/*********************************************
 * Envelopes, connections, edges and vertices
 *********************************************/

/// An envelope of recursive data, linking to it.
pub struct RecursiveDataEnvelope {
    pub recursive_data_cid: Vec<u8>,
}

/// The recursive data CID an envelope holds, read as the sk-cbor reader gives the envelope back:
/// the first entry should hold the version text, the second the link.
pub open spec fn spec_recursive_data_envelope_from_cbor(v: SpecCbor) -> Result<Seq<u8>, ManipulationError> {
    match v {
        SpecCbor::Mapping(ps) => if ps.len() == 0 {
            Err(ManipulationError::RecursiveDataEnvelope)
        } else if ps[0].1 == SpecCbor::TextString("rde_0"@) {
            if ps.len() < 2 { Err(ManipulationError::RecursiveDataEnvelope) } else { spec_link_from_cbor(ps[1].1) }
        } else {
            Err(ManipulationError::RecursiveDataEnvelope)
        },
        _ => Err(ManipulationError::RecursiveDataEnvelope),
    }
}

impl RecursiveDataEnvelope {
    /// The CBOR map of the envelope: its version, then the link to the data.
    pub fn to_cbor(&self) -> (r: CborValue)
        ensures r@ == SpecCbor::Mapping(seq![
            (SpecCbor::TextString("typedVersion"@), SpecCbor::TextString("rde_0"@)),
            (SpecCbor::TextString("content"@), spec_link_to_cbor(self.recursive_data_cid@)),
        ]),
    {
        let mut pairs: Vec<(CborValue, CborValue)> = Vec::new();
        pairs.push((text("typedVersion"), text("rde_0")));
        pairs.push((text("content"), Link(copy_bytes(&self.recursive_data_cid)).to_cbor()));
        proof {
            lemma_view_cbor_pairs(pairs@);
            assert(view_cbor_pairs(pairs@) =~= seq![
                (SpecCbor::TextString("typedVersion"@), SpecCbor::TextString("rde_0"@)),
                (SpecCbor::TextString("content"@), spec_link_to_cbor(self.recursive_data_cid@)),
            ]);
        }
        CborValue::Mapping(pairs)
    }

    /// Read an envelope of recursive data from a CBOR map: its first entry should hold the version
    /// text, its second the link to the data.
    pub fn try_from_cbor(v: &CborValue) -> (r: Result<RecursiveDataEnvelope, ManipulationError>)
        ensures
            match spec_recursive_data_envelope_from_cbor(v@) {
                Ok(c) => r is Ok && r->Ok_0.recursive_data_cid@ == c,
                Err(e) => r is Err && r->Err_0 == e,
            },
    {
        if let CborValue::Mapping(tuples) = v {
            proof { lemma_view_cbor_pairs(tuples@); }
            if tuples.len() == 0 {
                return Err(ManipulationError::RecursiveDataEnvelope);
            }
            let is_version = match &tuples[0].1 {
                CborValue::TextString(t) => str_eq(t.as_str(), "rde_0"),
                _ => false,
            };
            if is_version {
                if tuples.len() < 2 {
                    return Err(ManipulationError::RecursiveDataEnvelope);
                }
                let link = Link::try_from_cbor(&tuples[1].1)?;
                return Ok(RecursiveDataEnvelope { recursive_data_cid: link.0 });
            }
        }
        Err(ManipulationError::RecursiveDataEnvelope)
    }
}

/// An envelope of module bytecode, linking to it.
pub struct ModuleBytecodeEnvelope {
    pub module_bytecode_cid: Vec<u8>,
}

impl ModuleBytecodeEnvelope {
    pub fn new(module_bytecode_cid: Vec<u8>) -> (r: ModuleBytecodeEnvelope)
        ensures r.module_bytecode_cid@ == module_bytecode_cid@,
    {
        ModuleBytecodeEnvelope { module_bytecode_cid }
    }

    /// The CBOR map of the envelope: its version, then the link to the bytecode.
    pub fn to_cbor(&self) -> (r: CborValue)
        ensures r@ == SpecCbor::Mapping(seq![
            (SpecCbor::TextString("typedVersion"@), SpecCbor::TextString("mbe_0"@)),
            (SpecCbor::TextString("content"@), spec_link_to_cbor(self.module_bytecode_cid@)),
        ]),
    {
        let mut pairs: Vec<(CborValue, CborValue)> = Vec::new();
        pairs.push((text("typedVersion"), text("mbe_0")));
        pairs.push((text("content"), Link(copy_bytes(&self.module_bytecode_cid)).to_cbor()));
        proof {
            lemma_view_cbor_pairs(pairs@);
            assert(view_cbor_pairs(pairs@) =~= seq![
                (SpecCbor::TextString("typedVersion"@), SpecCbor::TextString("mbe_0"@)),
                (SpecCbor::TextString("content"@), spec_link_to_cbor(self.module_bytecode_cid@)),
            ]);
        }
        CborValue::Mapping(pairs)
    }
}

/// A connection between two pipeline nodes, by the CIDs of its two selectors.
pub struct Connection {
    pub tail_selector: Vec<u8>,
    pub head_selector: Vec<u8>,
}

/// The selector CIDs a CBOR connection holds, read as the sk-cbor reader gives it back: the
/// first entry holds the array of the two links.
pub open spec fn spec_connection_from_cbor(v: SpecCbor) -> Result<(Seq<u8>, Seq<u8>), ManipulationError> {
    match v {
        SpecCbor::Mapping(ps) => if ps.len() == 0 {
            Err(ManipulationError::Connection)
        } else {
            match ps[0].1 {
                SpecCbor::Array(tuple) => if tuple.len() < 2 {
                    Err(ManipulationError::Connection)
                } else {
                    match spec_link_from_cbor(tuple[0]) {
                        Err(e) => Err(e),
                        Ok(t) => match spec_link_from_cbor(tuple[1]) {
                            Err(e) => Err(e),
                            Ok(h) => Ok((t, h)),
                        },
                    }
                },
                _ => Err(ManipulationError::Connection),
            }
        },
        _ => Err(ManipulationError::Connection),
    }
}

impl Connection {
    pub fn new(tail_selector: Vec<u8>, head_selector: Vec<u8>) -> (r: Connection)
        ensures r.tail_selector@ == tail_selector@, r.head_selector@ == head_selector@,
    {
        Connection { tail_selector, head_selector }
    }

    /// The CBOR map of the connection: its version, then the array of the links to its selectors.
    pub fn to_cbor(&self) -> (r: CborValue)
        ensures r@ == SpecCbor::Mapping(seq![
            (SpecCbor::TextString("typedVersion"@), SpecCbor::TextString("cx_0"@)),
            (SpecCbor::TextString("content"@), SpecCbor::Array(seq![spec_link_to_cbor(self.tail_selector@), spec_link_to_cbor(self.head_selector@)])),
        ]),
    {
        let mut content: Vec<CborValue> = Vec::new();
        content.push(Link(copy_bytes(&self.tail_selector)).to_cbor());
        content.push(Link(copy_bytes(&self.head_selector)).to_cbor());
        let mut pairs: Vec<(CborValue, CborValue)> = Vec::new();
        pairs.push((text("typedVersion"), text("cx_0")));
        pairs.push((text("content"), CborValue::Array(content)));
        proof {
            lemma_view_cbor_seq(content@);
            assert(view_cbor_seq(content@) =~= seq![spec_link_to_cbor(self.tail_selector@), spec_link_to_cbor(self.head_selector@)]);
            lemma_view_cbor_pairs(pairs@);
            assert(view_cbor_pairs(pairs@) =~= seq![
                (SpecCbor::TextString("typedVersion"@), SpecCbor::TextString("cx_0"@)),
                (SpecCbor::TextString("content"@), SpecCbor::Array(seq![spec_link_to_cbor(self.tail_selector@), spec_link_to_cbor(self.head_selector@)])),
            ]);
        }
        CborValue::Mapping(pairs)
    }

    /// Read a connection from a CBOR map whose first entry holds the array of the links to its
    /// selectors.
    pub fn try_from_cbor(v: &CborValue) -> (r: Result<Connection, ManipulationError>)
        ensures
            match spec_connection_from_cbor(v@) {
                Ok((t, h)) => r is Ok && r->Ok_0.tail_selector@ == t && r->Ok_0.head_selector@ == h,
                Err(e) => r is Err && r->Err_0 == e,
            },
    {
        if let CborValue::Mapping(map) = v {
            proof { lemma_view_cbor_pairs(map@); }
            if map.len() > 0 {
                if let CborValue::Array(tuple) = &map[0].1 {
                    proof { lemma_view_cbor_seq(tuple@); }
                    if tuple.len() >= 2 {
                        let tail = Link::try_from_cbor(&tuple[0])?;
                        let head = Link::try_from_cbor(&tuple[1])?;
                        return Ok(Connection { tail_selector: tail.0, head_selector: head.0 });
                    }
                }
            }
        }
        Err(ManipulationError::Connection)
    }
}

/// The data of an edge of a pipeline graph.
pub struct PipelineEdge {
    pub tail_index: u64,
    pub head_index: u64,
    pub connection_cid: Vec<u8>,
}

/// The edge a CBOR array describes: indices that are not unsigned integers are read as zero.
pub open spec fn spec_pipeline_edge_from_cbor(v: SpecCbor) -> Result<(u64, u64, Seq<u8>), ManipulationError> {
    match v {
        SpecCbor::Array(tuple) => if tuple.len() < 3 {
            Err(ManipulationError::PipelineEdge)
        } else {
            let t: u64 = match tuple[0] { SpecCbor::Unsigned(t) => t, _ => 0 };
            let h: u64 = match tuple[1] { SpecCbor::Unsigned(h) => h, _ => 0 };
            match spec_link_from_cbor(tuple[2]) {
                Err(e) => Err(e),
                Ok(c) => Ok((t, h, c)),
            }
        },
        _ => Err(ManipulationError::PipelineEdge),
    }
}

impl PipelineEdge {
    /// The CBOR array of the edge: its two indices, then the link to its connection.
    pub fn to_cbor(&self) -> (r: CborValue)
        ensures r@ == SpecCbor::Array(seq![SpecCbor::Unsigned(self.tail_index), SpecCbor::Unsigned(self.head_index),
            spec_link_to_cbor(self.connection_cid@)]),
    {
        let mut tuple: Vec<CborValue> = Vec::new();
        tuple.push(CborValue::Unsigned(self.tail_index));
        tuple.push(CborValue::Unsigned(self.head_index));
        tuple.push(Link(copy_bytes(&self.connection_cid)).to_cbor());
        proof {
            lemma_view_cbor_seq(tuple@);
            assert(view_cbor_seq(tuple@) =~= seq![SpecCbor::Unsigned(self.tail_index), SpecCbor::Unsigned(self.head_index),
                spec_link_to_cbor(self.connection_cid@)]);
        }
        CborValue::Array(tuple)
    }

    /// Read an edge from a CBOR array of at least three elements.
    pub fn try_from_cbor(v: &CborValue) -> (r: Result<PipelineEdge, ManipulationError>)
        ensures
            match spec_pipeline_edge_from_cbor(v@) {
                Ok((t, h, c)) => r is Ok && r->Ok_0.tail_index == t && r->Ok_0.head_index == h && r->Ok_0.connection_cid@ == c,
                Err(e) => r is Err && r->Err_0 == e,
            },
    {
        if let CborValue::Array(tuple) = v {
            proof { lemma_view_cbor_seq(tuple@); }
            if tuple.len() >= 3 {
                let tail_index: u64 = match &tuple[0] { CborValue::Unsigned(t) => *t, _ => 0 };
                let head_index: u64 = match &tuple[1] { CborValue::Unsigned(h) => *h, _ => 0 };
                let link = Link::try_from_cbor(&tuple[2])?;
                return Ok(PipelineEdge { tail_index, head_index, connection_cid: link.0 });
            }
        }
        Err(ManipulationError::PipelineEdge)
    }
}

/// The data of a vertex of a pipeline graph.
pub struct PipelineVertex {
    pub dry_transformation: Option<Vec<u8>>,
    pub metadata: Option<Vec<u8>>,
}

impl PipelineVertex {
    /// The CBOR map of the vertex: the links it holds, under `dt` and `meta`.
    pub fn to_cbor(&self) -> (r: CborValue)
        ensures
            r@ == SpecCbor::Mapping(
                (if self.dry_transformation is Some {
                    seq![(SpecCbor::TextString("dt"@), spec_link_to_cbor(self.dry_transformation->0@))]
                } else {
                    Seq::empty()
                }) + (if self.metadata is Some {
                    seq![(SpecCbor::TextString("meta"@), spec_link_to_cbor(self.metadata->0@))]
                } else {
                    Seq::empty()
                })),
    {
        let mut tuples: Vec<(CborValue, CborValue)> = Vec::new();
        if let Some(dry_transformation) = &self.dry_transformation {
            tuples.push((text("dt"), Link(copy_bytes(dry_transformation)).to_cbor()));
        }
        if let Some(metadata) = &self.metadata {
            tuples.push((text("meta"), Link(copy_bytes(metadata)).to_cbor()));
        }
        proof {
            lemma_view_cbor_pairs(tuples@);
            assert(view_cbor_pairs(tuples@) =~= (if self.dry_transformation is Some {
                    seq![(SpecCbor::TextString("dt"@), spec_link_to_cbor(self.dry_transformation->0@))]
                } else {
                    Seq::empty()
                }) + (if self.metadata is Some {
                    seq![(SpecCbor::TextString("meta"@), spec_link_to_cbor(self.metadata->0@))]
                } else {
                    Seq::empty()
                }));
        }
        CborValue::Mapping(tuples)
    }
}

/*********************************************
 * Dry transformations
 *********************************************/

/// A transformation without its data: the link to its bytecode envelope, and its handle.
pub struct DryTransformation {
    pub module_bytecode_envelope_cid: Vec<u8>,
    pub handle: String,
}

/// The dry transformation a CBOR map describes, read as the sk-cbor reader gives it back: the
/// link to the bytecode in the second entry, the handle in the first.
pub open spec fn spec_dry_transformation_from_cbor(v: SpecCbor) -> Result<(Seq<u8>, Seq<char>), ManipulationError> {
    match v {
        SpecCbor::Mapping(ps) => if ps.len() < 2 {
            Err(ManipulationError::DryTransformation)
        } else {
            match spec_link_from_cbor(ps[1].1) {
                Err(e) => Err(e),
                Ok(c) => match ps[0].1 {
                    SpecCbor::TextString(h) => Ok((c, h)),
                    _ => Err(ManipulationError::DryTransformation),
                },
            }
        },
        _ => Err(ManipulationError::DryTransformation),
    }
}

impl DryTransformation {
    pub fn new(module_bytecode_envelope_cid: Vec<u8>, handle: String) -> (r: DryTransformation)
        ensures r.module_bytecode_envelope_cid@ == module_bytecode_envelope_cid@, r.handle@ == handle@,
    {
        DryTransformation { module_bytecode_envelope_cid, handle }
    }

    /// The CBOR map of the dry transformation: its version, the link to its bytecode, its handle.
    pub fn to_cbor(&self) -> (r: CborValue)
        ensures r@ == SpecCbor::Mapping(seq![
            (SpecCbor::TextString("typedVersion"@), SpecCbor::TextString("dt_0"@)),
            (SpecCbor::TextString("bytecode"@), spec_link_to_cbor(self.module_bytecode_envelope_cid@)),
            (SpecCbor::TextString("handle"@), SpecCbor::TextString(self.handle@)),
        ]),
    {
        let mut pairs: Vec<(CborValue, CborValue)> = Vec::new();
        pairs.push((text("typedVersion"), text("dt_0")));
        pairs.push((text("bytecode"), Link(copy_bytes(&self.module_bytecode_envelope_cid)).to_cbor()));
        pairs.push((text("handle"), CborValue::TextString(self.handle.clone())));
        proof {
            lemma_view_cbor_pairs(pairs@);
            assert(view_cbor_pairs(pairs@) =~= seq![
                (SpecCbor::TextString("typedVersion"@), SpecCbor::TextString("dt_0"@)),
                (SpecCbor::TextString("bytecode"@), spec_link_to_cbor(self.module_bytecode_envelope_cid@)),
                (SpecCbor::TextString("handle"@), SpecCbor::TextString(self.handle@)),
            ]);
        }
        CborValue::Mapping(pairs)
    }

    /// Read a dry transformation from a CBOR map: the link to its bytecode in the second entry, its
    /// handle in the first.
    pub fn try_from_cbor(v: &CborValue) -> (r: Result<DryTransformation, ManipulationError>)
        ensures
            match spec_dry_transformation_from_cbor(v@) {
                Ok((c, h)) => r is Ok && r->Ok_0.module_bytecode_envelope_cid@ == c && r->Ok_0.handle@ == h,
                Err(e) => r is Err && r->Err_0 == e,
            },
    {
        if let CborValue::Mapping(tuples) = v {
            proof { lemma_view_cbor_pairs(tuples@); }
            if tuples.len() < 2 {
                return Err(ManipulationError::DryTransformation);
            }
            let link = Link::try_from_cbor(&tuples[1].1)?;
            if let CborValue::TextString(handle) = &tuples[0].1 {
                return Ok(DryTransformation { module_bytecode_envelope_cid: link.0, handle: handle.clone() });
            }
        }
        Err(ManipulationError::DryTransformation)
    }
}

/*********************************************
 * Metadata
 *********************************************/

/// Metadata about sources, shapers and transformations.
pub struct Metadata {
    pub name: Option<String>,
    pub json_schema: Option<String>,
    pub json_schema_in: Option<String>,
    pub json_schema_out: Option<String>,
}

/// Mathematical model of a [`Metadata`].
pub struct SpecMetadata {
    pub name: Option<Seq<char>>,
    pub json_schema: Option<Seq<char>>,
    pub json_schema_in: Option<Seq<char>>,
    pub json_schema_out: Option<Seq<char>>,
}

pub open spec fn view_text(t: Option<String>) -> Option<Seq<char>> {
    match t {
        Some(s) => Some(s@),
        None => None,
    }
}

impl View for Metadata {
    type V = SpecMetadata;

    open spec fn view(&self) -> SpecMetadata {
        SpecMetadata {
            name: view_text(self.name),
            json_schema: view_text(self.json_schema),
            json_schema_in: view_text(self.json_schema_in),
            json_schema_out: view_text(self.json_schema_out),
        }
    }
}

/// An entry of the CBOR map of metadata, where a field is set.
pub open spec fn metadata_entry(key: Seq<char>, t: Option<Seq<char>>) -> Seq<(SpecCbor, SpecCbor)> {
    match t {
        Some(s) => seq![(SpecCbor::TextString(key), SpecCbor::TextString(s))],
        None => Seq::empty(),
    }
}

/// The CBOR map of metadata: its version, then the fields that are set.
pub open spec fn spec_metadata_to_cbor(m: SpecMetadata) -> SpecCbor {
    SpecCbor::Mapping(seq![(SpecCbor::TextString("typedVersion"@), SpecCbor::TextString("meta_0"@))]
        + metadata_entry("name"@, m.name) + metadata_entry("json_schema"@, m.json_schema)
        + metadata_entry("json_schema_in"@, m.json_schema_in) + metadata_entry("json_schema_out"@, m.json_schema_out))
}

/// The last text held under a key in the first `n` entries of a CBOR map, or `t`.
pub open spec fn last_text_under(ps: Seq<(SpecCbor, SpecCbor)>, key: Seq<char>, n: nat, t: Option<Seq<char>>) -> Option<Seq<char>>
    decreases n,
{
    if n == 0 || n > ps.len() {
        t
    } else {
        match (ps[n - 1].0, ps[n - 1].1) {
            (SpecCbor::TextString(k), SpecCbor::TextString(s)) => if k == key { Some(s) } else { last_text_under(ps, key, (n - 1) as nat, t) },
            _ => last_text_under(ps, key, (n - 1) as nat, t),
        }
    }
}

/// The metadata a CBOR map describes: each field is the last text held under its key.
pub open spec fn spec_metadata_from_cbor(v: SpecCbor) -> Result<SpecMetadata, ManipulationError> {
    match v {
        SpecCbor::Mapping(ps) => Ok(SpecMetadata {
            name: last_text_under(ps, "name"@, ps.len(), None),
            json_schema: last_text_under(ps, "json_schema"@, ps.len(), None),
            json_schema_in: last_text_under(ps, "json_schema_in"@, ps.len(), None),
            json_schema_out: last_text_under(ps, "json_schema_out"@, ps.len(), None),
        }),
        _ => Err(ManipulationError::Metadata),
    }
}

proof fn lemma_last_text_under_step(ps: Seq<(SpecCbor, SpecCbor)>, key: Seq<char>, i: nat, t: Option<Seq<char>>)
    requires i < ps.len(),
    ensures
        last_text_under(ps, key, (i + 1) as nat, None) == (match (ps[i as int].0, ps[i as int].1) {
            (SpecCbor::TextString(k), SpecCbor::TextString(s)) => if k == key { Some(s) } else { last_text_under(ps, key, i, None) },
            _ => last_text_under(ps, key, i, None),
        }),
{
}

fn push_metadata_entry(pairs: &mut Vec<(CborValue, CborValue)>, key: &str, t: &Option<String>)
    ensures view_cbor_pairs(final(pairs)@) == view_cbor_pairs(old(pairs)@) + metadata_entry(key@, view_text(*t)),
{
    proof { lemma_view_cbor_pairs(old(pairs)@); }
    if let Some(s) = t {
        pairs.push((text(key), CborValue::TextString(s.clone())));
    }
    proof {
        lemma_view_cbor_pairs(pairs@);
        assert(view_cbor_pairs(pairs@) =~= view_cbor_pairs(old(pairs)@) + metadata_entry(key@, view_text(*t)));
    }
}

fn update_text_field(field: &mut Option<String>, k: &CborValue, v: &CborValue, key: &str)
    ensures
        match (k@, v@) {
            (SpecCbor::TextString(kk), SpecCbor::TextString(s)) => view_text(*final(field)) == if kk == key@ { Some(s) } else { view_text(*old(field)) },
            _ => view_text(*final(field)) == view_text(*old(field)),
        },
{
    if let CborValue::TextString(kk) = k {
        if str_eq(kk.as_str(), key) {
            if let CborValue::TextString(s) = v {
                *field = Some(s.clone());
            }
        }
    }
}

impl Metadata {
    /// The metadata of a pipeline node: its typed name, and the JSON schemata of the node. A
    /// source or a shaper has one schema, `json_schema`; a transformation has an input one,
    /// `json_schema`, and an output one, `json_schema_out`.
    pub fn new(name: &str, node_type: NodeType, json_schema: &str, json_schema_out: &str) -> (r: Metadata)
        ensures
            r.name is Some && r.name->0@ == spec_typed_node_name(node_type, name@),
            node_type != NodeType::Transformation ==> view_text(r.json_schema) == Some(json_schema@)
                && r.json_schema_in is None && r.json_schema_out is None,
            node_type == NodeType::Transformation ==> r.json_schema is None
                && view_text(r.json_schema_in) == Some(json_schema@) && view_text(r.json_schema_out) == Some(json_schema_out@),
    {
        let typed_name = build_node_typed_name(node_type, name);
        match node_type {
            NodeType::Transformation => Metadata {
                name: Some(typed_name),
                json_schema: None,
                json_schema_in: Some(String::from_str(json_schema)),
                json_schema_out: Some(String::from_str(json_schema_out)),
            },
            _ => Metadata {
                name: Some(typed_name),
                json_schema: Some(String::from_str(json_schema)),
                json_schema_in: None,
                json_schema_out: None,
            },
        }
    }
}

impl Metadata {
    /// The CBOR map of the metadata: its version, then the fields that are set.
    pub fn to_cbor(&self) -> (r: CborValue)
        ensures r@ == spec_metadata_to_cbor(self@),
    {
        let mut pairs: Vec<(CborValue, CborValue)> = Vec::new();
        pairs.push((text("typedVersion"), text("meta_0")));
        proof {
            lemma_view_cbor_pairs(pairs@);
            assert(view_cbor_pairs(pairs@) =~= seq![(SpecCbor::TextString("typedVersion"@), SpecCbor::TextString("meta_0"@))]);
        }
        push_metadata_entry(&mut pairs, "name", &self.name);
        push_metadata_entry(&mut pairs, "json_schema", &self.json_schema);
        push_metadata_entry(&mut pairs, "json_schema_in", &self.json_schema_in);
        push_metadata_entry(&mut pairs, "json_schema_out", &self.json_schema_out);
        CborValue::Mapping(pairs)
    }

    /// Read metadata from a CBOR map: each field is the last text held under its key.
    pub fn try_from_cbor(v: &CborValue) -> (r: Result<Metadata, ManipulationError>)
        ensures
            match spec_metadata_from_cbor(v@) {
                Ok(m) => r is Ok && r->Ok_0@ == m,
                Err(e) => r is Err && r->Err_0 == e,
            },
    {
        match v {
            CborValue::Mapping(map) => {
                let ghost ps = view_cbor_pairs(map@);
                proof { lemma_view_cbor_pairs(map@); }
                let mut metadata = Metadata { name: None, json_schema: None, json_schema_in: None, json_schema_out: None };
                let mut i: usize = 0;
                while i < map.len()
                    invariant
                        i <= map.len(),
                        ps == view_cbor_pairs(map@),
                        ps.len() == map.len(),
                        forall|j: int| 0 <= j < map.len() ==> #[trigger] ps[j] == (map@[j].0@, map@[j].1@),
                        view_text(metadata.name) == last_text_under(ps, "name"@, i as nat, None),
                        view_text(metadata.json_schema) == last_text_under(ps, "json_schema"@, i as nat, None),
                        view_text(metadata.json_schema_in) == last_text_under(ps, "json_schema_in"@, i as nat, None),
                        view_text(metadata.json_schema_out) == last_text_under(ps, "json_schema_out"@, i as nat, None),
                    decreases map.len() - i,
                {
                    let (key, value) = &map[i];
                    proof {
                        lemma_last_text_under_step(ps, "name"@, i as nat, None);
                        lemma_last_text_under_step(ps, "json_schema"@, i as nat, None);
                        lemma_last_text_under_step(ps, "json_schema_in"@, i as nat, None);
                        lemma_last_text_under_step(ps, "json_schema_out"@, i as nat, None);
                    }
                    update_text_field(&mut metadata.name, key, value, "name");
                    update_text_field(&mut metadata.json_schema, key, value, "json_schema");
                    update_text_field(&mut metadata.json_schema_in, key, value, "json_schema_in");
                    update_text_field(&mut metadata.json_schema_out, key, value, "json_schema_out");
                    i = i + 1;
                }
                Ok(metadata)
            },
            _ => Err(ManipulationError::Metadata),
        }
    }
}

/*********************************************
 * Blocks of data and bytecode
 *********************************************/

/// Scalar data, held as a CBOR block.
pub struct ScalarData {
    pub content: Vec<u8>,
}

impl ScalarData {
    /// The codec of scalar data blocks.
    pub fn codec() -> (r: BlockMulticodec)
        ensures r == BlockMulticodec::DagCbor,
    {
        BlockMulticodec::DagCbor
    }

    /// The contents of the block.
    pub fn get_content(&self) -> (r: Vec<u8>)
        ensures r@ == self.content@,
    {
        copy_bytes(&self.content)
    }

    /// Scalar data of the given block contents.
    pub fn from_content(content: &Vec<u8>) -> (r: ScalarData)
        ensures r.content@ == content@,
    {
        ScalarData { content: copy_bytes(content) }
    }
}

/// Wasm module bytecode, held as a raw block.
pub struct ModuleBytecode {
    pub bytecode: Vec<u8>,
}

impl ModuleBytecode {
    pub fn new(bytecode: Vec<u8>) -> (r: ModuleBytecode)
        ensures r.bytecode@ == bytecode@,
    {
        ModuleBytecode { bytecode }
    }

    /// The codec of module bytecode blocks.
    pub fn codec() -> (r: BlockMulticodec)
        ensures r == BlockMulticodec::Raw,
    {
        BlockMulticodec::Raw
    }

    /// The contents of the block.
    pub fn content(&self) -> (r: Vec<u8>)
        ensures r@ == self.bytecode@,
    {
        copy_bytes(&self.bytecode)
    }
}

/*********************************************
 * Round trips
 *********************************************/

proof fn lemma_last_text_prefix(a: Seq<(SpecCbor, SpecCbor)>, b: Seq<(SpecCbor, SpecCbor)>, key: Seq<char>, n: nat)
    requires
        n <= a.len(),
        n <= b.len(),
        a.subrange(0, n as int) == b.subrange(0, n as int),
    ensures last_text_under(a, key, n, None) == last_text_under(b, key, n, None),
    decreases n,
{
    if n > 0 {
        assert(a[n - 1] == a.subrange(0, n as int)[n - 1]);
        assert(b[n - 1] == b.subrange(0, n as int)[n - 1]);
        assert(a.subrange(0, n - 1) =~= a.subrange(0, n as int).subrange(0, n - 1));
        assert(b.subrange(0, n - 1) =~= b.subrange(0, n as int).subrange(0, n - 1));
        lemma_last_text_prefix(a, b, key, (n - 1) as nat);
    }
}

proof fn lemma_last_text_entry(ps: Seq<(SpecCbor, SpecCbor)>, k2: Seq<char>, t: Option<Seq<char>>, key: Seq<char>)
    ensures
        last_text_under(ps + metadata_entry(k2, t), key, (ps + metadata_entry(k2, t)).len(), None)
            == if t is Some && k2 == key { t } else { last_text_under(ps, key, ps.len(), None) },
{
    let qs = ps + metadata_entry(k2, t);
    assert(qs.subrange(0, ps.len() as int) =~= ps.subrange(0, ps.len() as int));
    lemma_last_text_prefix(qs, ps, key, ps.len());
    if t is None {
        assert(qs =~= ps);
    }
}

proof fn lemma_metadata_keys_distinct()
    ensures
        "typedVersion"@ != "name"@, "typedVersion"@ != "json_schema"@, "typedVersion"@ != "json_schema_in"@,
        "typedVersion"@ != "json_schema_out"@, "name"@ != "json_schema"@, "name"@ != "json_schema_in"@,
        "name"@ != "json_schema_out"@, "json_schema"@ != "json_schema_in"@, "json_schema"@ != "json_schema_out"@,
        "json_schema_in"@ != "json_schema_out"@,
{
    reveal_strlit("typedVersion");
    reveal_strlit("name");
    reveal_strlit("json_schema");
    reveal_strlit("json_schema_in");
    reveal_strlit("json_schema_out");
    assert("typedVersion"@.len() == 12);
    assert("name"@.len() == 4);
    assert("json_schema"@.len() == 11);
    assert("json_schema_in"@.len() == 14);
    assert("json_schema_out"@.len() == 15);
}

/// Writing metadata as a CBOR map, then reading it back, gives the metadata again.
pub proof fn law_metadata_round_trip(m: SpecMetadata)
    ensures spec_metadata_from_cbor(spec_metadata_to_cbor(m)) == Ok::<SpecMetadata, ManipulationError>(m),
{
    lemma_metadata_keys_distinct();
    let p0 = seq![(SpecCbor::TextString("typedVersion"@), SpecCbor::TextString("meta_0"@))];
    let p1 = p0 + metadata_entry("name"@, m.name);
    let p2 = p1 + metadata_entry("json_schema"@, m.json_schema);
    let p3 = p2 + metadata_entry("json_schema_in"@, m.json_schema_in);
    let p4 = p3 + metadata_entry("json_schema_out"@, m.json_schema_out);
    assert(spec_metadata_to_cbor(m) == SpecCbor::Mapping(p4));
    assert(p0[0] == (SpecCbor::TextString("typedVersion"@), SpecCbor::TextString("meta_0"@)));
    assert(last_text_under(p0, "name"@, 0, None) is None);
    assert(last_text_under(p0, "json_schema"@, 0, None) is None);
    assert(last_text_under(p0, "json_schema_in"@, 0, None) is None);
    assert(last_text_under(p0, "json_schema_out"@, 0, None) is None);
    assert(last_text_under(p0, "name"@, 1, None) is None);
    assert(last_text_under(p0, "json_schema"@, 1, None) is None);
    assert(last_text_under(p0, "json_schema_in"@, 1, None) is None);
    assert(last_text_under(p0, "json_schema_out"@, 1, None) is None);
    lemma_last_text_entry(p0, "name"@, m.name, "name"@);
    lemma_last_text_entry(p0, "name"@, m.name, "json_schema"@);
    lemma_last_text_entry(p0, "name"@, m.name, "json_schema_in"@);
    lemma_last_text_entry(p0, "name"@, m.name, "json_schema_out"@);
    lemma_last_text_entry(p1, "json_schema"@, m.json_schema, "name"@);
    lemma_last_text_entry(p1, "json_schema"@, m.json_schema, "json_schema"@);
    lemma_last_text_entry(p1, "json_schema"@, m.json_schema, "json_schema_in"@);
    lemma_last_text_entry(p1, "json_schema"@, m.json_schema, "json_schema_out"@);
    lemma_last_text_entry(p2, "json_schema_in"@, m.json_schema_in, "name"@);
    lemma_last_text_entry(p2, "json_schema_in"@, m.json_schema_in, "json_schema"@);
    lemma_last_text_entry(p2, "json_schema_in"@, m.json_schema_in, "json_schema_in"@);
    lemma_last_text_entry(p2, "json_schema_in"@, m.json_schema_in, "json_schema_out"@);
    lemma_last_text_entry(p3, "json_schema_out"@, m.json_schema_out, "name"@);
    lemma_last_text_entry(p3, "json_schema_out"@, m.json_schema_out, "json_schema"@);
    lemma_last_text_entry(p3, "json_schema_out"@, m.json_schema_out, "json_schema_in"@);
    lemma_last_text_entry(p3, "json_schema_out"@, m.json_schema_out, "json_schema_out"@);
}

/// Writing a pipeline edge as a CBOR array, then reading it back, gives the edge again, when its
/// connection CID is held as `Cid::to_bytes` writes it.
pub proof fn law_pipeline_edge_round_trip(t: u64, h: u64, c: Seq<u8>)
    requires cid_reencoding(c) == Some(c),
    ensures
        spec_pipeline_edge_from_cbor(SpecCbor::Array(seq![SpecCbor::Unsigned(t), SpecCbor::Unsigned(h), spec_link_to_cbor(c)]))
            == Ok::<(u64, u64, Seq<u8>), ManipulationError>((t, h, c)),
{
}

/// Reading back the CBOR map of a connection, as the sk-cbor reader gives it back with its keys
/// sorted (`content` first, holding the array of its two links, then `typedVersion`), gives the
/// connection again: the first link is its tail selector, the second its head selector, when
/// both CIDs are held as `Cid::to_bytes` writes them.
pub proof fn law_connection_round_trip(tail: Seq<u8>, head: Seq<u8>)
    requires
        cid_reencoding(tail) == Some(tail),
        cid_reencoding(head) == Some(head),
    ensures
        spec_connection_from_cbor(SpecCbor::Mapping(seq![
            (SpecCbor::TextString("content"@), SpecCbor::Array(seq![spec_link_to_cbor(tail), spec_link_to_cbor(head)])),
            (SpecCbor::TextString("typedVersion"@), SpecCbor::TextString("cx_0"@)),
        ])) == Ok::<(Seq<u8>, Seq<u8>), ManipulationError>((tail, head)),
{
    law_link_round_trip(tail);
    law_link_round_trip(head);
}

/// Writing a link as a CBOR value, then reading it back, gives the link again, when its CID is
/// held as `Cid::to_bytes` writes it.
pub proof fn law_link_round_trip(c: Seq<u8>)
    requires cid_reencoding(c) == Some(c),
    ensures spec_link_from_cbor(spec_link_to_cbor(c)) == Ok::<Seq<u8>, ManipulationError>(c),
{
}

} // verus!
