//! The decisions of the import of a project from an interplanetary area into a local area: how
//! a Pipeline block is recognized, and what each block of the pipeline must hold.
use vstd::prelude::*;
use crate::kinds::{Metadata, PipelineEdge, PipelineVertex};

verus! {

broadcast use vstd::std_specs::vec::group_vec_axioms;

/// The last bytes of any Pipeline interplanetary block: the text `typedVersion` and the version
/// text `pl_0`, as CBOR.
pub open spec fn pipeline_block_suffix() -> Seq<u8> {
    seq![0x6cu8, 0x74u8, 0x79u8, 0x70u8, 0x65u8, 0x64u8, 0x56u8, 0x65u8, 0x72u8, 0x73u8, 0x69u8, 0x6fu8, 0x6eu8,
        0x64u8, 0x70u8, 0x6cu8, 0x5fu8, 0x30u8]
}

/// Recognize a Pipeline interplanetary block by its last bytes.
pub fn is_pipeline_block(block: &[u8]) -> (r: bool)
    ensures r == (block@.len() >= 18 && block@.subrange(block@.len() - 18, block@.len() as int) == pipeline_block_suffix()),
{
    let suffix: [u8; 18] = [0x6c, 0x74, 0x79, 0x70, 0x65, 0x64, 0x56, 0x65, 0x72, 0x73, 0x69, 0x6f, 0x6e, 0x64, 0x70, 0x6c, 0x5f, 0x30];
    proof { assert(suffix@ =~= pipeline_block_suffix()); }
    if block.len() < 18 {
        return false;
    }
    let start = block.len() - 18;
    let mut i: usize = 0;
    while i < 18
        invariant
            i <= 18,
            start == block.len() - 18,
            suffix@ == pipeline_block_suffix(),
            forall|j: int| 0 <= j < i ==> block@[start + j] == suffix@[j],
        decreases 18 - i,
    {
        if block[start + i] != suffix[i] {
            proof { assert(block@.subrange(start as int, block@.len() as int)[i as int] != pipeline_block_suffix()[i as int]); }
            return false;
        }
        i = i + 1;
    }
    proof { assert(block@.subrange(start as int, block@.len() as int) =~= pipeline_block_suffix()); }
    true
}

/// Errors of the import of a project.
#[derive(Debug, PartialEq, Eq, Structural)]
pub enum ImportError {
    FindToFindPipelineBlock,
    NoMetadataFoundInTheNode,
    NoNameInMetadata,
    MissingSchemaInMetadata,
    NoTailNameInEdge,
    NoHeadNameInEdge,
    FailedToParseSelector,
    NoTransformationInNode,
}

impl ImportError {
    /// Human readable description of the error.
    pub fn message(&self) -> (r: String)
        ensures
            r@ == match self {
                ImportError::FindToFindPipelineBlock => "failed to find a Pipeline block in the interplanetary area"@,
                ImportError::NoMetadataFoundInTheNode => "no Metadata block linked from the pipeline node"@,
                ImportError::NoNameInMetadata => "node name missing from the Metadata block"@,
                ImportError::MissingSchemaInMetadata => "schema missing from the Metadata block"@,
                ImportError::NoTailNameInEdge => "tail node name missing from the Pipeline edge"@,
                ImportError::NoHeadNameInEdge => "head node name missing from the Pipeline edge"@,
                ImportError::FailedToParseSelector => "failed to parse selector"@,
                ImportError::NoTransformationInNode => "no Dry Transformation block linked from the pipeline node"@,
            },
    {
        match self {
            ImportError::FindToFindPipelineBlock => String::from_str("failed to find a Pipeline block in the interplanetary area"),
            ImportError::NoMetadataFoundInTheNode => String::from_str("no Metadata block linked from the pipeline node"),
            ImportError::NoNameInMetadata => String::from_str("node name missing from the Metadata block"),
            ImportError::MissingSchemaInMetadata => String::from_str("schema missing from the Metadata block"),
            ImportError::NoTailNameInEdge => String::from_str("tail node name missing from the Pipeline edge"),
            ImportError::NoHeadNameInEdge => String::from_str("head node name missing from the Pipeline edge"),
            ImportError::FailedToParseSelector => String::from_str("failed to parse selector"),
            ImportError::NoTransformationInNode => String::from_str("no Dry Transformation block linked from the pipeline node"),
        }
    }
}

fn copy_bytes(b: &Vec<u8>) -> (r: Vec<u8>)
    ensures r@ == b@,
{
    let mut r: Vec<u8> = Vec::new();
    let mut i: usize = 0;
    while i < b.len()
        invariant
            i <= b.len(),
            r@ == b@.subrange(0, i as int),
        decreases b.len() - i,
    {
        r.push(b[i]);
        i = i + 1;
    }
    r
}

fn copy_text(s: &String) -> (r: String)
    ensures r@ == s@,
{
    String::from_str(s.as_str())
}

/// The CID of the Metadata block a pipeline vertex links to.
pub fn vertex_metadata_cid(vertex: &PipelineVertex) -> (r: Result<Vec<u8>, ImportError>)
    ensures
        match vertex.metadata {
            Some(c) => r is Ok && r->Ok_0@ == c@,
            None => r == Err::<Vec<u8>, ImportError>(ImportError::NoMetadataFoundInTheNode),
        },
{
    match &vertex.metadata {
        Some(c) => Ok(copy_bytes(c)),
        None => Err(ImportError::NoMetadataFoundInTheNode),
    }
}

/// The CID of the Dry Transformation block a transformation vertex links to.
pub fn vertex_dry_transformation_cid(vertex: &PipelineVertex) -> (r: Result<Vec<u8>, ImportError>)
    ensures
        match vertex.dry_transformation {
            Some(c) => r is Ok && r->Ok_0@ == c@,
            None => r == Err::<Vec<u8>, ImportError>(ImportError::NoTransformationInNode),
        },
{
    match &vertex.dry_transformation {
        Some(c) => Ok(copy_bytes(c)),
        None => Err(ImportError::NoTransformationInNode),
    }
}

/// The typed name of the node a Metadata block describes.
pub fn metadata_node_name(metadata: &Metadata) -> (r: Result<String, ImportError>)
    ensures
        match metadata.name {
            Some(n) => r is Ok && r->Ok_0@ == n@,
            None => r == Err::<String, ImportError>(ImportError::NoNameInMetadata),
        },
{
    match &metadata.name {
        Some(n) => Ok(copy_text(n)),
        None => Err(ImportError::NoNameInMetadata),
    }
}

/// The JSON Schema of an imported source or shaper, which its Metadata block must hold.
pub fn metadata_json_schema(metadata: &Metadata) -> (r: Result<String, ImportError>)
    ensures
        match metadata.json_schema {
            Some(s) => r is Ok && r->Ok_0@ == s@,
            None => r == Err::<String, ImportError>(ImportError::MissingSchemaInMetadata),
        },
{
    match &metadata.json_schema {
        Some(s) => Ok(copy_text(s)),
        None => Err(ImportError::MissingSchemaInMetadata),
    }
}

/// The input and output JSON Schemata of an imported transformation, which its Metadata block
/// must both hold.
pub fn metadata_transformation_schemata(metadata: &Metadata) -> (r: Result<(String, String), ImportError>)
    ensures
        match (metadata.json_schema_in, metadata.json_schema_out) {
            (Some(i), Some(o)) => r is Ok && r->Ok_0.0@ == i@ && r->Ok_0.1@ == o@,
            _ => r == Err::<(String, String), ImportError>(ImportError::MissingSchemaInMetadata),
        },
{
    match (&metadata.json_schema_in, &metadata.json_schema_out) {
        (Some(i), Some(o)) => Ok((copy_text(i), copy_text(o))),
        _ => Err(ImportError::MissingSchemaInMetadata),
    }
}

/// The typed names of the tail and head nodes of a pipeline edge, where `node_names` holds the
/// typed name of each vertex of the pipeline at its index.
pub fn edge_node_names(node_names: &Vec<String>, edge: &PipelineEdge) -> (r: Result<(String, String), ImportError>)
    ensures
        if edge.tail_index >= node_names.len() {
            r == Err::<(String, String), ImportError>(ImportError::NoTailNameInEdge)
        } else if edge.head_index >= node_names.len() {
            r == Err::<(String, String), ImportError>(ImportError::NoHeadNameInEdge)
        } else {
            r is Ok && r->Ok_0.0@ == node_names@[edge.tail_index as int]@
                && r->Ok_0.1@ == node_names@[edge.head_index as int]@
        },
{
    let n: u64 = node_names.len() as u64;
    if edge.tail_index >= n {
        return Err(ImportError::NoTailNameInEdge);
    }
    if edge.head_index >= n {
        return Err(ImportError::NoHeadNameInEdge);
    }
    let t = copy_text(&node_names[edge.tail_index as usize]);
    let h = copy_text(&node_names[edge.head_index as usize]);
    Ok((t, h))
}

} // verus!
