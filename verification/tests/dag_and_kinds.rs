use holium_utils::context_helpers::{NodeType, ContextError};
use std::convert::TryFrom;
use cid::Cid;
use holium_utils::dag::{PipelineDag, DagError, RunError};
use holium_utils::kinds::{Link, Metadata, Connection, PipelineEdge, PipelineVertex, DryTransformation, RecursiveData,
    RecursiveDataEnvelope, ManipulationError, ScalarData, ModuleBytecode};
use holium_utils::local_helpers::BlockMulticodec;
use holium_utils::import::{is_pipeline_block, ImportError, vertex_metadata_cid, vertex_dry_transformation_cid,
    metadata_node_name, metadata_json_schema, metadata_transformation_schemata, edge_node_names};
use holium_utils::transformation_model::{merge, Transformation, OptionalTransformation, json_schema_string_to_short_string};
use holium_utils::connection_model::Connection as LocalConnection;
use holium_utils::values::CborValue;
use holium_utils::bytecode::{validate_wasm_header, Error as BytecodeError};
use holium_utils::prints::{Error as PrintError, shorten_prettify_json_literal};
use holium_utils::cbor_read::generate_array_cbor_header;

fn names(v: &[&str]) -> Vec<String> {
    v.iter().map(|s| s.to_string()).collect()
}

fn conns(v: &[(&str, &str)]) -> Vec<(String, String)> {
    v.iter().map(|(a, b)| (a.to_string(), b.to_string())).collect()
}

#[test]
fn a_chain_is_a_valid_pipeline() {
    let dag = PipelineDag::from_parts(names(&["source:a", "shaper:b", "transformation:c"]),
        &conns(&[("source:a", "shaper:b"), ("shaper:b", "transformation:c")])).unwrap();
    assert_eq!(dag.edges, vec![(0, 1), (1, 2)]);
    assert_eq!(dag.is_valid_pipeline().unwrap(), vec![0, 1, 2]);
    assert_eq!(dag.incoming_tails(2), vec![1]);
    assert!(dag.needs_own_data(0));
    assert!(!dag.needs_own_data(1));
    assert!(matches!(dag.run_step(0, false), Err(RunError::Dag(DagError::NoDataForNode(ref n))) if n == "source:a"));
    let step = dag.run_step(0, true).unwrap();
    assert!(step.reads_own_data);
    assert_eq!(step.node_type, NodeType::Source);
    let step = dag.run_step(1, false).unwrap();
    assert_eq!(step.typed_name, "shaper:b");
    assert_eq!(step.node_type, NodeType::Shaper);
    assert_eq!(step.node_name, "b");
    assert!(!step.reads_own_data);
    assert_eq!(step.incoming_tails, vec![0]);
    assert_eq!(dag.incoming_connection_id(1, 2).unwrap(), ("shaper:b".to_string(), "shaper:b\u{2192}transformation:c".to_string()));
    assert!(matches!(dag.incoming_connection_id(7, 2), Err(DagError::EdgeEndpointNotFoundInKeyMapping)));
    assert!(matches!(dag.run_step(9, true), Err(RunError::Dag(DagError::EdgeEndpointNotFoundInKeyMapping))));
    let untyped = PipelineDag::from_parts(names(&["a"]), &conns(&[])).unwrap();
    assert!(matches!(untyped.run_step(0, true), Err(RunError::NodeName(ContextError::InvalidTypedName(ref n))) if n == "a"));
}

#[test]
fn cycles_and_islands_are_refused() {
    let dag = PipelineDag::from_parts(names(&["a", "b"]), &conns(&[("a", "b"), ("b", "a")])).unwrap();
    match dag.is_valid_pipeline() {
        Err(DagError::GraphIsCyclic(n)) => assert!(n == "a" || n == "b"),
        _ => panic!("expected a cycle"),
    }
    let dag = PipelineDag::from_parts(names(&["a", "b", "c"]), &conns(&[("a", "b")])).unwrap();
    assert!(matches!(dag.is_valid_pipeline(), Err(DagError::UnconnectedGraphNodes)));
    assert!(matches!(PipelineDag::from_parts(names(&["a"]), &conns(&[("a", "z")])),
        Err(DagError::ConnectionBetweenUnknownNodes(ref n)) if n == "z"));
    assert_eq!(DagError::UnconnectedGraphNodes.message(), "all nodes of a transformation pipeline should be connected");
}

#[test]
fn incoming_connections_come_last_added_first() {
    let dag = PipelineDag::from_parts(names(&["a", "b", "c"]), &conns(&[("a", "c"), ("b", "c")])).unwrap();
    assert_eq!(dag.incoming_tails(2), vec![1, 0]);
}

#[test]
fn a_renamed_node_loses_its_older_index() {
    let dag = PipelineDag::from_parts(names(&["a", "a"]), &conns(&[])).unwrap();
    assert!(matches!(dag.node_typed_name(0), Err(DagError::EdgeEndpointNotFoundInKeyMapping)));
    assert_eq!(dag.node_typed_name(1).unwrap(), "a");
}

#[test]
fn links_hold_cids() {
    let cid = Cid::try_from("bafir4idbvg7rb4h75xd5y52ytlrkwtfibmagzadomy3oig3aiegnr4f3yq").unwrap();
    let link = Link(cid.to_bytes());
    let v = link.to_cbor();
    assert!(matches!(v, CborValue::Tag(42, _)));
    assert_eq!(Link::try_from_cbor(&v).unwrap().0, cid.to_bytes());
    assert!(matches!(Link::try_from_cbor(&CborValue::Tag(42, Box::new(CborValue::ByteString(vec![0xff])))), Err(ManipulationError::Link)));
    let data = RecursiveData { elements_cids: vec![cid.to_bytes(), cid.to_bytes()] };
    assert_eq!(RecursiveData::try_from_cbor(&data.to_cbor()).unwrap().elements_cids.len(), 2);
    let edge = PipelineEdge { tail_index: 1, head_index: 2, connection_cid: cid.to_bytes() };
    let back = PipelineEdge::try_from_cbor(&edge.to_cbor()).unwrap();
    assert_eq!((back.tail_index, back.head_index), (1, 2));
    let connection = Connection::new(cid.to_bytes(), cid.to_bytes());
    match connection.to_cbor() {
        CborValue::Mapping(m) => {
            // the reader gives the keys back sorted: "content" first
            let sorted = CborValue::Mapping(vec![m[1].clone_value(), m[0].clone_value()]);
            assert!(Connection::try_from_cbor(&sorted).is_ok());
        }
        _ => panic!("expected a map"),
    }
    assert_eq!(ManipulationError::Metadata.message(), "failed to manipulate metadata kind");
    let envelope = RecursiveDataEnvelope { recursive_data_cid: cid.to_bytes() };
    // read in the order it is built in, the version text comes first
    assert!(RecursiveDataEnvelope::try_from_cbor(&envelope.to_cbor()).is_ok());
    // as the reader gives it back, keys sorted, the link comes first and the version is not found
    match envelope.to_cbor() {
        CborValue::Mapping(m) => {
            let sorted = CborValue::Mapping(vec![m[1].clone_value(), m[0].clone_value()]);
            assert!(matches!(RecursiveDataEnvelope::try_from_cbor(&sorted), Err(ManipulationError::RecursiveDataEnvelope)));
        }
        _ => panic!("expected a map"),
    }
    let dt = DryTransformation::new(cid.to_bytes(), "main".to_string());
    assert!(matches!(dt.to_cbor(), CborValue::Mapping(ref m) if m.len() == 3));
}

trait ClonePair {
    fn clone_value(&self) -> (CborValue, CborValue);
}

fn clone_cbor(v: &CborValue) -> CborValue {
    match v {
        CborValue::Unsigned(u) => CborValue::Unsigned(*u),
        CborValue::Negative(n) => CborValue::Negative(*n),
        CborValue::ByteString(b) => CborValue::ByteString(b.clone()),
        CborValue::TextString(t) => CborValue::TextString(t.clone()),
        CborValue::Array(a) => CborValue::Array(a.iter().map(clone_cbor).collect()),
        CborValue::Mapping(m) => CborValue::Mapping(m.iter().map(|(k, v)| (clone_cbor(k), clone_cbor(v))).collect()),
        CborValue::Tag(t, b) => CborValue::Tag(*t, Box::new(clone_cbor(b))),
        CborValue::Simple(s) => CborValue::Simple(*s),
    }
}

impl ClonePair for (CborValue, CborValue) {
    fn clone_value(&self) -> (CborValue, CborValue) {
        (clone_cbor(&self.0), clone_cbor(&self.1))
    }
}

#[test]
fn metadata_round_trip() {
    let m = Metadata { name: Some("source:a".to_string()), json_schema: Some("{}".to_string()), json_schema_in: None, json_schema_out: None };
    let back = Metadata::try_from_cbor(&m.to_cbor()).unwrap();
    assert_eq!(back.name, Some("source:a".to_string()));
    assert_eq!(back.json_schema, Some("{}".to_string()));
    assert_eq!(back.json_schema_in, None);
    assert!(matches!(Metadata::try_from_cbor(&CborValue::Unsigned(1)), Err(ManipulationError::Metadata)));
}

#[test]
fn blocks_and_their_codecs() {
    assert_eq!(ScalarData::codec(), BlockMulticodec::DagCbor);
    assert_eq!(ModuleBytecode::codec(), BlockMulticodec::Raw);
    assert_eq!(BlockMulticodec::Raw.code(), 0x55);
    assert_eq!(BlockMulticodec::DagCbor.code(), 0x71);
    assert_eq!(ScalarData::from_content(&vec![1, 2]).get_content(), vec![1, 2]);
    assert_eq!(ModuleBytecode::new(vec![0, 97]).content(), vec![0, 97]);
}

#[test]
fn pipeline_blocks_are_recognized_by_their_last_bytes() {
    let mut block = vec![0xa2u8];
    block.extend_from_slice(b"ltypedVersiondpl_0");
    assert!(is_pipeline_block(&block));
    assert!(!is_pipeline_block(b"dpl_0"));
    assert!(!is_pipeline_block(b"ltypedVersiondpl_1"));
}

#[test]
fn imported_blocks_must_hold_their_links_names_and_schemata() {
    let vertex = PipelineVertex { dry_transformation: None, metadata: Some(vec![1, 2]) };
    assert_eq!(vertex_metadata_cid(&vertex), Ok(vec![1, 2]));
    assert_eq!(vertex_dry_transformation_cid(&vertex), Err(ImportError::NoTransformationInNode));
    let bare = PipelineVertex { dry_transformation: Some(vec![3]), metadata: None };
    assert_eq!(vertex_metadata_cid(&bare), Err(ImportError::NoMetadataFoundInTheNode));
    assert_eq!(vertex_dry_transformation_cid(&bare), Ok(vec![3]));
    let metadata = Metadata { name: Some("t".to_string()), json_schema: None,
        json_schema_in: Some("{}".to_string()), json_schema_out: Some("[]".to_string()) };
    assert_eq!(metadata_node_name(&metadata), Ok("t".to_string()));
    assert_eq!(metadata_json_schema(&metadata), Err(ImportError::MissingSchemaInMetadata));
    assert_eq!(metadata_transformation_schemata(&metadata), Ok(("{}".to_string(), "[]".to_string())));
    let unnamed = Metadata { name: None, json_schema: Some("{}".to_string()), json_schema_in: Some("{}".to_string()), json_schema_out: None };
    assert_eq!(metadata_node_name(&unnamed), Err(ImportError::NoNameInMetadata));
    assert_eq!(metadata_json_schema(&unnamed), Ok("{}".to_string()));
    assert_eq!(metadata_transformation_schemata(&unnamed), Err(ImportError::MissingSchemaInMetadata));
    let names = vec!["a".to_string(), "b".to_string()];
    let edge = PipelineEdge { tail_index: 1, head_index: 0, connection_cid: vec![] };
    assert_eq!(edge_node_names(&names, &edge), Ok(("b".to_string(), "a".to_string())));
    let edge = PipelineEdge { tail_index: 2, head_index: 5, connection_cid: vec![] };
    assert_eq!(edge_node_names(&names, &edge), Err(ImportError::NoTailNameInEdge));
    let edge = PipelineEdge { tail_index: 0, head_index: 2, connection_cid: vec![] };
    assert_eq!(edge_node_names(&names, &edge), Err(ImportError::NoHeadNameInEdge));
    assert_eq!(ImportError::NoHeadNameInEdge.message(), "head node name missing from the Pipeline edge");
}

#[test]
fn transformation_updates_keep_unset_fields() {
    let old = Transformation { name: "t".to_string(), bytecode: vec![0, 97, 115, 109], handle: "main".to_string(), json_schema_in: "{}".to_string() };
    let update = OptionalTransformation { name: None, bytecode: None, handle: Some("run".to_string()), json_schema_in: None };
    let merged = merge(&old, &update);
    assert_eq!(merged.handle, "run");
    assert_eq!(merged.name, "t");
    assert_eq!(merged.bytecode, vec![0, 97, 115, 109]);
}

#[test]
fn wasm_headers_and_messages() {
    assert!(validate_wasm_header(4, &[0x00, 0x61, 0x73, 0x6d]).is_ok());
    assert!(matches!(validate_wasm_header(3, &[0x00, 0x61, 0x73, 0x6d]), Err(BytecodeError::MissingWasmMagicNumber)));
    assert!(matches!(validate_wasm_header(4, &[0x00, 0x61, 0x73, 0x6e]), Err(BytecodeError::MissingWasmMagicNumber)));
    assert_eq!(PrintError::StructureCreationError("source".to_string(), "a".to_string()).message(), "cannot create source with name: a");
}

#[test]
fn array_headers() {
    assert_eq!(generate_array_cbor_header(3), vec![0x83]);
    assert_eq!(generate_array_cbor_header(24), vec![0x98, 24]);
    assert_eq!(generate_array_cbor_header(256), vec![0x99, 0x01, 0x00]);
    assert_eq!(generate_array_cbor_header(1 << 32), vec![0x9b, 0, 0, 0, 1, 0, 0, 0, 0]);
}

#[test]
fn transformations_and_connections_in_tables() {
    assert_eq!(Transformation::title_row(), vec!["NAME", "HANDLE", "BYTECODE (size)", "IN (JSON Schema)"]);
    let t = Transformation { name: "t".to_string(), bytecode: vec![0; 1024], handle: "main".to_string(),
        json_schema_in: r#"{"type":"string"}"#.to_string() };
    assert_eq!(t.object_to_row(), vec!["t", "main", "1 KB", "{\n  \"type\": \"string\"\n}"]);
    assert_eq!(json_schema_string_to_short_string("not json"), "");
    let long = format!("[{}]", vec!["1"; 200].join(","));
    let short = json_schema_string_to_short_string(&long);
    assert!(short.ends_with("..."));
    assert_eq!(short.chars().count(), 259);
    assert_eq!(LocalConnection::title_row(), vec!["ID"]);
    assert_eq!(LocalConnection { id: "a\u{2192}b".to_string() }.object_to_row(), vec!["a\u{2192}b"]);
}

#[test]
fn json_literals_are_prettified_and_shortened() {
    assert_eq!(shorten_prettify_json_literal("[1,2]"), "[\n  1,\n  2\n]");
    assert_eq!(shorten_prettify_json_literal("{"), "");
}

#[test]
fn metadata_of_pipeline_nodes() {
    let m = Metadata::new("s", NodeType::Source, "{}", "ignored");
    assert_eq!(m.name, Some("source:s".to_string()));
    assert_eq!(m.json_schema, Some("{}".to_string()));
    assert_eq!(m.json_schema_in, None);
    assert_eq!(m.json_schema_out, None);
    let m = Metadata::new("t", NodeType::Transformation, "[1]", "[2]");
    assert_eq!(m.name, Some("transformation:t".to_string()));
    assert_eq!(m.json_schema, None);
    assert_eq!(m.json_schema_in, Some("[1]".to_string()));
    assert_eq!(m.json_schema_out, Some("[2]".to_string()));
}
