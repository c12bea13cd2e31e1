use holium_utils::local_helpers::{validate_mimetype_coherence, PortationFileFormat, MediaTypeError};
use holium_utils::context_helpers::{NodeType, ContextError, build_node_typed_name, parse_node_typed_name, pipeline_node_existence,
    nodes_tree_types, build_connection_id, parse_connection_id, build_portation_id, parse_portation_id, PortationDirectionType};
use holium_utils::local_helpers::{validate_node_name, validate_selector, KeyError, SelectorLiteralError};
use holium_utils::json_schema::validate_pipeline_node_json_schema;

#[test]
fn cannot_validate_node_name_with_arrow_character() {
    let name = "my→name";
    let res = validate_node_name(name);
    assert!(res.is_err());
    assert!(res
        .err()
        .unwrap()
        .message()
        .contains("a node name cannot contain the '→' character"))
}

#[test]
fn can_validate_node_name() {
    let name = "node_name";
    validate_node_name(name).unwrap();
}

#[test]
fn node_name_error_names_the_node() {
    match validate_node_name("a→b") {
        Err(e) => {
            assert_eq!(e.message(), "a node name cannot contain the '→' character: a→b");
            match e {
                KeyError::InvalidNodeName(n) => assert_eq!(n, "a→b"),
            }
        }
        Ok(()) => panic!("expected an error"),
    }
    assert!(validate_node_name("").is_ok());
    assert!(validate_node_name("→").is_err());
    assert!(validate_node_name("arrow->name").is_ok());
}

#[test]
fn mod_cannot_validate_non_json_string() {
    let non_json = "i am not a json";

    let res = validate_pipeline_node_json_schema(non_json, true);
    assert!(res.is_err());
    assert!(res
        .err()
        .unwrap()
        .message()
        .contains("invalid string can not be parsed to json"));

    let res = validate_selector(non_json, true);
    assert!(res.is_err());
    assert!(res
        .err()
        .unwrap()
        .message()
        .contains("invalid string can not be parsed to json"));
}

#[test]
fn cannot_validate_non_valid_json_object() {
    let non_json = "{\"non\":\"valid\"}";

    let res = validate_selector(non_json, false);

    assert!(res.is_err());
    assert!(res
        .err()
        .unwrap()
        .message()
        .contains("invalid holium selector"));
}

#[test]
fn selector_literal_is_checked_after_its_schema() {
    assert_eq!(validate_selector("{\"non\":\"valid\"}", true), Err(SelectorLiteralError::InvalidHoliumSelector));
    assert_eq!(validate_selector("{\".\": {}}", true), Ok(()));
    assert_eq!(validate_selector("{\".\": {}}", false), Err(SelectorLiteralError::InvalidHoliumSelector));
    assert_eq!(validate_selector("{\"i\": {\"i\": 1, \">\": {\".\": {}}}}", true), Ok(()));
}

#[test]
fn node_types_and_typed_names() {
    assert_eq!(NodeType::parse("Source"), Ok(NodeType::Source));
    assert_eq!(NodeType::parse("TRANSFORMATION"), Ok(NodeType::Transformation));
    assert_eq!(NodeType::parse("shaper"), Ok(NodeType::Shaper));
    assert_eq!(NodeType::parse("pipe"), Err(ContextError::InvalidNodeType("pipe".to_string())));
    assert_eq!(NodeType::Shaper.name(), "shaper");
    assert_eq!(build_node_typed_name(NodeType::Shaper, "s"), "shaper:s");
    assert_eq!(nodes_tree_types(), vec![NodeType::Source, NodeType::Shaper, NodeType::Transformation]);
}

#[test]
fn pipeline_nodes_must_exist() {
    assert_eq!(pipeline_node_existence(NodeType::Transformation, "t", true), Ok("transformation:t".to_string()));
    let err = pipeline_node_existence(NodeType::Source, "s", false).err().unwrap();
    assert_eq!(err, ContextError::NoPipelineNodeWithName("source".to_string(), "s".to_string()));
    assert_eq!(err.message(), "no source node found with name: s");
    assert_eq!(ContextError::InvalidNodeType("x".to_string()).message(), "invalid pipeline node type: x");
}

#[test]
fn typed_names_connection_and_portation_ids_read_back() {
    assert_eq!(parse_node_typed_name("source:my-source"), Ok((NodeType::Source, "my-source".to_string())));
    assert_eq!(parse_node_typed_name("Shaper:a:b"), Ok((NodeType::Shaper, "a:b".to_string())));
    assert_eq!(parse_node_typed_name("nocolon"), Err(ContextError::InvalidTypedName("nocolon".to_string())));
    assert_eq!(parse_node_typed_name("pipe:x"), Err(ContextError::InvalidNodeType("pipe".to_string())));
    let id = build_connection_id("source:my-source", "transformation:my-transformation");
    assert_eq!(id, "source:my-source\u{2192}transformation:my-transformation");
    assert_eq!(parse_connection_id(&id), Ok(("source:my-source".to_string(), "transformation:my-transformation".to_string())));
    assert_eq!(parse_connection_id("a"), Err(ContextError::InvalidConnectionId("a".to_string())));
    let id = build_portation_id(PortationDirectionType::FromHolium, "transformation:my-transformation");
    assert_eq!(id, "from:transformation:my-transformation");
    assert_eq!(parse_portation_id(&id), Ok((PortationDirectionType::FromHolium, "transformation:my-transformation".to_string())));
    assert_eq!(parse_portation_id("to:source:s"), Ok((PortationDirectionType::ToHolium, "source:s".to_string())));
    assert_eq!(parse_portation_id("into:source:s"), Err(ContextError::InvalidPortationId("into:source:s".to_string())));
    assert_eq!(ContextError::InvalidConnectionId("a".to_string()).message(), "invalid connection id: a");
}

#[test]
fn portation_file_extensions_fit_their_format() {
    assert!(validate_mimetype_coherence("data/x.json", &PortationFileFormat::Json).is_ok());
    assert!(validate_mimetype_coherence("data/x.csv", &PortationFileFormat::Csv).is_ok());
    assert!(validate_mimetype_coherence("data/x.anything", &PortationFileFormat::Bin).is_ok());
    assert_eq!(validate_mimetype_coherence("data/x.csv", &PortationFileFormat::Json), Err(MediaTypeError::IncompatibleMediaTypeAndPortationFormat));
    // no media type is known for the cbor extension
    assert!(validate_mimetype_coherence("data/x.cbor", &PortationFileFormat::Cbor).is_err());
    assert_eq!(MediaTypeError::IncompatibleMediaTypeAndPortationFormat.message(), "file extension incompatible with selected file format");
}
