use holium_utils::portations::{get_portation, Portation, Portations, RepositoryContext, portation_node,
    portation_json_schema_of_node};
use holium_utils::context_helpers::{NodeType, PortationDirectionType, ContextError};
use holium_utils::json_schema::{HoliumJsonSchemaType, PortationSchemaError};
use holium_utils::local_helpers::PortationFileFormat;

fn portation(id: &str, path: &str, format: PortationFileFormat) -> Portation {
    Portation { id: id.to_string(), file_path: path.to_string(), file_format: format }
}

#[test]
fn portations_are_found_by_node_and_direction() {
    let twice = Portations { items: vec![
        portation("from:transformation:t", "out.cbor", PortationFileFormat::Cbor),
        portation("from:transformation:t", "other.json", PortationFileFormat::Json),
    ] };
    assert!(!twice.has_distinct_ids());
    let portations = Portations { items: vec![
        portation("to:source:s", "in.json", PortationFileFormat::Json),
        portation("from:transformation:t", "out.cbor", PortationFileFormat::Cbor),
    ] };
    assert!(portations.has_distinct_ids());
    let context = RepositoryContext::new(portations);
    let p = get_portation(&context, &NodeType::Source, "s", &PortationDirectionType::ToHolium).unwrap();
    assert_eq!(p.id, "to:source:s");
    assert_eq!(p.file_path, "in.json");
    assert_eq!(p.file_format, PortationFileFormat::Json);
    let p = get_portation(&context, &NodeType::Transformation, "t", &PortationDirectionType::FromHolium).unwrap();
    assert_eq!(p.file_path, "out.cbor");
    assert!(get_portation(&context, &NodeType::Source, "s", &PortationDirectionType::FromHolium).is_none());
    assert!(get_portation(&context, &NodeType::Shaper, "s", &PortationDirectionType::ToHolium).is_none());
    assert!(context.portations.get("to:source:s").is_some());
}

#[test]
fn portation_nodes_and_their_schemata() {
    let p = portation("from:transformation:my-transformation", "out.json", PortationFileFormat::Json);
    assert_eq!(portation_node(&p), Ok((PortationDirectionType::FromHolium, NodeType::Transformation, "my-transformation".to_string())));
    let p = portation("sideways:source:s", "x", PortationFileFormat::Json);
    assert_eq!(portation_node(&p), Err(ContextError::InvalidPortationId("sideways:source:s".to_string())));
    let p = portation("to:pipe:s", "x", PortationFileFormat::Json);
    assert_eq!(portation_node(&p), Err(ContextError::InvalidNodeType("pipe".to_string())));
    let schema = portation_json_schema_of_node(PortationDirectionType::FromHolium, NodeType::Transformation,
        r#"{"type":"string"}"#, r#"{"type":"number"}"#).unwrap();
    assert!(matches!(*schema.1, HoliumJsonSchemaType::Number));
    let schema = portation_json_schema_of_node(PortationDirectionType::ToHolium, NodeType::Transformation,
        r#"{"type":"string"}"#, r#"{"type":"number"}"#).unwrap();
    assert!(matches!(*schema.1, HoliumJsonSchemaType::TextString));
    let schema = portation_json_schema_of_node(PortationDirectionType::FromHolium, NodeType::Source,
        r#"{"type":"boolean"}"#, "").unwrap();
    assert!(matches!(*schema.1, HoliumJsonSchemaType::Boolean));
    assert!(matches!(portation_json_schema_of_node(PortationDirectionType::ToHolium, NodeType::Shaper, "{", ""),
        Err(PortationSchemaError::JsonSchemaParseFailed)));
}
