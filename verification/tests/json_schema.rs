use holium_utils::json_schema::{parse_root_json_schema, parse_object_properties, parse_items_array_item,
    parse_tuples_array_items, validate_has_tuple_array_root, validate_pipeline_node_json_schema,
    HoliumJsonSchemaType, SchemaError, portation_json_schema, PortationSchemaError};
use holium_utils::values::{JsonValue, JsonNumber};

fn text(s: &str) -> JsonValue {
    JsonValue::String(s.to_string())
}

fn object(members: Vec<(&str, JsonValue)>) -> JsonValue {
    JsonValue::Object(members.into_iter().map(|(k, v)| (k.to_string(), v)).collect())
}

fn members(v: &JsonValue) -> &Vec<(String, JsonValue)> {
    match v {
        JsonValue::Object(map) => map,
        _ => unreachable!(),
    }
}

#[test]
fn cannot_validate_if_not_object() {
    let no_type_json = text("only string");

    let res = parse_root_json_schema(&no_type_json);

    assert!(res.is_err());
    assert!(res.err().unwrap().message().contains("a json schema should be a json object"));
}

#[test]
fn cannot_validate_if_type_is_not_string() {
    let no_type_json = object(vec![("type", JsonValue::Number(JsonNumber::PosInt(0)))]);

    let res = parse_root_json_schema(&no_type_json);

    assert!(res.is_err());
    assert!(res.err().unwrap().message().contains("type field value should be a string in a json schema"));
}

#[test]
fn cannot_validate_if_type_bad_value() {
    let non_valid_type = "non_valid";
    let no_type_json = object(vec![("type", text(non_valid_type))]);

    let res = parse_root_json_schema(&no_type_json);

    assert!(res.is_err());
    assert!(res.err().unwrap().message().contains(
        format!("invalid json schema type field value: {}", non_valid_type).as_str()
    ));
}

#[test]
fn can_validate_with_type_non_recursive() {
    let valid_types = vec!["null", "boolean", "number", "string"];

    for valid_type in valid_types {
        let json = object(vec![("type", text(valid_type))]);

        parse_root_json_schema(&json).unwrap();
    }
}

#[test]
fn can_validate_with_type_recursive() {
    // Validate on object
    let object_json = object(vec![
        ("type", text("object")),
        ("properties", object(vec![("id", object(vec![("type", text("string"))]))])),
    ]);

    parse_root_json_schema(&object_json).unwrap();

    // Validate on array
    let object_json = object(vec![
        ("type", text("array")),
        ("prefixItems", JsonValue::Array(vec![object(vec![("type", text("string"))])])),
    ]);

    parse_root_json_schema(&object_json).unwrap();
}

#[test]
fn cannot_validate_type_object_if_no_properties() {
    let non_valid_json = object(vec![("type", text("object"))]);

    let res = parse_object_properties(members(&non_valid_json));

    assert!(res.is_err());
    assert!(res.err().unwrap().message().contains("properties field missing in the json schema"));
}

#[test]
fn cannot_validate_type_object_if_properties_is_not_object() {
    let non_valid_json = object(vec![("type", text("object")), ("properties", text("string"))]);

    let res = parse_object_properties(members(&non_valid_json));

    assert!(res.is_err());
    assert!(res.err().unwrap().message().contains("properties field value should be an object in a json schema"));
}

#[test]
fn can_validate_proper_object() {
    let non_valid_json = object(vec![
        ("type", text("object")),
        ("properties", object(vec![("id", object(vec![("type", text("string"))]))])),
    ]);

    let res = parse_object_properties(members(&non_valid_json)).unwrap();
    assert_eq!(res.len(), 1);
    assert_eq!((res[0].0).0, Some("id".to_string()));
}

#[test]
fn cannot_validate_if_no_items_or_prefix_items_in_schema() {
    let invalid_json = object(vec![("type", text("array"))]);

    let res = parse_items_array_item(members(&invalid_json));

    assert!(res.is_err());
    assert!(res.err().unwrap().message().contains("items or prefixItems field missing in the json schema"));
}

#[test]
fn cannot_validate_if_items_not_object() {
    let invalid_json = object(vec![("type", text("array")), ("items", text("string"))]);

    let res = parse_items_array_item(members(&invalid_json));

    assert!(res.is_err());
    assert!(res.err().unwrap().message().contains("items field value should be an object in a json schema"));
}

#[test]
fn cannot_validate_if_prefix_items_not_array() {
    let invalid_json = object(vec![("type", text("array")), ("prefixItems", text("string"))]);

    let res = parse_tuples_array_items(members(&invalid_json));

    assert!(res.is_err());
    assert!(res.err().unwrap().message().contains("prefixItems field value should be an array in a json schema"));
}

#[test]
fn can_validate_items() {
    let invalid_json = object(vec![("type", text("array")), ("items", object(vec![("type", text("string"))]))]);

    let res = parse_items_array_item(members(&invalid_json)).unwrap();
    assert!(matches!(*res.1, HoliumJsonSchemaType::TextString));
}

#[test]
fn can_validate_prefix_items() {
    let invalid_json = object(vec![
        ("type", text("array")),
        ("prefixItems", JsonValue::Array(vec![object(vec![("type", text("string"))])])),
    ]);

    let res = parse_tuples_array_items(members(&invalid_json)).unwrap();
    assert_eq!(res.len(), 1);
}

#[test]
fn base64_encoded_strings_are_byte_strings() {
    let json = object(vec![("type", text("string")), ("contentEncoding", text("base64"))]);
    let schema = parse_root_json_schema(&json).unwrap();
    assert!(matches!(*schema.1, HoliumJsonSchemaType::ByteString));
    let json = object(vec![("type", text("string")), ("contentEncoding", text("base32"))]);
    let schema = parse_root_json_schema(&json).unwrap();
    assert!(matches!(*schema.1, HoliumJsonSchemaType::TextString));
}

#[test]
fn the_last_repeated_member_is_read() {
    let json = object(vec![("type", text("string")), ("type", text("boolean"))]);
    let schema = parse_root_json_schema(&json).unwrap();
    assert!(matches!(*schema.1, HoliumJsonSchemaType::Boolean));
}

#[test]
fn missing_type_field_is_reported() {
    let json = object(vec![("properties", object(vec![]))]);
    let res = parse_root_json_schema(&json);
    assert!(matches!(res, Err(SchemaError::MissingTypeField)));
    assert_eq!(res.err().unwrap().message(), "type field missing in the json schema");
}

#[test]
fn nested_errors_come_out() {
    let json = object(vec![
        ("type", text("object")),
        ("properties", object(vec![("a", object(vec![("type", text("wrong"))]))])),
    ]);
    match parse_root_json_schema(&json) {
        Err(SchemaError::InvalidTypeFieldValue(t)) => assert_eq!(t, "wrong"),
        _ => panic!("expected an invalid type"),
    }
}

#[test]
fn pipeline_node_schema_needs_a_tuples_array_root() {
    let json = object(vec![("type", text("object")), ("properties", object(vec![]))]);
    assert!(matches!(validate_has_tuple_array_root(&json), Err(SchemaError::InvalidSchemaForPipelineNode)));
    let json = object(vec![("type", text("array")), ("prefixItems", JsonValue::Array(vec![]))]);
    assert!(validate_has_tuple_array_root(&json).is_ok());

    assert!(validate_pipeline_node_json_schema("{\"type\": \"array\", \"prefixItems\": [{\"type\": \"number\"}]}", true).is_ok());
    assert!(matches!(validate_pipeline_node_json_schema("{\"type\": \"array\", \"prefixItems\": []}", false),
        Err(SchemaError::InvalidJsonSchema)));
    assert!(matches!(validate_pipeline_node_json_schema("{\"type\": \"string\"}", true),
        Err(SchemaError::InvalidSchemaForPipelineNode)));
    assert!(matches!(validate_pipeline_node_json_schema("{\"type\": \"array\", \"prefixItems\": [{\"type\": 3}]}", true),
        Err(SchemaError::TypeFieldShouldHoldStringValue)));
}

#[test]
fn portation_schemas_are_parsed_from_their_literal() {
    let schema = portation_json_schema(r#"{"type":"array","prefixItems":[{"type":"string"},{"type":"number"}]}"#).unwrap();
    assert!(schema.0 .0.is_none());
    match *schema.1 {
        HoliumJsonSchemaType::TupleArray(items) => {
            assert_eq!(items.len(), 2);
            assert!(matches!(*items[0].1, HoliumJsonSchemaType::TextString));
            assert!(matches!(*items[1].1, HoliumJsonSchemaType::Number));
        }
        _ => panic!("a tuple array was expected"),
    }
    let err = portation_json_schema("i am not a json").err().unwrap();
    assert!(matches!(err, PortationSchemaError::JsonSchemaParseFailed));
    assert_eq!(err.message(), "failed to parse json schema");
    let err = portation_json_schema(r#"{"type":"foo"}"#).err().unwrap();
    assert!(matches!(&err, PortationSchemaError::InvalidSchema(SchemaError::InvalidTypeFieldValue(t)) if t == "foo"));
    assert_eq!(err.message(), "invalid json schema type field value: foo");
}
