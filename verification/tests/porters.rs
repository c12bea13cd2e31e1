use holium_utils::json_schema::{HoliumJsonSchema, HoliumJsonSchemaName, HoliumJsonSchemaType};
use holium_utils::porters::{cbor_import_value_to_holium, json_import_value_to_holium, export_value_from_holium,
    validate_json_schema_for_bin_porter, BinPorter, CborPorter, JsonPorter, FormatPorter, Error};
use holium_utils::porters::{import_portation_data, PortationError};
use holium_utils::local_helpers::PortationFileFormat;
use holium_utils::values::{CborValue, CborSimple, JsonValue, JsonNumber};

fn cbor_eq(a: &CborValue, b: &CborValue) -> bool {
    match (a, b) {
        (CborValue::Unsigned(x), CborValue::Unsigned(y)) => x == y,
        (CborValue::Negative(x), CborValue::Negative(y)) => x == y,
        (CborValue::ByteString(x), CborValue::ByteString(y)) => x == y,
        (CborValue::TextString(x), CborValue::TextString(y)) => x == y,
        (CborValue::Array(x), CborValue::Array(y)) => x.len() == y.len() && x.iter().zip(y.iter()).all(|(p, q)| cbor_eq(p, q)),
        (CborValue::Mapping(x), CborValue::Mapping(y)) => x.len() == y.len()
            && x.iter().zip(y.iter()).all(|(p, q)| cbor_eq(&p.0, &q.0) && cbor_eq(&p.1, &q.1)),
        (CborValue::Tag(t, x), CborValue::Tag(u, y)) => t == u && cbor_eq(x, y),
        (CborValue::Simple(x), CborValue::Simple(y)) => x == y,
        _ => false,
    }
}

fn json_eq(a: &JsonValue, b: &JsonValue) -> bool {
    match (a, b) {
        (JsonValue::Null, JsonValue::Null) => true,
        (JsonValue::Bool(x), JsonValue::Bool(y)) => x == y,
        (JsonValue::Number(x), JsonValue::Number(y)) => x == y,
        (JsonValue::String(x), JsonValue::String(y)) => x == y,
        (JsonValue::Array(x), JsonValue::Array(y)) => x.len() == y.len() && x.iter().zip(y.iter()).all(|(p, q)| json_eq(p, q)),
        (JsonValue::Object(x), JsonValue::Object(y)) => x.len() == y.len()
            && x.iter().zip(y.iter()).all(|(p, q)| p.0 == q.0 && json_eq(&p.1, &q.1)),
        _ => false,
    }
}

fn schema(t: HoliumJsonSchemaType) -> HoliumJsonSchema {
    HoliumJsonSchema(HoliumJsonSchemaName(None), Box::new(t))
}

fn named(name: &str, t: HoliumJsonSchemaType) -> HoliumJsonSchema {
    HoliumJsonSchema(HoliumJsonSchemaName(Some(name.to_string())), Box::new(t))
}

fn bin_schema() -> HoliumJsonSchema {
    schema(HoliumJsonSchemaType::TupleArray(vec![schema(HoliumJsonSchemaType::ByteString)]))
}

#[test]
fn can_import_cbor_boolean_value() {
    let json_schema = schema(HoliumJsonSchemaType::Boolean);
    let cbor_value = CborValue::Simple(CborSimple::TrueValue);
    let holium_cbor = cbor_import_value_to_holium(&json_schema, &cbor_value).unwrap();
    assert!(cbor_eq(&holium_cbor, &CborValue::Simple(CborSimple::TrueValue)));
}

#[test]
fn can_import_cbor_map_value() {
    let json_schema = schema(HoliumJsonSchemaType::Object(vec![
        named("key1", HoliumJsonSchemaType::Boolean),
        named("key0", HoliumJsonSchemaType::Number),
    ]));
    let cbor_value = CborValue::Mapping(vec![
        (CborValue::TextString("key0".to_string()), CborValue::Unsigned(42u64)),
        (CborValue::TextString("key1".to_string()), CborValue::Simple(CborSimple::TrueValue)),
    ]);
    let holium_cbor = cbor_import_value_to_holium(&json_schema, &cbor_value).unwrap();
    assert!(cbor_eq(&holium_cbor, &CborValue::Array(vec![
        CborValue::Simple(CborSimple::TrueValue),
        CborValue::Unsigned(42),
    ])));
}

#[test]
fn can_import_json_boolean_value() {
    let json_schema = schema(HoliumJsonSchemaType::Boolean);
    let json_value = JsonValue::Bool(true);
    let holium_cbor = json_import_value_to_holium(&json_schema, &json_value).unwrap();
    assert!(cbor_eq(&holium_cbor, &CborValue::Simple(CborSimple::TrueValue)));
}

#[test]
fn cannot_import_boolean_with_wrong_schema() {
    let json_schema = schema(HoliumJsonSchemaType::Number);
    let json_value = JsonValue::Bool(true);
    let holium_cbor = json_import_value_to_holium(&json_schema, &json_value);
    assert!(holium_cbor.is_err());
}

#[test]
fn can_import_json_object_value() {
    let json_schema = schema(HoliumJsonSchemaType::Object(vec![
        named("key1", HoliumJsonSchemaType::Boolean),
        named("key0", HoliumJsonSchemaType::Number),
    ]));
    // the value that `{ "key0": 42, "key1": true }` parses into
    let json_value = JsonValue::Object(vec![
        ("key0".to_string(), JsonValue::Number(JsonNumber::PosInt(42))),
        ("key1".to_string(), JsonValue::Bool(true)),
    ]);
    let holium_cbor = json_import_value_to_holium(&json_schema, &json_value).unwrap();
    assert!(cbor_eq(&holium_cbor, &CborValue::Array(vec![
        CborValue::Simple(CborSimple::TrueValue),
        CborValue::Unsigned(42),
    ])));
}

#[test]
fn can_import_json_bytes_value() {
    let json_schema = schema(HoliumJsonSchemaType::ByteString);
    let data: Vec<u8> = vec![1, 2, 3];
    let json_value = JsonValue::String(base64::encode(data));
    let holium_cbor = json_import_value_to_holium(&json_schema, &json_value).unwrap();
    assert!(cbor_eq(&holium_cbor, &CborValue::ByteString(vec![0x01, 0x02, 0x03])));
}

#[test]
fn json_object_import_of_the_json_text() {
    let json_schema = schema(HoliumJsonSchemaType::Object(vec![
        named("key1", HoliumJsonSchemaType::Boolean),
        named("key0", HoliumJsonSchemaType::Number),
    ]));
    let data = r#"
        {
            "key0": 42,
            "key1": true
        }"#;
    let bytes = <JsonPorter as FormatPorter>::import_to_holium(&json_schema, data.as_bytes()).unwrap();
    // [true, 42] as CBOR
    assert_eq!(bytes, vec![0x82, 0xf5, 0x18, 0x2a]);
}

#[test]
fn json_import_errors() {
    let s = schema(HoliumJsonSchemaType::Number);
    assert!(matches!(json_import_value_to_holium(&s, &JsonValue::Number(JsonNumber::Float)), Err(Error::UnhandledFloat)));
    let r = json_import_value_to_holium(&s, &JsonValue::Number(JsonNumber::NegInt(-3))).unwrap();
    assert!(cbor_eq(&r, &CborValue::Negative(-3)));
    let s = schema(HoliumJsonSchemaType::ByteString);
    assert!(matches!(json_import_value_to_holium(&s, &JsonValue::String("%%%".to_string())), Err(Error::Base64DecodeError)));
    let s = schema(HoliumJsonSchemaType::Object(vec![named("a", HoliumJsonSchemaType::Null)]));
    match json_import_value_to_holium(&s, &JsonValue::Object(vec![])) {
        Err(e) => assert_eq!(e.message(), "missing key in imported object: a"),
        Ok(_) => panic!("expected a missing key"),
    }
    let s = schema(HoliumJsonSchemaType::Object(vec![schema(HoliumJsonSchemaType::Null)]));
    assert!(matches!(json_import_value_to_holium(&s, &JsonValue::Object(vec![])), Err(Error::MissingKeyInObjectTypeSchema)));
    // null takes any value
    let s = schema(HoliumJsonSchemaType::Null);
    let r = json_import_value_to_holium(&s, &JsonValue::Bool(false)).unwrap();
    assert!(cbor_eq(&r, &CborValue::Simple(CborSimple::NullValue)));
}

#[test]
fn tuples_are_zipped_with_their_schemata() {
    let s = schema(HoliumJsonSchemaType::TupleArray(vec![
        schema(HoliumJsonSchemaType::Boolean),
        schema(HoliumJsonSchemaType::TextString),
    ]));
    let r = json_import_value_to_holium(&s, &JsonValue::Array(vec![JsonValue::Bool(false)])).unwrap();
    assert!(cbor_eq(&r, &CborValue::Array(vec![CborValue::Simple(CborSimple::FalseValue)])));
    let r = cbor_import_value_to_holium(&s, &CborValue::Array(vec![
        CborValue::Simple(CborSimple::TrueValue), CborValue::TextString("x".to_string()), CborValue::Unsigned(3),
    ])).unwrap();
    assert!(cbor_eq(&r, &CborValue::Array(vec![CborValue::Simple(CborSimple::TrueValue), CborValue::TextString("x".to_string())])));
}

#[test]
fn cbor_map_keys_are_found_first_first() {
    let s = schema(HoliumJsonSchemaType::Object(vec![named("k", HoliumJsonSchemaType::Number)]));
    let v = CborValue::Mapping(vec![
        (CborValue::Unsigned(1), CborValue::Unsigned(0)),
        (CborValue::TextString("k".to_string()), CborValue::Unsigned(7)),
        (CborValue::TextString("k".to_string()), CborValue::Unsigned(8)),
    ]);
    let r = cbor_import_value_to_holium(&s, &v).unwrap();
    assert!(cbor_eq(&r, &CborValue::Array(vec![CborValue::Unsigned(7)])));
    assert!(matches!(cbor_import_value_to_holium(&s, &CborValue::Unsigned(1)), Err(Error::IncompatibleSchemaAndValue)));
}

#[test]
fn export_writes_numbers_as_floats_and_bytes_as_base64() {
    let s = schema(HoliumJsonSchemaType::Object(vec![
        named("n", HoliumJsonSchemaType::Number),
        named("b", HoliumJsonSchemaType::ByteString),
        named("m", HoliumJsonSchemaType::Number),
    ]));
    let v = CborValue::Array(vec![CborValue::Unsigned(5), CborValue::ByteString(vec![1, 2, 3]), CborValue::Negative(-2)]);
    let j = export_value_from_holium(&s, &v).unwrap();
    assert!(json_eq(&j, &JsonValue::Object(vec![
        ("n".to_string(), JsonValue::Number(JsonNumber::FloatOfUnsigned(5))),
        ("b".to_string(), JsonValue::String("AQID".to_string())),
        ("m".to_string(), JsonValue::Number(JsonNumber::FloatOfSigned(-2))),
    ])));
}

#[test]
fn json_export_then_import_gives_the_data_back() {
    let s = schema(HoliumJsonSchemaType::Object(vec![
        named("flag", HoliumJsonSchemaType::Boolean),
        named("words", HoliumJsonSchemaType::ItemsArray(schema(HoliumJsonSchemaType::TextString))),
        named("nothing", HoliumJsonSchemaType::Null),
    ]));
    let h = CborValue::Array(vec![
        CborValue::Simple(CborSimple::FalseValue),
        CborValue::Array(vec![CborValue::TextString("a".to_string()), CborValue::TextString("b".to_string())]),
        CborValue::Simple(CborSimple::NullValue),
    ]);
    let j = export_value_from_holium(&s, &h).unwrap();
    let back = json_import_value_to_holium(&s, &j).unwrap();
    assert!(cbor_eq(&back, &h));
}

#[test]
fn bin_porter_round_trip() {
    let s = bin_schema();
    let contents = vec![9u8, 8, 7, 0, 255];
    let holium = <BinPorter as FormatPorter>::import_to_holium(&s, &contents).unwrap();
    assert_eq!(holium, vec![0x81, 0x45, 9, 8, 7, 0, 255]);
    let back = <BinPorter as FormatPorter>::export_from_holium(&s, &holium).unwrap();
    assert_eq!(back, contents);
}

#[test]
fn bin_porter_checks_its_schema() {
    assert!(validate_json_schema_for_bin_porter(&bin_schema()).is_ok());
    let s = schema(HoliumJsonSchemaType::TupleArray(vec![]));
    assert!(matches!(validate_json_schema_for_bin_porter(&s), Err(Error::IncompatibleSchemaAndValue)));
    let s = schema(HoliumJsonSchemaType::ByteString);
    assert!(matches!(<BinPorter as FormatPorter>::import_to_holium(&s, &[1]), Err(Error::IncompatibleSchemaAndValue)));
    assert!(matches!(<BinPorter as FormatPorter>::export_from_holium(&bin_schema(), &[0xff, 0xff]), Err(Error::FailedToReadHoliumCborData)));
    assert!(matches!(<BinPorter as FormatPorter>::export_from_holium(&bin_schema(), &[0x80]), Err(Error::IncompatibleSchemaAndValue)));
}

#[test]
fn cbor_porter_reads_and_writes_cbor() {
    let s = schema(HoliumJsonSchemaType::Object(vec![named("a", HoliumJsonSchemaType::Number)]));
    // {"a": -1}
    let bytes = CborPorter::import_to_holium(&s, &[0xa1, 0x61, 0x61, 0x20]).unwrap();
    assert_eq!(bytes, vec![0x81, 0x20]);
    assert!(matches!(CborPorter::import_to_holium(&s, &[0xa1]), Err(Error::FailedToReadCborData)));
}

#[test]
fn json_porter_exports_holium_cbor() {
    let s = schema(HoliumJsonSchemaType::ItemsArray(schema(HoliumJsonSchemaType::Boolean)));
    let j = <JsonPorter as FormatPorter>::export_from_holium(&s, &[0x82, 0xf5, 0xf4]).unwrap();
    assert!(json_eq(&j, &JsonValue::Array(vec![JsonValue::Bool(true), JsonValue::Bool(false)])));
    assert!(matches!(<JsonPorter as FormatPorter>::import_to_holium(&s, b"[1,"), Err(Error::FailedToReadJsonData)));
}

#[test]
fn port_error_messages() {
    assert_eq!(Error::UnhandledFloat.message(), "float value not handled yet in HoliumCBOR data");
    assert_eq!(Error::IncompatibleSchemaAndValue.message(), "schema and value are incompatible");
    assert_eq!(Error::MissingObjectKey("k".to_string()).message(), "missing key in imported object: k");
}

#[test]
fn portation_data_is_imported_with_the_porter_of_its_format() {
    let bin = bin_schema();
    let imported = import_portation_data(&PortationFileFormat::Bin, &bin, &[1, 2, 3]).unwrap();
    assert_eq!(imported, BinPorter::import_to_holium(&bin, &[1, 2, 3]).unwrap());
    let boolean = schema(HoliumJsonSchemaType::Boolean);
    let imported = import_portation_data(&PortationFileFormat::Json, &boolean, b"true").unwrap();
    assert_eq!(imported, vec![0xf5]);
    let imported = import_portation_data(&PortationFileFormat::Cbor, &boolean, &[0xf4]).unwrap();
    assert_eq!(imported, vec![0xf4]);
    let err = import_portation_data(&PortationFileFormat::Csv, &boolean, b"a,b").err().unwrap();
    assert!(matches!(err, PortationError::CsvImportNotSupported));
    assert_eq!(err.message(), "import from CSV format is not supported yet");
    let err = import_portation_data(&PortationFileFormat::Json, &boolean, b"{").err().unwrap();
    assert!(matches!(err, PortationError::Port(Error::FailedToReadJsonData)));
    assert_eq!(err.message(), "failed to read json data");
}

#[test]
fn imported_json_exports_back_to_the_same_value() {
    let s = schema(HoliumJsonSchemaType::Object(vec![
        named("key0", HoliumJsonSchemaType::Boolean),
        named("key1", HoliumJsonSchemaType::ItemsArray(schema(HoliumJsonSchemaType::TextString))),
        named("key2", HoliumJsonSchemaType::Null),
    ]));
    let v = JsonValue::Object(vec![
        ("key0".to_string(), JsonValue::Bool(false)),
        ("key1".to_string(), JsonValue::Array(vec![JsonValue::String("a".to_string()), JsonValue::String("b".to_string())])),
        ("key2".to_string(), JsonValue::Null),
    ]);
    let h = json_import_value_to_holium(&s, &v).unwrap();
    assert!(json_eq(&export_value_from_holium(&s, &h).unwrap(), &v));
}

fn member<'a>(members: &'a [(String, JsonValue)], key: &str) -> Option<&'a JsonValue> {
    members.iter().find(|m| m.0 == key).map(|m| &m.1)
}

#[test]
fn imported_json_with_bytes_and_members_in_any_order_exports_back_to_the_same_map() {
    let s = schema(HoliumJsonSchemaType::Object(vec![
        named("bytes", HoliumJsonSchemaType::ByteString),
        named("flag", HoliumJsonSchemaType::Boolean),
        named("text", HoliumJsonSchemaType::TextString),
    ]));
    let v = JsonValue::Object(vec![
        ("text".to_string(), JsonValue::String("hi".to_string())),
        ("flag".to_string(), JsonValue::Bool(true)),
        ("bytes".to_string(), JsonValue::String("aGVsbG8=".to_string())),
    ]);
    let h = json_import_value_to_holium(&s, &v).unwrap();
    assert!(cbor_eq(&h, &CborValue::Array(vec![
        CborValue::ByteString(b"hello".to_vec()),
        CborValue::Simple(CborSimple::TrueValue),
        CborValue::TextString("hi".to_string()),
    ])));
    let w = match export_value_from_holium(&s, &h).unwrap() {
        JsonValue::Object(w) => w,
        _ => panic!("an object schema exports an object"),
    };
    let v = match v {
        JsonValue::Object(v) => v,
        _ => unreachable!(),
    };
    assert_eq!(w.len(), v.len());
    for (key, value) in v.iter() {
        assert!(json_eq(member(&w, key).unwrap(), value));
    }
}

#[test]
fn byte_strings_are_written_as_padded_standard_base64() {
    let s = schema(HoliumJsonSchemaType::ItemsArray(schema(HoliumJsonSchemaType::ByteString)));
    let h = CborValue::Array(vec![
        CborValue::ByteString(vec![]),
        CborValue::ByteString(vec![0xfb]),
        CborValue::ByteString(vec![0xfb, 0xff]),
        CborValue::ByteString(vec![0xfb, 0xff, 0xbf, 0x41]),
    ]);
    let j = export_value_from_holium(&s, &h).unwrap();
    assert!(json_eq(&j, &JsonValue::Array(vec![
        JsonValue::String("".to_string()),
        JsonValue::String("+w==".to_string()),
        JsonValue::String("+/8=".to_string()),
        JsonValue::String("+/+/QQ==".to_string()),
    ])));
}

#[test]
fn exported_object_keeps_one_member_per_property_name() {
    let s = schema(HoliumJsonSchemaType::Object(vec![
        named("a", HoliumJsonSchemaType::Boolean),
        named("b", HoliumJsonSchemaType::TextString),
        named("a", HoliumJsonSchemaType::Boolean),
    ]));
    let h = CborValue::Array(vec![
        CborValue::Simple(CborSimple::TrueValue),
        CborValue::TextString("x".to_string()),
        CborValue::Simple(CborSimple::FalseValue),
    ]);
    let j = export_value_from_holium(&s, &h).unwrap();
    assert!(json_eq(&j, &JsonValue::Object(vec![
        ("a".to_string(), JsonValue::Bool(false)),
        ("b".to_string(), JsonValue::String("x".to_string())),
    ])));
}
