//! JSON schemata of local Holium pipeline nodes, parsed into Holium JSON schemata.
use vstd::prelude::*;
use crate::codecs::{json_from_str, json_text_decoding};
use crate::values::{JsonValue, SpecJson, view_json, view_json_members, view_json_seq, spec_member_position,
    lemma_view_json_members, lemma_view_json_seq, lemma_member_position, json_get, str_eq, json_size,
    json_seq_size, json_members_size, lemma_json_seq_size, lemma_json_members_size, spec_json_get};

verus! {

broadcast use vstd::std_specs::vec::group_vec_axioms;

/// Errors raised while checking a JSON schema.
#[derive(Debug)]
pub enum SchemaError {
    StringNotParsableToJSON,
    InvalidJsonSchema,
    SchemaShouldBeJsonObject,
    MissingTypeField,
    MissingPropertiesField,
    MissingItemsField,
    TypeFieldShouldHoldStringValue,
    PropertiesFieldShouldHoldObjectValue,
    ItemsFieldShouldHoldObjectValue,
    PrefixItemsFieldShouldHoldArrayValue,
    InvalidTypeFieldValue(String),
    InvalidSchemaForPipelineNode,
}

/// Mathematical model of a [`SchemaError`].
pub enum SpecSchemaError {
    StringNotParsableToJSON,
    InvalidJsonSchema,
    SchemaShouldBeJsonObject,
    MissingTypeField,
    MissingPropertiesField,
    MissingItemsField,
    TypeFieldShouldHoldStringValue,
    PropertiesFieldShouldHoldObjectValue,
    ItemsFieldShouldHoldObjectValue,
    PrefixItemsFieldShouldHoldArrayValue,
    InvalidTypeFieldValue(Seq<char>),
    InvalidSchemaForPipelineNode,
}

impl View for SchemaError {
    type V = SpecSchemaError;

    open spec fn view(&self) -> SpecSchemaError {
        match self {
            SchemaError::StringNotParsableToJSON => SpecSchemaError::StringNotParsableToJSON,
            SchemaError::InvalidJsonSchema => SpecSchemaError::InvalidJsonSchema,
            SchemaError::SchemaShouldBeJsonObject => SpecSchemaError::SchemaShouldBeJsonObject,
            SchemaError::MissingTypeField => SpecSchemaError::MissingTypeField,
            SchemaError::MissingPropertiesField => SpecSchemaError::MissingPropertiesField,
            SchemaError::MissingItemsField => SpecSchemaError::MissingItemsField,
            SchemaError::TypeFieldShouldHoldStringValue => SpecSchemaError::TypeFieldShouldHoldStringValue,
            SchemaError::PropertiesFieldShouldHoldObjectValue => SpecSchemaError::PropertiesFieldShouldHoldObjectValue,
            SchemaError::ItemsFieldShouldHoldObjectValue => SpecSchemaError::ItemsFieldShouldHoldObjectValue,
            SchemaError::PrefixItemsFieldShouldHoldArrayValue => SpecSchemaError::PrefixItemsFieldShouldHoldArrayValue,
            SchemaError::InvalidTypeFieldValue(s) => SpecSchemaError::InvalidTypeFieldValue(s@),
            SchemaError::InvalidSchemaForPipelineNode => SpecSchemaError::InvalidSchemaForPipelineNode,
        }
    }
}

/// Human readable description of a schema error.
pub open spec fn spec_schema_error_message(e: SpecSchemaError) -> Seq<char> {
    match e {
        SpecSchemaError::StringNotParsableToJSON => "invalid string can not be parsed to json"@,
        SpecSchemaError::InvalidJsonSchema => "invalid json schema"@,
        SpecSchemaError::SchemaShouldBeJsonObject => "a json schema should be a json object"@,
        SpecSchemaError::MissingTypeField => "type field missing in the json schema"@,
        SpecSchemaError::MissingPropertiesField => "properties field missing in the json schema"@,
        SpecSchemaError::MissingItemsField => "items or prefixItems field missing in the json schema"@,
        SpecSchemaError::TypeFieldShouldHoldStringValue => "type field value should be a string in a json schema"@,
        SpecSchemaError::PropertiesFieldShouldHoldObjectValue => "properties field value should be an object in a json schema"@,
        SpecSchemaError::ItemsFieldShouldHoldObjectValue => "items field value should be an object in a json schema"@,
        SpecSchemaError::PrefixItemsFieldShouldHoldArrayValue => "prefixItems field value should be an array in a json schema"@,
        SpecSchemaError::InvalidTypeFieldValue(t) => "invalid json schema type field value: "@ + t,
        SpecSchemaError::InvalidSchemaForPipelineNode =>
            "json schema of a pipeline node should hold an array of tuples ({ \"type\" : \"array\" , \"prefixItems\" : … }) at its root"@,
    }
}

impl SchemaError {
    /// Human readable description of the error.
    pub fn message(&self) -> (r: String)
        ensures r@ == spec_schema_error_message(self@),
    {
        match self {
            SchemaError::StringNotParsableToJSON => String::from_str("invalid string can not be parsed to json"),
            SchemaError::InvalidJsonSchema => String::from_str("invalid json schema"),
            SchemaError::SchemaShouldBeJsonObject => String::from_str("a json schema should be a json object"),
            SchemaError::MissingTypeField => String::from_str("type field missing in the json schema"),
            SchemaError::MissingPropertiesField => String::from_str("properties field missing in the json schema"),
            SchemaError::MissingItemsField => String::from_str("items or prefixItems field missing in the json schema"),
            SchemaError::TypeFieldShouldHoldStringValue => String::from_str("type field value should be a string in a json schema"),
            SchemaError::PropertiesFieldShouldHoldObjectValue => String::from_str("properties field value should be an object in a json schema"),
            SchemaError::ItemsFieldShouldHoldObjectValue => String::from_str("items field value should be an object in a json schema"),
            SchemaError::PrefixItemsFieldShouldHoldArrayValue => String::from_str("prefixItems field value should be an array in a json schema"),
            SchemaError::InvalidTypeFieldValue(t) => {
                let mut m = String::from_str("invalid json schema type field value: ");
                m.append(t.as_str());
                m
            },
            SchemaError::InvalidSchemaForPipelineNode => String::from_str(
                "json schema of a pipeline node should hold an array of tuples ({ \"type\" : \"array\" , \"prefixItems\" : … }) at its root"),
        }
    }
}

/// A Holium JSON schema: an optional name, and a type.
pub struct HoliumJsonSchema(pub HoliumJsonSchemaName, pub Box<HoliumJsonSchemaType>);

/// The name a schema is attached to, as an object property, if any.
pub struct HoliumJsonSchemaName(pub Option<String>);

/// The types a Holium JSON schema describes.
pub enum HoliumJsonSchemaType {
    Object(Vec<HoliumJsonSchema>),
    TupleArray(Vec<HoliumJsonSchema>),
    ItemsArray(HoliumJsonSchema),
    ByteString,
    TextString,
    Number,
    Boolean,
    Null,
}

/// Mathematical model of a [`HoliumJsonSchema`].
pub struct SpecSchema {
    pub name: Option<Seq<char>>,
    pub ty: SpecSchemaType,
}

/// Mathematical model of a [`HoliumJsonSchemaType`].
pub enum SpecSchemaType {
    Object(Seq<SpecSchema>),
    TupleArray(Seq<SpecSchema>),
    ItemsArray(Box<SpecSchema>),
    ByteString,
    TextString,
    Number,
    Boolean,
    Null,
}

pub open spec fn view_schemas(s: Seq<HoliumJsonSchema>) -> Seq<SpecSchema>
    decreases s,
{
    if s.len() == 0 { Seq::empty() } else { view_schemas(s.drop_last()).push(view_schema(s.last())) }
}

pub open spec fn view_name(n: HoliumJsonSchemaName) -> Option<Seq<char>> {
    match n.0 {
        Some(s) => Some(s@),
        None => None,
    }
}

pub open spec fn view_schema_type(t: HoliumJsonSchemaType) -> SpecSchemaType
    decreases t,
{
    match t {
        HoliumJsonSchemaType::Object(v) => SpecSchemaType::Object(view_schemas(v@)),
        HoliumJsonSchemaType::TupleArray(v) => SpecSchemaType::TupleArray(view_schemas(v@)),
        HoliumJsonSchemaType::ItemsArray(s) => SpecSchemaType::ItemsArray(Box::new(view_schema(s))),
        HoliumJsonSchemaType::ByteString => SpecSchemaType::ByteString,
        HoliumJsonSchemaType::TextString => SpecSchemaType::TextString,
        HoliumJsonSchemaType::Number => SpecSchemaType::Number,
        HoliumJsonSchemaType::Boolean => SpecSchemaType::Boolean,
        HoliumJsonSchemaType::Null => SpecSchemaType::Null,
    }
}

pub open spec fn view_schema(s: HoliumJsonSchema) -> SpecSchema
    decreases s,
{
    SpecSchema { name: view_name(s.0), ty: view_schema_type(*s.1) }
}

impl View for HoliumJsonSchema {
    type V = SpecSchema;

    open spec fn view(&self) -> SpecSchema {
        view_schema(*self)
    }
}

pub proof fn lemma_view_schemas(s: Seq<HoliumJsonSchema>)
    ensures
        view_schemas(s).len() == s.len(),
        forall|i: int| 0 <= i < s.len() ==> #[trigger] view_schemas(s)[i] == view_schema(s[i]),
    decreases s.len(),
{
    if s.len() > 0 {
        lemma_view_schemas(s.drop_last());
    }
}

pub proof fn lemma_view_schemas_push(s: Seq<HoliumJsonSchema>, x: HoliumJsonSchema)
    ensures view_schemas(s.push(x)) == view_schemas(s).push(view_schema(x)),
{
    assert(s.push(x).drop_last() =~= s);
}

/// Number of schemata a schema is made of, itself included.
pub open spec fn schema_size(s: SpecSchema) -> nat
    decreases s,
{
    match s.ty {
        SpecSchemaType::Object(ss) => 1 + schemas_size(ss),
        SpecSchemaType::TupleArray(ss) => 1 + schemas_size(ss),
        SpecSchemaType::ItemsArray(item) => 1 + schema_size(*item),
        _ => 1,
    }
}

/// Number of schemata a sequence of schemata is made of.
pub open spec fn schemas_size(ss: Seq<SpecSchema>) -> nat
    decreases ss,
{
    if ss.len() == 0 { 0 } else { schemas_size(ss.drop_last()) + schema_size(ss.last()) }
}

pub proof fn lemma_schemas_size(ss: Seq<SpecSchema>, i: int)
    requires 0 <= i < ss.len(),
    ensures schema_size(ss[i]) <= schemas_size(ss),
    decreases ss.len(),
{
    if i < ss.len() - 1 {
        lemma_schemas_size(ss.drop_last(), i);
    }
}

pub open spec fn lit_type() -> Seq<char> { seq!['t', 'y', 'p', 'e'] }
pub open spec fn lit_null() -> Seq<char> { seq!['n', 'u', 'l', 'l'] }
pub open spec fn lit_boolean() -> Seq<char> { seq!['b', 'o', 'o', 'l', 'e', 'a', 'n'] }
pub open spec fn lit_number() -> Seq<char> { seq!['n', 'u', 'm', 'b', 'e', 'r'] }
pub open spec fn lit_string() -> Seq<char> { seq!['s', 't', 'r', 'i', 'n', 'g'] }
pub open spec fn lit_object() -> Seq<char> { seq!['o', 'b', 'j', 'e', 'c', 't'] }
pub open spec fn lit_array() -> Seq<char> { seq!['a', 'r', 'r', 'a', 'y'] }
pub open spec fn lit_properties() -> Seq<char> { seq!['p', 'r', 'o', 'p', 'e', 'r', 't', 'i', 'e', 's'] }
pub open spec fn lit_items() -> Seq<char> { seq!['i', 't', 'e', 'm', 's'] }
pub open spec fn lit_prefix_items() -> Seq<char> { seq!['p', 'r', 'e', 'f', 'i', 'x', 'I', 't', 'e', 'm', 's'] }
pub open spec fn lit_content_encoding() -> Seq<char> {
    seq!['c', 'o', 'n', 't', 'e', 'n', 't', 'E', 'n', 'c', 'o', 'd', 'i', 'n', 'g']
}
pub open spec fn lit_base64() -> Seq<char> { seq!['b', 'a', 's', 'e', '6', '4'] }

/// Position of the member `key` in `ms`, when present.
pub open spec fn member_at(ms: Seq<(Seq<char>, SpecJson)>, key: Seq<char>) -> int {
    spec_member_position(ms, key)
}

pub open spec fn has_member(ms: Seq<(Seq<char>, SpecJson)>, key: Seq<char>) -> bool {
    0 <= member_at(ms, key) < ms.len()
}

/// The type name and the members of a schema object.
pub open spec fn spec_schema_details(v: SpecJson) -> Result<(Seq<char>, Seq<(Seq<char>, SpecJson)>), SpecSchemaError> {
    match v {
        SpecJson::Object(ms) => if !has_member(ms, lit_type()) {
            Err(SpecSchemaError::MissingTypeField)
        } else {
            match ms[member_at(ms, lit_type())].1 {
                SpecJson::String(t) => Ok((t, ms)),
                _ => Err(SpecSchemaError::TypeFieldShouldHoldStringValue),
            }
        },
        _ => Err(SpecSchemaError::SchemaShouldBeJsonObject),
    }
}

/// Whether a schema object declares a base64 content encoding.
pub open spec fn spec_has_base64_encoding(ms: Seq<(Seq<char>, SpecJson)>) -> bool {
    has_member(ms, lit_content_encoding())
        && ms[member_at(ms, lit_content_encoding())].1 == SpecJson::String(lit_base64())
}

/// Whether a schema object describes an array of tuples.
pub open spec fn spec_is_tuples_array(ms: Seq<(Seq<char>, SpecJson)>) -> bool {
    has_member(ms, lit_prefix_items())
}

/// The Holium schema a JSON schema describes, under a name.
pub open spec fn spec_parse_json_schema(name: Option<Seq<char>>, v: SpecJson) -> Result<SpecSchema, SpecSchemaError>
    decreases v,
{
    match v {
        SpecJson::Object(ms) => if !has_member(ms, lit_type()) {
            Err(SpecSchemaError::MissingTypeField)
        } else {
            match ms[member_at(ms, lit_type())].1 {
                SpecJson::String(t) => if t == lit_null() {
                    Ok(SpecSchema { name, ty: SpecSchemaType::Null })
                } else if t == lit_boolean() {
                    Ok(SpecSchema { name, ty: SpecSchemaType::Boolean })
                } else if t == lit_number() {
                    Ok(SpecSchema { name, ty: SpecSchemaType::Number })
                } else if t == lit_string() {
                    if spec_has_base64_encoding(ms) {
                        Ok(SpecSchema { name, ty: SpecSchemaType::ByteString })
                    } else {
                        Ok(SpecSchema { name, ty: SpecSchemaType::TextString })
                    }
                } else if t == lit_object() {
                    if !has_member(ms, lit_properties()) {
                        Err(SpecSchemaError::MissingPropertiesField)
                    } else {
                        match ms[member_at(ms, lit_properties())].1 {
                            SpecJson::Object(props) => match spec_parse_properties(props) {
                                Err(e) => Err(e),
                                Ok(schemata) => Ok(SpecSchema { name, ty: SpecSchemaType::Object(schemata) }),
                            },
                            _ => Err(SpecSchemaError::PropertiesFieldShouldHoldObjectValue),
                        }
                    }
                } else if t == lit_array() {
                    if spec_is_tuples_array(ms) {
                        match ms[member_at(ms, lit_prefix_items())].1 {
                            SpecJson::Array(items) => match spec_parse_schema_list(items) {
                                Err(e) => Err(e),
                                Ok(schemata) => Ok(SpecSchema { name, ty: SpecSchemaType::TupleArray(schemata) }),
                            },
                            _ => Err(SpecSchemaError::PrefixItemsFieldShouldHoldArrayValue),
                        }
                    } else if !has_member(ms, lit_items()) {
                        Err(SpecSchemaError::MissingItemsField)
                    } else {
                        match ms[member_at(ms, lit_items())].1 {
                            SpecJson::Object(_) => match spec_parse_json_schema(None, ms[member_at(ms, lit_items())].1) {
                                Err(e) => Err(e),
                                Ok(item) => Ok(SpecSchema { name, ty: SpecSchemaType::ItemsArray(Box::new(item)) }),
                            },
                            _ => Err(SpecSchemaError::ItemsFieldShouldHoldObjectValue),
                        }
                    }
                } else {
                    Err(SpecSchemaError::InvalidTypeFieldValue(t))
                },
                _ => Err(SpecSchemaError::TypeFieldShouldHoldStringValue),
            }
        },
        _ => Err(SpecSchemaError::SchemaShouldBeJsonObject),
    }
}

/// The schemata of the properties of an object schema, each named after its property.
pub open spec fn spec_parse_properties(props: Seq<(Seq<char>, SpecJson)>) -> Result<Seq<SpecSchema>, SpecSchemaError>
    decreases props,
{
    if props.len() == 0 {
        Ok(Seq::empty())
    } else {
        match spec_parse_properties(props.drop_last()) {
            Err(e) => Err(e),
            Ok(prefix) => match spec_parse_json_schema(Some(props.last().0), props.last().1) {
                Err(e) => Err(e),
                Ok(s) => Ok(prefix.push(s)),
            },
        }
    }
}

/// The unnamed schemata of a list of JSON schemata.
pub open spec fn spec_parse_schema_list(items: Seq<SpecJson>) -> Result<Seq<SpecSchema>, SpecSchemaError>
    decreases items,
{
    if items.len() == 0 {
        Ok(Seq::empty())
    } else {
        match spec_parse_schema_list(items.drop_last()) {
            Err(e) => Err(e),
            Ok(prefix) => match spec_parse_json_schema(None, items.last()) {
                Err(e) => Err(e),
                Ok(s) => Ok(prefix.push(s)),
            },
        }
    }
}


/// A well formed JSON schema: an object whose `type` member is a text naming a scalar type; or
/// `object`, with a `properties` object whose members are well formed schemata; or `array`, with a
/// `prefixItems` array of well formed schemata, or else an `items` object that is a well formed
/// schema.
pub open spec fn well_formed_schema(v: SpecJson) -> bool
    decreases v,
{
    match v {
        SpecJson::Object(ms) => has_member(ms, lit_type()) && match ms[member_at(ms, lit_type())].1 {
            SpecJson::String(t) => {
                ||| t == lit_null() || t == lit_boolean() || t == lit_number() || t == lit_string()
                ||| t == lit_object() && has_member(ms, lit_properties()) && match ms[member_at(ms, lit_properties())].1 {
                    SpecJson::Object(props) => well_formed_properties(props),
                    _ => false,
                }
                ||| t == lit_array() && if has_member(ms, lit_prefix_items()) {
                    match ms[member_at(ms, lit_prefix_items())].1 {
                        SpecJson::Array(items) => well_formed_schema_list(items),
                        _ => false,
                    }
                } else {
                    has_member(ms, lit_items()) && match ms[member_at(ms, lit_items())].1 {
                        SpecJson::Object(_) => well_formed_schema(ms[member_at(ms, lit_items())].1),
                        _ => false,
                    }
                }
            },
            _ => false,
        },
        _ => false,
    }
}

/// Every member of a `properties` object is a well formed schema.
pub open spec fn well_formed_properties(props: Seq<(Seq<char>, SpecJson)>) -> bool
    decreases props,
{
    props.len() == 0 || (well_formed_properties(props.drop_last()) && well_formed_schema(props.last().1))
}

/// Every element of a `prefixItems` array is a well formed schema.
pub open spec fn well_formed_schema_list(items: Seq<SpecJson>) -> bool
    decreases items,
{
    items.len() == 0 || (well_formed_schema_list(items.drop_last()) && well_formed_schema(items.last()))
}

/// Parsing a JSON schema succeeds exactly on well formed schemata, and keeps the name it is given;
/// a `string` schema is a byte string exactly where its `contentEncoding` is `base64`.
pub proof fn law_parse_json_schema(name: Option<Seq<char>>, v: SpecJson)
    ensures
        spec_parse_json_schema(name, v) is Ok <==> well_formed_schema(v),
        spec_parse_json_schema(name, v) is Ok ==> spec_parse_json_schema(name, v)->Ok_0.name == name,
        (v matches SpecJson::Object(ms) && has_member(ms, lit_type())
            && ms[member_at(ms, lit_type())].1 == SpecJson::String(lit_string())) ==> spec_parse_json_schema(name, v) is Ok
            && (spec_parse_json_schema(name, v)->Ok_0.ty == SpecSchemaType::ByteString
                <==> spec_has_base64_encoding(v->Object_0))
            && (spec_parse_json_schema(name, v)->Ok_0.ty == SpecSchemaType::ByteString
                || spec_parse_json_schema(name, v)->Ok_0.ty == SpecSchemaType::TextString),
    decreases v,
{
    match v {
        SpecJson::Object(ms) => {
            if has_member(ms, lit_type()) {
                match ms[member_at(ms, lit_type())].1 {
                    SpecJson::String(t) => {
                        if t == lit_object() && has_member(ms, lit_properties()) {
                            match ms[member_at(ms, lit_properties())].1 {
                                SpecJson::Object(props) => lemma_parse_properties_ok(props),
                                _ => {},
                            }
                        }
                        if t == lit_array() {
                            if has_member(ms, lit_prefix_items()) {
                                match ms[member_at(ms, lit_prefix_items())].1 {
                                    SpecJson::Array(items) => lemma_parse_schema_list_ok(items),
                                    _ => {},
                                }
                            } else if has_member(ms, lit_items()) {
                                match ms[member_at(ms, lit_items())].1 {
                                    SpecJson::Object(_) => law_parse_json_schema(None, ms[member_at(ms, lit_items())].1),
                                    _ => {},
                                }
                            }
                        }
                        assert(lit_null() != lit_object() && lit_boolean() != lit_object() && lit_number() != lit_object()
                            && lit_string() != lit_object()) by {
                            assert(lit_null().len() != lit_object().len());
                            assert(lit_boolean().len() != lit_object().len());
                            assert(lit_number()[0] != lit_object()[0]);
                            assert(lit_string()[0] != lit_object()[0]);
                        }
                        assert(lit_null() != lit_array() && lit_boolean() != lit_array() && lit_number() != lit_array()
                            && lit_string() != lit_array() && lit_object() != lit_array()) by {
                            assert(lit_null().len() != lit_array().len());
                            assert(lit_boolean().len() != lit_array().len());
                            assert(lit_number().len() != lit_array().len());
                            assert(lit_string().len() != lit_array().len());
                            assert(lit_object().len() != lit_array().len());
                        }
                        assert(lit_string() != lit_null() && lit_string() != lit_boolean() && lit_string() != lit_number()) by {
                            assert(lit_string().len() != lit_null().len());
                            assert(lit_string().len() != lit_boolean().len());
                            assert(lit_string()[0] != lit_number()[0]);
                        }
                    },
                    _ => {},
                }
            }
        },
        _ => {},
    }
}

/// A schema object whose `type` member is one of the texts `null`, `boolean`, `number` and
/// `string` parses, under any name, to a schema of that name and of the matching type: `null`
/// gives Null, `boolean` Boolean, `number` Number, and `string` a byte string where its
/// `contentEncoding` member is the text `base64`, a text string otherwise.
pub proof fn law_scalar_type_names(name: Option<Seq<char>>, ms: Seq<(Seq<char>, SpecJson)>)
    ensures
        spec_json_get(ms, "type"@) == Some(SpecJson::String("null"@))
            ==> spec_parse_json_schema(name, SpecJson::Object(ms)) == Ok::<SpecSchema, SpecSchemaError>(SpecSchema { name, ty: SpecSchemaType::Null }),
        spec_json_get(ms, "type"@) == Some(SpecJson::String("boolean"@))
            ==> spec_parse_json_schema(name, SpecJson::Object(ms)) == Ok::<SpecSchema, SpecSchemaError>(SpecSchema { name, ty: SpecSchemaType::Boolean }),
        spec_json_get(ms, "type"@) == Some(SpecJson::String("number"@))
            ==> spec_parse_json_schema(name, SpecJson::Object(ms)) == Ok::<SpecSchema, SpecSchemaError>(SpecSchema { name, ty: SpecSchemaType::Number }),
        spec_json_get(ms, "type"@) == Some(SpecJson::String("string"@))
            ==> spec_parse_json_schema(name, SpecJson::Object(ms)) == Ok::<SpecSchema, SpecSchemaError>(SpecSchema { name,
                ty: if spec_json_get(ms, "contentEncoding"@) == Some(SpecJson::String("base64"@)) {
                    SpecSchemaType::ByteString
                } else {
                    SpecSchemaType::TextString
                } }),
{
    reveal_strlit("type");
    reveal_strlit("null");
    reveal_strlit("boolean");
    reveal_strlit("number");
    reveal_strlit("string");
    reveal_strlit("contentEncoding");
    reveal_strlit("base64");
    assert("type"@ =~= lit_type());
    assert("null"@ =~= lit_null());
    assert("boolean"@ =~= lit_boolean());
    assert("number"@ =~= lit_number());
    assert("string"@ =~= lit_string());
    assert("contentEncoding"@ =~= lit_content_encoding());
    assert("base64"@ =~= lit_base64());
    lemma_member_position(ms, lit_type());
    lemma_member_position(ms, lit_content_encoding());
    assert(lit_null() != lit_boolean() && lit_null() != lit_number() && lit_boolean() != lit_number()) by {
        assert(lit_null().len() != lit_boolean().len());
        assert(lit_null().len() != lit_number().len());
        assert(lit_boolean().len() != lit_number().len());
    }
    assert(lit_string() != lit_null() && lit_string() != lit_boolean() && lit_string() != lit_number()) by {
        assert(lit_string().len() != lit_null().len());
        assert(lit_string().len() != lit_boolean().len());
        assert(lit_string()[0] != lit_number()[0]);
    }
}

proof fn lemma_parse_properties_each(props: Seq<(Seq<char>, SpecJson)>)
    ensures
        spec_parse_properties(props) is Ok <==> forall|k: int| 0 <= k < props.len()
            ==> (#[trigger] spec_parse_json_schema(Some(props[k].0), props[k].1)) is Ok,
        spec_parse_properties(props) is Ok ==> spec_parse_properties(props)->Ok_0.len() == props.len()
            && forall|k: int| 0 <= k < props.len() ==> #[trigger] spec_parse_properties(props)->Ok_0[k]
                == spec_parse_json_schema(Some(props[k].0), props[k].1)->Ok_0,
    decreases props.len(),
{
    if props.len() > 0 {
        let d = props.drop_last();
        lemma_parse_properties_each(d);
        assert forall|k: int| 0 <= k < d.len() implies #[trigger] d[k] == props[k] by {}
        if spec_parse_properties(props) is Ok {
            assert forall|k: int| 0 <= k < props.len() implies (#[trigger] spec_parse_json_schema(Some(props[k].0), props[k].1)) is Ok by {
                if k < props.len() - 1 { assert(d[k] == props[k]); }
            }
        }
        if forall|k: int| 0 <= k < props.len() ==> (#[trigger] spec_parse_json_schema(Some(props[k].0), props[k].1)) is Ok {
            assert(spec_parse_json_schema(Some(props.last().0), props.last().1) is Ok);
            assert forall|k: int| 0 <= k < d.len() implies (#[trigger] spec_parse_json_schema(Some(d[k].0), d[k].1)) is Ok by {
                assert(d[k] == props[k]);
                assert(spec_parse_json_schema(Some(props[k].0), props[k].1) is Ok);
            }
        }
        if spec_parse_properties(props) is Ok {
            assert forall|k: int| 0 <= k < props.len() implies #[trigger] spec_parse_properties(props)->Ok_0[k]
                == spec_parse_json_schema(Some(props[k].0), props[k].1)->Ok_0 by {
                if k < props.len() - 1 { assert(d[k] == props[k]); }
            }
        }
    }
}

proof fn lemma_parse_schema_list_each(items: Seq<SpecJson>)
    ensures
        spec_parse_schema_list(items) is Ok <==> forall|k: int| 0 <= k < items.len()
            ==> (#[trigger] spec_parse_json_schema(None, items[k])) is Ok,
        spec_parse_schema_list(items) is Ok ==> spec_parse_schema_list(items)->Ok_0.len() == items.len()
            && forall|k: int| 0 <= k < items.len() ==> #[trigger] spec_parse_schema_list(items)->Ok_0[k]
                == spec_parse_json_schema(None, items[k])->Ok_0,
    decreases items.len(),
{
    if items.len() > 0 {
        let d = items.drop_last();
        lemma_parse_schema_list_each(d);
        if spec_parse_schema_list(items) is Ok {
            assert forall|k: int| 0 <= k < items.len() implies (#[trigger] spec_parse_json_schema(None, items[k])) is Ok by {
                if k < items.len() - 1 { assert(d[k] == items[k]); }
            }
            assert forall|k: int| 0 <= k < items.len() implies #[trigger] spec_parse_schema_list(items)->Ok_0[k]
                == spec_parse_json_schema(None, items[k])->Ok_0 by {
                if k < items.len() - 1 { assert(d[k] == items[k]); }
            }
        }
        if forall|k: int| 0 <= k < items.len() ==> (#[trigger] spec_parse_json_schema(None, items[k])) is Ok {
            assert(spec_parse_json_schema(None, items.last()) is Ok);
            assert forall|k: int| 0 <= k < d.len() implies (#[trigger] spec_parse_json_schema(None, d[k])) is Ok by {
                assert(d[k] == items[k]);
                assert(spec_parse_json_schema(None, items[k]) is Ok);
            }
        }
    }
}

/// A schema object of type `object` with a `properties` object parses to an object schema whose
/// properties are the members of `properties`, in order, each parsed under its own name; one of
/// type `array` with a `prefixItems` array parses to a tuple schema of the unnamed schemata of its
/// elements, in order; one of type `array` without `prefixItems` and with an `items` object parses
/// to an items schema of the unnamed schema of that object. Each fails where one of its parts does.
pub proof fn law_composite_type_names(name: Option<Seq<char>>, ms: Seq<(Seq<char>, SpecJson)>)
    ensures
        (spec_json_get(ms, "type"@) == Some(SpecJson::String("object"@))
            && spec_json_get(ms, "properties"@) matches Some(SpecJson::Object(props))) ==> {
            let props = spec_json_get(ms, "properties"@)->Some_0->Object_0;
            let r = spec_parse_json_schema(name, SpecJson::Object(ms));
            &&& (r is Ok <==> forall|k: int| 0 <= k < props.len() ==> (#[trigger] spec_parse_json_schema(Some(props[k].0), props[k].1)) is Ok)
            &&& r is Ok ==> (r->Ok_0.name == name && r->Ok_0.ty is Object && r->Ok_0.ty->Object_0.len() == props.len()
                && forall|k: int| 0 <= k < props.len() ==> #[trigger] r->Ok_0.ty->Object_0[k] == spec_parse_json_schema(Some(props[k].0), props[k].1)->Ok_0)
        },
        (spec_json_get(ms, "type"@) == Some(SpecJson::String("array"@))
            && spec_json_get(ms, "prefixItems"@) matches Some(SpecJson::Array(items))) ==> {
            let items = spec_json_get(ms, "prefixItems"@)->Some_0->Array_0;
            let r = spec_parse_json_schema(name, SpecJson::Object(ms));
            &&& (r is Ok <==> forall|k: int| 0 <= k < items.len() ==> (#[trigger] spec_parse_json_schema(None, items[k])) is Ok)
            &&& r is Ok ==> (r->Ok_0.name == name && r->Ok_0.ty is TupleArray && r->Ok_0.ty->TupleArray_0.len() == items.len()
                && forall|k: int| 0 <= k < items.len() ==> #[trigger] r->Ok_0.ty->TupleArray_0[k] == spec_parse_json_schema(None, items[k])->Ok_0)
        },
        (spec_json_get(ms, "type"@) == Some(SpecJson::String("array"@)) && spec_json_get(ms, "prefixItems"@) is None
            && spec_json_get(ms, "items"@) matches Some(SpecJson::Object(_))) ==> {
            let item = spec_json_get(ms, "items"@)->Some_0;
            let r = spec_parse_json_schema(name, SpecJson::Object(ms));
            &&& (r is Ok <==> spec_parse_json_schema(None, item) is Ok)
            &&& r is Ok ==> r == Ok::<SpecSchema, SpecSchemaError>(SpecSchema { name,
                ty: SpecSchemaType::ItemsArray(Box::new(spec_parse_json_schema(None, item)->Ok_0)) })
        },
{
    reveal_strlit("type");
    reveal_strlit("object");
    reveal_strlit("array");
    reveal_strlit("properties");
    reveal_strlit("prefixItems");
    reveal_strlit("items");
    assert("type"@ =~= lit_type());
    assert("object"@ =~= lit_object());
    assert("array"@ =~= lit_array());
    assert("properties"@ =~= lit_properties());
    assert("prefixItems"@ =~= lit_prefix_items());
    assert("items"@ =~= lit_items());
    lemma_member_position(ms, lit_type());
    lemma_member_position(ms, lit_properties());
    lemma_member_position(ms, lit_prefix_items());
    lemma_member_position(ms, lit_items());
    assert(lit_object() != lit_null() && lit_object() != lit_boolean() && lit_object() != lit_number() && lit_object() != lit_string()) by {
        assert(lit_object().len() != lit_null().len());
        assert(lit_object().len() != lit_boolean().len());
        assert(lit_object()[0] != lit_number()[0]);
        assert(lit_object()[0] != lit_string()[0]);
    }
    assert(lit_array() != lit_null() && lit_array() != lit_boolean() && lit_array() != lit_number() && lit_array() != lit_string()
        && lit_array() != lit_object()) by {
        assert(lit_array().len() != lit_null().len());
        assert(lit_array().len() != lit_boolean().len());
        assert(lit_array().len() != lit_number().len());
        assert(lit_array().len() != lit_string().len());
        assert(lit_array().len() != lit_object().len());
    }
    match spec_json_get(ms, "properties"@) {
        Some(SpecJson::Object(props)) => lemma_parse_properties_each(props),
        _ => {},
    }
    match spec_json_get(ms, "prefixItems"@) {
        Some(SpecJson::Array(items)) => lemma_parse_schema_list_each(items),
        _ => {},
    }
}

/// Parsing the members of a `properties` object succeeds exactly where each is well formed.
proof fn lemma_parse_properties_ok(props: Seq<(Seq<char>, SpecJson)>)
    ensures spec_parse_properties(props) is Ok <==> well_formed_properties(props),
    decreases props,
{
    if props.len() > 0 {
        lemma_parse_properties_ok(props.drop_last());
        law_parse_json_schema(Some(props.last().0), props.last().1);
    }
}

/// Parsing a `prefixItems` array succeeds exactly where each element is well formed.
proof fn lemma_parse_schema_list_ok(items: Seq<SpecJson>)
    ensures spec_parse_schema_list(items) is Ok <==> well_formed_schema_list(items),
    decreases items,
{
    if items.len() > 0 {
        lemma_parse_schema_list_ok(items.drop_last());
        law_parse_json_schema(None, items.last());
    }
}

proof fn lemma_parse_properties_err(ps: Seq<(Seq<char>, SpecJson)>, k: int, e: SpecSchemaError)
    requires
        0 <= k <= ps.len(),
        spec_parse_properties(ps.take(k)) == Err::<Seq<SpecSchema>, SpecSchemaError>(e),
    ensures spec_parse_properties(ps) == Err::<Seq<SpecSchema>, SpecSchemaError>(e),
    decreases ps.len(),
{
    if k < ps.len() {
        assert(ps.drop_last().take(k) =~= ps.take(k));
        lemma_parse_properties_err(ps.drop_last(), k, e);
    } else {
        assert(ps.take(k) =~= ps);
    }
}

proof fn lemma_parse_schema_list_err(vs: Seq<SpecJson>, k: int, e: SpecSchemaError)
    requires
        0 <= k <= vs.len(),
        spec_parse_schema_list(vs.take(k)) == Err::<Seq<SpecSchema>, SpecSchemaError>(e),
    ensures spec_parse_schema_list(vs) == Err::<Seq<SpecSchema>, SpecSchemaError>(e),
    decreases vs.len(),
{
    if k < vs.len() {
        assert(vs.drop_last().take(k) =~= vs.take(k));
        lemma_parse_schema_list_err(vs.drop_last(), k, e);
    } else {
        assert(vs.take(k) =~= vs);
    }
}

/// The schemata of the properties listed in an object schema.
pub open spec fn spec_parse_object_properties(ms: Seq<(Seq<char>, SpecJson)>) -> Result<Seq<SpecSchema>, SpecSchemaError> {
    if !has_member(ms, lit_properties()) {
        Err(SpecSchemaError::MissingPropertiesField)
    } else {
        match ms[member_at(ms, lit_properties())].1 {
            SpecJson::Object(props) => spec_parse_properties(props),
            _ => Err(SpecSchemaError::PropertiesFieldShouldHoldObjectValue),
        }
    }
}

/// The schemata of the tuple items listed in an array schema.
pub open spec fn spec_parse_tuples_array_items(ms: Seq<(Seq<char>, SpecJson)>) -> Result<Seq<SpecSchema>, SpecSchemaError> {
    if !has_member(ms, lit_prefix_items()) {
        Err(SpecSchemaError::MissingItemsField)
    } else {
        match ms[member_at(ms, lit_prefix_items())].1 {
            SpecJson::Array(items) => spec_parse_schema_list(items),
            _ => Err(SpecSchemaError::PrefixItemsFieldShouldHoldArrayValue),
        }
    }
}

/// The schema of the items of an array schema.
pub open spec fn spec_parse_items_array_item(ms: Seq<(Seq<char>, SpecJson)>) -> Result<SpecSchema, SpecSchemaError> {
    if !has_member(ms, lit_items()) {
        Err(SpecSchemaError::MissingItemsField)
    } else {
        match ms[member_at(ms, lit_items())].1 {
            SpecJson::Object(_) => spec_parse_json_schema(None, ms[member_at(ms, lit_items())].1),
            _ => Err(SpecSchemaError::ItemsFieldShouldHoldObjectValue),
        }
    }
}

/// Whether a JSON schema holds an array of tuples at its root.
pub open spec fn spec_validate_has_tuple_array_root(v: SpecJson) -> Result<(), SpecSchemaError> {
    match spec_schema_details(v) {
        Err(e) => Err(e),
        Ok((t, ms)) => if t != lit_array() || !spec_is_tuples_array(ms) {
            Err(SpecSchemaError::InvalidSchemaForPipelineNode)
        } else {
            Ok(())
        },
    }
}

fn member<'a>(members: &'a Vec<(String, JsonValue)>, key: &str, Ghost(k): Ghost<Seq<char>>) -> (r: Option<&'a JsonValue>)
    requires key@ == k,
    ensures
        has_member(view_json_members(members@), k) ==> r is Some && r.unwrap()@ == view_json_members(members@)[member_at(view_json_members(members@), k)].1,
        !has_member(view_json_members(members@), k) ==> r is None,
{
    json_get(members, key)
}

/// Check that a JSON value is an object coding for a schema, and return its type name and its
/// members.
pub fn get_schema_details(schema: &JsonValue) -> (r: Result<(&String, &Vec<(String, JsonValue)>), SchemaError>)
    ensures
        match spec_schema_details(schema@) {
            Ok((t, ms)) => r is Ok && r->Ok_0.0@ == t && view_json_members(r->Ok_0.1@) == ms,
            Err(e) => r is Err && r->Err_0@ == e,
        },
{
    // check that the value is an object
    let schema_map = match schema {
        JsonValue::Object(schema_map) => schema_map,
        _ => return Err(SchemaError::SchemaShouldBeJsonObject),
    };
    // check for the presence of a `type` field
    proof { reveal_strlit("type"); assert("type"@ =~= lit_type()); }
    let type_value = match member(schema_map, "type", Ghost(lit_type())) {
        None => return Err(SchemaError::MissingTypeField),
        Some(v) => v,
    };
    match type_value {
        JsonValue::String(type_field) => Ok((type_field, schema_map)),
        _ => Err(SchemaError::TypeFieldShouldHoldStringValue),
    }
}

/// Whether a schema object declares a base64 content encoding.
pub fn has_base64_encoding(schema_map: &Vec<(String, JsonValue)>) -> (r: bool)
    ensures r == spec_has_base64_encoding(view_json_members(schema_map@)),
{
    proof {
        reveal_strlit("contentEncoding"); assert("contentEncoding"@ =~= lit_content_encoding());
        reveal_strlit("base64"); assert("base64"@ =~= lit_base64());
    }
    match member(schema_map, "contentEncoding", Ghost(lit_content_encoding())) {
        Some(JsonValue::String(encoding)) => str_eq(encoding.as_str(), "base64"),
        _ => false,
    }
}

/// Whether a schema object describes an array of tuples.
pub fn is_tuples_array(schema_map: &Vec<(String, JsonValue)>) -> (r: bool)
    ensures r == spec_is_tuples_array(view_json_members(schema_map@)),
{
    proof { reveal_strlit("prefixItems"); assert("prefixItems"@ =~= lit_prefix_items()); }
    member(schema_map, "prefixItems", Ghost(lit_prefix_items())).is_some()
}

/// Parse the schemata of the properties of an object schema, each named after its property.
pub fn parse_object_properties(schema_map: &Vec<(String, JsonValue)>) -> (r: Result<Vec<HoliumJsonSchema>, SchemaError>)
    ensures
        match spec_parse_object_properties(view_json_members(schema_map@)) {
            Ok(ss) => r is Ok && view_schemas(r->Ok_0@) == ss,
            Err(e) => r is Err && r->Err_0@ == e,
        },
    decreases json_members_size(view_json_members(schema_map@)), 2nat,
{
    proof { reveal_strlit("properties"); assert("properties"@ =~= lit_properties()); }
    let properties = match member(schema_map, "properties", Ghost(lit_properties())) {
        None => return Err(SchemaError::MissingPropertiesField),
        Some(p) => p,
    };
    let props = match properties {
        JsonValue::Object(props) => props,
        _ => return Err(SchemaError::PropertiesFieldShouldHoldObjectValue),
    };
    proof {
        lemma_view_json_members(schema_map@);
        let ms = view_json_members(schema_map@);
        lemma_member_position(ms, lit_properties());
        lemma_json_members_size(ms, member_at(ms, lit_properties()));
    }
    parse_properties(props)
}

fn parse_properties(props: &Vec<(String, JsonValue)>) -> (r: Result<Vec<HoliumJsonSchema>, SchemaError>)
    ensures
        match spec_parse_properties(view_json_members(props@)) {
            Ok(ss) => r is Ok && view_schemas(r->Ok_0@) == ss,
            Err(e) => r is Err && r->Err_0@ == e,
        },
    decreases json_members_size(view_json_members(props@)), 1nat,
{
    proof { lemma_view_json_members(props@); }
    let ghost ps = view_json_members(props@);
    let mut out: Vec<HoliumJsonSchema> = Vec::new();
    let mut i: usize = 0;
    while i < props.len()
        invariant
            i <= props.len(),
            ps == view_json_members(props@),
            ps.len() == props.len(),
            forall|j: int| 0 <= j < props.len() ==> #[trigger] ps[j] == (props@[j].0@, view_json(props@[j].1)),
            spec_parse_properties(ps.take(i as int)) == Ok::<Seq<SpecSchema>, SpecSchemaError>(view_schemas(out@)),
        decreases props.len() - i,
    {
        proof {
            assert(ps.take(i + 1).drop_last() =~= ps.take(i as int));
            assert(ps.take(i + 1).last() == ps[i as int]);
            lemma_json_members_size(ps, i as int);
        }
        let (prop_name, prop_schema) = &props[i];
        let name = HoliumJsonSchemaName(Some(prop_name.clone()));
        let s = match parse_json_schema(name, prop_schema) {
            Ok(s) => s,
            Err(e) => {
                proof { lemma_parse_properties_err(ps, i + 1, e@); }
                return Err(e);
            },
        };
        proof { lemma_view_schemas_push(out@, s); }
        out.push(s);
        i = i + 1;
    }
    proof { assert(ps.take(i as int) =~= ps); }
    Ok(out)
}

fn parse_schema_list(items: &Vec<JsonValue>) -> (r: Result<Vec<HoliumJsonSchema>, SchemaError>)
    ensures
        match spec_parse_schema_list(view_json_seq(items@)) {
            Ok(ss) => r is Ok && view_schemas(r->Ok_0@) == ss,
            Err(e) => r is Err && r->Err_0@ == e,
        },
    decreases json_seq_size(view_json_seq(items@)), 2nat,
{
    proof { lemma_view_json_seq(items@); }
    let ghost vs = view_json_seq(items@);
    let mut out: Vec<HoliumJsonSchema> = Vec::new();
    let mut i: usize = 0;
    while i < items.len()
        invariant
            i <= items.len(),
            vs == view_json_seq(items@),
            vs.len() == items.len(),
            forall|j: int| 0 <= j < items.len() ==> #[trigger] vs[j] == view_json(items@[j]),
            spec_parse_schema_list(vs.take(i as int)) == Ok::<Seq<SpecSchema>, SpecSchemaError>(view_schemas(out@)),
        decreases items.len() - i,
    {
        proof {
            assert(vs.take(i + 1).drop_last() =~= vs.take(i as int));
            assert(vs.take(i + 1).last() == vs[i as int]);
            lemma_json_seq_size(vs, i as int);
        }
        let s = match parse_root_json_schema(&items[i]) {
            Ok(s) => s,
            Err(e) => {
                proof { lemma_parse_schema_list_err(vs, i + 1, e@); }
                return Err(e);
            },
        };
        proof { lemma_view_schemas_push(out@, s); }
        out.push(s);
        i = i + 1;
    }
    proof { assert(vs.take(i as int) =~= vs); }
    Ok(out)
}

/// Parse the schemata of the tuple items listed in an array schema.
pub fn parse_tuples_array_items(schema_map: &Vec<(String, JsonValue)>) -> (r: Result<Vec<HoliumJsonSchema>, SchemaError>)
    ensures
        match spec_parse_tuples_array_items(view_json_members(schema_map@)) {
            Ok(ss) => r is Ok && view_schemas(r->Ok_0@) == ss,
            Err(e) => r is Err && r->Err_0@ == e,
        },
    decreases json_members_size(view_json_members(schema_map@)), 2nat,
{
    proof { reveal_strlit("prefixItems"); assert("prefixItems"@ =~= lit_prefix_items()); }
    let prefix_items = match member(schema_map, "prefixItems", Ghost(lit_prefix_items())) {
        None => return Err(SchemaError::MissingItemsField),
        Some(p) => p,
    };
    let items = match prefix_items {
        JsonValue::Array(items) => items,
        _ => return Err(SchemaError::PrefixItemsFieldShouldHoldArrayValue),
    };
    proof {
        lemma_view_json_members(schema_map@);
        let ms = view_json_members(schema_map@);
        lemma_member_position(ms, lit_prefix_items());
        lemma_json_members_size(ms, member_at(ms, lit_prefix_items()));
    }
    parse_schema_list(items)
}

/// Parse the schema of the items of an array schema.
pub fn parse_items_array_item(schema_map: &Vec<(String, JsonValue)>) -> (r: Result<HoliumJsonSchema, SchemaError>)
    ensures
        match spec_parse_items_array_item(view_json_members(schema_map@)) {
            Ok(s) => r is Ok && r->Ok_0@ == s,
            Err(e) => r is Err && r->Err_0@ == e,
        },
    decreases json_members_size(view_json_members(schema_map@)), 2nat,
{
    proof { reveal_strlit("items"); assert("items"@ =~= lit_items()); }
    let items_field = match member(schema_map, "items", Ghost(lit_items())) {
        None => return Err(SchemaError::MissingItemsField),
        Some(p) => p,
    };
    match items_field {
        JsonValue::Object(_) => {},
        _ => return Err(SchemaError::ItemsFieldShouldHoldObjectValue),
    }
    proof {
        lemma_view_json_members(schema_map@);
        let ms = view_json_members(schema_map@);
        lemma_member_position(ms, lit_items());
        lemma_json_members_size(ms, member_at(ms, lit_items()));
    }
    parse_root_json_schema(items_field)
}

/// Parse a JSON schema into a Holium JSON schema, with no name attached, as a root schema.
pub fn parse_root_json_schema(schema: &JsonValue) -> (r: Result<HoliumJsonSchema, SchemaError>)
    ensures
        match spec_parse_json_schema(None, schema@) {
            Ok(s) => r is Ok && r->Ok_0@ == s,
            Err(e) => r is Err && r->Err_0@ == e,
        },
    decreases json_size(schema@), 1nat,
{
    parse_json_schema(HoliumJsonSchemaName(None), schema)
}

/// Check for the presence of the fields a local Holium object needs in a JSON schema, and parse
/// it into a Holium JSON schema.
pub fn parse_json_schema(schema_name: HoliumJsonSchemaName, schema: &JsonValue) -> (r: Result<HoliumJsonSchema, SchemaError>)
    ensures
        match spec_parse_json_schema(view_name(schema_name), schema@) {
            Ok(s) => r is Ok && r->Ok_0@ == s,
            Err(e) => r is Err && r->Err_0@ == e,
        },
    decreases json_size(schema@), 0nat,
{
    let ghost name = view_name(schema_name);
    let (type_field, schema_map) = get_schema_details(schema)?;
    proof {
        reveal_strlit("null"); assert("null"@ =~= lit_null());
        reveal_strlit("boolean"); assert("boolean"@ =~= lit_boolean());
        reveal_strlit("number"); assert("number"@ =~= lit_number());
        reveal_strlit("string"); assert("string"@ =~= lit_string());
        reveal_strlit("object"); assert("object"@ =~= lit_object());
        reveal_strlit("array"); assert("array"@ =~= lit_array());
        assert(json_members_size(view_json_members(schema_map@)) < json_size(schema@));
    }
    let t = type_field.as_str();
    if str_eq(t, "null") {
        Ok(HoliumJsonSchema(schema_name, Box::new(HoliumJsonSchemaType::Null)))
    } else if str_eq(t, "boolean") {
        Ok(HoliumJsonSchema(schema_name, Box::new(HoliumJsonSchemaType::Boolean)))
    } else if str_eq(t, "number") {
        Ok(HoliumJsonSchema(schema_name, Box::new(HoliumJsonSchemaType::Number)))
    } else if str_eq(t, "string") {
        if has_base64_encoding(schema_map) {
            Ok(HoliumJsonSchema(schema_name, Box::new(HoliumJsonSchemaType::ByteString)))
        } else {
            Ok(HoliumJsonSchema(schema_name, Box::new(HoliumJsonSchemaType::TextString)))
        }
    } else if str_eq(t, "object") {
        let properties = parse_object_properties(schema_map)?;
        Ok(HoliumJsonSchema(schema_name, Box::new(HoliumJsonSchemaType::Object(properties))))
    } else if str_eq(t, "array") {
        if is_tuples_array(schema_map) {
            let items = parse_tuples_array_items(schema_map)?;
            Ok(HoliumJsonSchema(schema_name, Box::new(HoliumJsonSchemaType::TupleArray(items))))
        } else {
            let item = parse_items_array_item(schema_map)?;
            Ok(HoliumJsonSchema(schema_name, Box::new(HoliumJsonSchemaType::ItemsArray(item))))
        }
    } else {
        Err(SchemaError::InvalidTypeFieldValue(type_field.clone()))
    }
}

/// Check that the root element of a JSON schema is an array of tuples.
pub fn validate_has_tuple_array_root(schema: &JsonValue) -> (r: Result<(), SchemaError>)
    ensures
        match spec_validate_has_tuple_array_root(schema@) {
            Ok(()) => r is Ok,
            Err(e) => r is Err && r->Err_0@ == e,
        },
{
    let (type_field, schema_map) = get_schema_details(schema)?;
    proof { reveal_strlit("array"); assert("array"@ =~= lit_array()); }
    if !str_eq(type_field.as_str(), "array") || !is_tuples_array(schema_map) {
        return Err(SchemaError::InvalidSchemaForPipelineNode);
    }
    Ok(())
}

/// What validating a JSON literal as the schema of a pipeline node gives, once the literal is
/// known to conform, or not, to the JSON Schema meta schema.
pub open spec fn spec_validate_pipeline_node_json_schema(literal: Seq<char>, meta_schema_valid: bool) -> Result<(), SpecSchemaError> {
    match json_text_decoding(literal) {
        None => Err(SpecSchemaError::StringNotParsableToJSON),
        Some(v) => if !meta_schema_valid {
            Err(SpecSchemaError::InvalidJsonSchema)
        } else {
            match spec_validate_has_tuple_array_root(v) {
                Err(e) => Err(e),
                Ok(()) => match spec_parse_json_schema(None, v) {
                    Err(e) => Err(e),
                    Ok(_) => Ok(()),
                },
            }
        },
    }
}

/// Validate that a JSON literal is a valid JSON schema, ready to be used as a feature of local
/// Holium pipeline nodes. Whether the literal conforms to the JSON Schema meta schema is checked
/// by the caller, and handed over as `meta_schema_valid`.
pub fn validate_pipeline_node_json_schema(literal: &str, meta_schema_valid: bool) -> (r: Result<(), SchemaError>)
    ensures
        match spec_validate_pipeline_node_json_schema(literal@, meta_schema_valid) {
            Ok(()) => r is Ok,
            Err(e) => r is Err && r->Err_0@ == e,
        },
{
    // parse the string of data into a JSON value
    let schema = match json_from_str(literal) {
        Some(v) => v,
        None => return Err(SchemaError::StringNotParsableToJSON),
    };
    // the literal should conform to the JSON Schema meta schema
    if !meta_schema_valid {
        return Err(SchemaError::InvalidJsonSchema);
    }
    // check that the root element has the right *tuples array* type
    validate_has_tuple_array_root(&schema)?;
    // recursively check that all expected fields are present in the schema for it to be used in the
    // local Holium area
    parse_root_json_schema(&schema)?;
    Ok(())
}

/// Errors of reading the JSON schema that a portation of data follows.
#[derive(Debug)]
pub enum PortationSchemaError {
    JsonSchemaParseFailed,
    InvalidSchema(SchemaError),
}

impl PortationSchemaError {
    /// Human readable description of the error.
    pub fn message(&self) -> (r: String)
        ensures
            match self {
                PortationSchemaError::JsonSchemaParseFailed => r@ == "failed to parse json schema"@,
                PortationSchemaError::InvalidSchema(e) => r@ == spec_schema_error_message(e@),
            },
    {
        match self {
            PortationSchemaError::JsonSchemaParseFailed => String::from_str("failed to parse json schema"),
            PortationSchemaError::InvalidSchema(e) => e.message(),
        }
    }
}

/// Read the JSON schema that a portation follows from the literal stored with its node: the
/// literal is parsed as JSON, then as a root Holium JSON schema.
pub fn portation_json_schema(literal: &str) -> (r: Result<HoliumJsonSchema, PortationSchemaError>)
    ensures
        match json_text_decoding(literal@) {
            None => r is Err && r->Err_0 is JsonSchemaParseFailed,
            Some(v) => match spec_parse_json_schema(None, v) {
                Ok(s) => r is Ok && r->Ok_0@ == s,
                Err(e) => r is Err && (r->Err_0 matches PortationSchemaError::InvalidSchema(x) && x@ == e),
            },
        },
{
    let value = match json_from_str(literal) {
        Some(v) => v,
        None => return Err(PortationSchemaError::JsonSchemaParseFailed),
    };
    match parse_root_json_schema(&value) {
        Ok(s) => Ok(s),
        Err(e) => Err(PortationSchemaError::InvalidSchema(e)),
    }
}

} // verus!
