//! Porters: import data of a known JSON schema into Holium CBOR, and export it back.
//!
//! Holium CBOR writes every value as CBOR, where objects become arrays of their property values,
//! in the order of the properties in the schema.
use vstd::prelude::*;
use crate::values::{CborValue, CborSimple, SpecCbor, JsonValue, JsonNumber, SpecJson, view_cbor_seq,
    view_cbor_pairs, lemma_view_cbor_seq, lemma_view_cbor_seq_push, lemma_view_cbor_pairs, view_json_seq,
    view_json_members, lemma_view_json_seq, lemma_view_json_seq_push, lemma_view_json_members,
    lemma_view_json_members_push, spec_json_get, json_get, str_eq, spec_member_position, lemma_member_position,
    json_members_insert, json_member_position, lemma_view_json_members_update};
use crate::json_schema::{HoliumJsonSchema, HoliumJsonSchemaType, SpecSchema, SpecSchemaType, view_schemas,
    lemma_view_schemas, view_name, schema_size, schemas_size, lemma_schemas_size};
use crate::codecs::{cbor_read, cbor_write, json_from_slice, base64_encode, base64_decode, cbor_decoding,
    cbor_encoding, json_bytes_decoding, spec_base64_encode, base64_decoding};
use crate::cbor_write::copy_bytes;
use crate::local_helpers::PortationFileFormat;

verus! {

broadcast use vstd::std_specs::vec::group_vec_axioms;

/// Errors raised while importing or exporting data.
#[derive(Debug)]
pub enum Error {
    FailedToReadHoliumCborData,
    FailedToReadJsonData,
    FailedToReadCborData,
    UnhandledFloat,
    FailedToConvertNumberFromHoliumCborToJson,
    Base64DecodeError,
    MissingKeyInObjectTypeSchema,
    MissingObjectKey(String),
    IncompatibleSchemaAndValue,
    FailedToWriteHoliumCbor,
    FailedToWriteBinData,
    FailedToWriteCborData,
    FailedToWriteJsonData,
}

/// Mathematical model of an [`Error`].
pub enum SpecPortError {
    FailedToReadHoliumCborData,
    FailedToReadJsonData,
    FailedToReadCborData,
    UnhandledFloat,
    FailedToConvertNumberFromHoliumCborToJson,
    Base64DecodeError,
    MissingKeyInObjectTypeSchema,
    MissingObjectKey(Seq<char>),
    IncompatibleSchemaAndValue,
    FailedToWriteHoliumCbor,
    FailedToWriteBinData,
    FailedToWriteCborData,
    FailedToWriteJsonData,
}

impl View for Error {
    type V = SpecPortError;

    open spec fn view(&self) -> SpecPortError {
        match self {
            Error::FailedToReadHoliumCborData => SpecPortError::FailedToReadHoliumCborData,
            Error::FailedToReadJsonData => SpecPortError::FailedToReadJsonData,
            Error::FailedToReadCborData => SpecPortError::FailedToReadCborData,
            Error::UnhandledFloat => SpecPortError::UnhandledFloat,
            Error::FailedToConvertNumberFromHoliumCborToJson => SpecPortError::FailedToConvertNumberFromHoliumCborToJson,
            Error::Base64DecodeError => SpecPortError::Base64DecodeError,
            Error::MissingKeyInObjectTypeSchema => SpecPortError::MissingKeyInObjectTypeSchema,
            Error::MissingObjectKey(k) => SpecPortError::MissingObjectKey(k@),
            Error::IncompatibleSchemaAndValue => SpecPortError::IncompatibleSchemaAndValue,
            Error::FailedToWriteHoliumCbor => SpecPortError::FailedToWriteHoliumCbor,
            Error::FailedToWriteBinData => SpecPortError::FailedToWriteBinData,
            Error::FailedToWriteCborData => SpecPortError::FailedToWriteCborData,
            Error::FailedToWriteJsonData => SpecPortError::FailedToWriteJsonData,
        }
    }
}

/// Human readable description of an error.
pub open spec fn spec_port_error_message(e: SpecPortError) -> Seq<char> {
    match e {
        SpecPortError::FailedToReadHoliumCborData => "failed to read HoliumCBOR data"@,
        SpecPortError::FailedToReadJsonData => "failed to read json data"@,
        SpecPortError::FailedToReadCborData => "failed to read cbor data"@,
        SpecPortError::UnhandledFloat => "float value not handled yet in HoliumCBOR data"@,
        SpecPortError::FailedToConvertNumberFromHoliumCborToJson => "failed to convert number from HoliumCBOR to JSON"@,
        SpecPortError::Base64DecodeError => "base64 decode error"@,
        SpecPortError::MissingKeyInObjectTypeSchema => "invalid schema: missing key in schema of object type"@,
        SpecPortError::MissingObjectKey(k) => "missing key in imported object: "@ + k,
        SpecPortError::IncompatibleSchemaAndValue => "schema and value are incompatible"@,
        SpecPortError::FailedToWriteHoliumCbor => "failed to write HoliumCBOR data"@,
        SpecPortError::FailedToWriteBinData => "failed to write bin data"@,
        SpecPortError::FailedToWriteCborData => "failed to write cbor data"@,
        SpecPortError::FailedToWriteJsonData => "failed to write json data"@,
    }
}

impl Error {
    /// Human readable description of the error.
    pub fn message(&self) -> (r: String)
        ensures r@ == spec_port_error_message(self@),
    {
        match self {
            Error::FailedToReadHoliumCborData => String::from_str("failed to read HoliumCBOR data"),
            Error::FailedToReadJsonData => String::from_str("failed to read json data"),
            Error::FailedToReadCborData => String::from_str("failed to read cbor data"),
            Error::UnhandledFloat => String::from_str("float value not handled yet in HoliumCBOR data"),
            Error::FailedToConvertNumberFromHoliumCborToJson => String::from_str("failed to convert number from HoliumCBOR to JSON"),
            Error::Base64DecodeError => String::from_str("base64 decode error"),
            Error::MissingKeyInObjectTypeSchema => String::from_str("invalid schema: missing key in schema of object type"),
            Error::MissingObjectKey(k) => {
                let mut m = String::from_str("missing key in imported object: ");
                m.append(k.as_str());
                m
            },
            Error::IncompatibleSchemaAndValue => String::from_str("schema and value are incompatible"),
            Error::FailedToWriteHoliumCbor => String::from_str("failed to write HoliumCBOR data"),
            Error::FailedToWriteBinData => String::from_str("failed to write bin data"),
            Error::FailedToWriteCborData => String::from_str("failed to write cbor data"),
            Error::FailedToWriteJsonData => String::from_str("failed to write json data"),
        }
    }
}

/*********************************************
 * Importing CBOR data
 *********************************************/

/// Position of the first entry of a CBOR map, from `i` on, whose key is the text `key`, or `-1`.
pub open spec fn cbor_key_position(pairs: Seq<(SpecCbor, SpecCbor)>, key: Seq<char>, i: int) -> int
    decreases pairs.len() - i,
{
    if i < 0 || i >= pairs.len() {
        -1
    } else if pairs[i].0 == SpecCbor::TextString(key) {
        i
    } else {
        cbor_key_position(pairs, key, i + 1)
    }
}

/// The Holium CBOR value of a CBOR value of schema `s`.
pub open spec fn spec_cbor_import(s: SpecSchema, v: SpecCbor) -> Result<SpecCbor, SpecPortError>
    decreases s, 0nat,
{
    match s.ty {
        SpecSchemaType::Null => match v {
            SpecCbor::Simple(CborSimple::NullValue) => Ok(v),
            _ => Err(SpecPortError::IncompatibleSchemaAndValue),
        },
        SpecSchemaType::Boolean => match v {
            SpecCbor::Simple(CborSimple::TrueValue) => Ok(v),
            SpecCbor::Simple(CborSimple::FalseValue) => Ok(v),
            _ => Err(SpecPortError::IncompatibleSchemaAndValue),
        },
        SpecSchemaType::Number => match v {
            SpecCbor::Negative(_) => Ok(v),
            SpecCbor::Unsigned(_) => Ok(v),
            _ => Err(SpecPortError::IncompatibleSchemaAndValue),
        },
        SpecSchemaType::TextString => match v {
            SpecCbor::TextString(_) => Ok(v),
            _ => Err(SpecPortError::IncompatibleSchemaAndValue),
        },
        SpecSchemaType::ByteString => match v {
            SpecCbor::ByteString(_) => Ok(v),
            _ => Err(SpecPortError::IncompatibleSchemaAndValue),
        },
        SpecSchemaType::ItemsArray(item) => match v {
            SpecCbor::Array(vs) => match spec_cbor_import_items(*item, vs, vs.len()) {
                Ok(rs) => Ok(SpecCbor::Array(rs)),
                Err(e) => Err(e),
            },
            _ => Err(SpecPortError::IncompatibleSchemaAndValue),
        },
        SpecSchemaType::TupleArray(ss) => match v {
            SpecCbor::Array(vs) => match spec_cbor_import_tuple(ss, vs, if ss.len() < vs.len() { ss.len() } else { vs.len() }) {
                Ok(rs) => Ok(SpecCbor::Array(rs)),
                Err(e) => Err(e),
            },
            _ => Err(SpecPortError::IncompatibleSchemaAndValue),
        },
        SpecSchemaType::Object(ss) => match v {
            SpecCbor::Mapping(pairs) => match spec_cbor_import_object(ss, pairs, ss.len()) {
                Ok(rs) => Ok(SpecCbor::Array(rs)),
                Err(e) => Err(e),
            },
            _ => Err(SpecPortError::IncompatibleSchemaAndValue),
        },
    }
}

/// Importing a CBOR value of a scalar schema that the value matches gives back that same value:
/// null for a null schema, a boolean for a boolean schema, an integer for a number schema, a text
/// for a text schema and a byte string, with all its bytes, for a byte string schema. A value of
/// another kind is refused as incompatible with the schema.
pub proof fn law_cbor_import_keeps_scalars(s: SpecSchema, v: SpecCbor)
    ensures
        s.ty == SpecSchemaType::Null ==> (spec_cbor_import(s, v) is Ok <==> v == SpecCbor::Simple(CborSimple::NullValue)),
        s.ty == SpecSchemaType::Boolean ==> (spec_cbor_import(s, v) is Ok
            <==> (v == SpecCbor::Simple(CborSimple::TrueValue) || v == SpecCbor::Simple(CborSimple::FalseValue))),
        s.ty == SpecSchemaType::Number ==> (spec_cbor_import(s, v) is Ok <==> (v is Unsigned || v is Negative)),
        s.ty == SpecSchemaType::TextString ==> (spec_cbor_import(s, v) is Ok <==> v is TextString),
        s.ty == SpecSchemaType::ByteString ==> (spec_cbor_import(s, v) is Ok <==> v is ByteString),
        (s.ty == SpecSchemaType::Null || s.ty == SpecSchemaType::Boolean || s.ty == SpecSchemaType::Number
            || s.ty == SpecSchemaType::TextString || s.ty == SpecSchemaType::ByteString) ==> match spec_cbor_import(s, v) {
            Ok(r) => r == v,
            Err(e) => e == SpecPortError::IncompatibleSchemaAndValue,
        },
{
}

/// The Holium CBOR values of the first `n` elements of an array, all of schema `item`.
pub open spec fn spec_cbor_import_items(item: SpecSchema, vs: Seq<SpecCbor>, n: nat) -> Result<Seq<SpecCbor>, SpecPortError>
    decreases item, n,
{
    if n == 0 || n > vs.len() {
        Ok(Seq::empty())
    } else {
        match spec_cbor_import_items(item, vs, (n - 1) as nat) {
            Err(e) => Err(e),
            Ok(prefix) => match spec_cbor_import(item, vs[n - 1]) {
                Err(e) => Err(e),
                Ok(x) => Ok(prefix.push(x)),
            },
        }
    }
}

/// The Holium CBOR values of the first `n` elements of a tuple, each of the schema at its position.
pub open spec fn spec_cbor_import_tuple(ss: Seq<SpecSchema>, vs: Seq<SpecCbor>, n: nat) -> Result<Seq<SpecCbor>, SpecPortError>
    decreases ss, n,
{
    if n == 0 || n > ss.len() || n > vs.len() {
        Ok(Seq::empty())
    } else {
        match spec_cbor_import_tuple(ss, vs, (n - 1) as nat) {
            Err(e) => Err(e),
            Ok(prefix) => match spec_cbor_import(ss[n - 1], vs[n - 1]) {
                Err(e) => Err(e),
                Ok(x) => Ok(prefix.push(x)),
            },
        }
    }
}

/// The Holium CBOR values of the first `n` properties of an object schema, each found in a CBOR
/// map under the name of its property.
pub open spec fn spec_cbor_import_object(ss: Seq<SpecSchema>, pairs: Seq<(SpecCbor, SpecCbor)>, n: nat)
    -> Result<Seq<SpecCbor>, SpecPortError>
    decreases ss, n,
{
    if n == 0 || n > ss.len() {
        Ok(Seq::empty())
    } else {
        match spec_cbor_import_object(ss, pairs, (n - 1) as nat) {
            Err(e) => Err(e),
            Ok(prefix) => match ss[n - 1].name {
                None => Err(SpecPortError::MissingKeyInObjectTypeSchema),
                Some(key) => {
                    let p = cbor_key_position(pairs, key, 0);
                    if p < 0 {
                        Err(SpecPortError::MissingObjectKey(key))
                    } else {
                        match spec_cbor_import(ss[n - 1], pairs[p].1) {
                            Err(e) => Err(e),
                            Ok(x) => Ok(prefix.push(x)),
                        }
                    }
                },
            },
        }
    }
}

proof fn lemma_cbor_import_items_each(item: SpecSchema, vs: Seq<SpecCbor>, n: nat)
    requires n <= vs.len(),
    ensures
        spec_cbor_import_items(item, vs, n) is Ok <==> forall|k: int| 0 <= k < n ==> (#[trigger] spec_cbor_import(item, vs[k])) is Ok,
        spec_cbor_import_items(item, vs, n) is Ok ==> spec_cbor_import_items(item, vs, n)->Ok_0.len() == n
            && forall|k: int| 0 <= k < n ==> #[trigger] spec_cbor_import_items(item, vs, n)->Ok_0[k] == spec_cbor_import(item, vs[k])->Ok_0,
    decreases n,
{
    if n > 0 {
        lemma_cbor_import_items_each(item, vs, (n - 1) as nat);
        if spec_cbor_import_items(item, vs, n) is Ok {
            assert forall|k: int| 0 <= k < n implies (#[trigger] spec_cbor_import(item, vs[k])) is Ok by {
                if k < n - 1 { assert(spec_cbor_import_items(item, vs, (n - 1) as nat) is Ok); }
            }
        }
        if forall|k: int| 0 <= k < n ==> (#[trigger] spec_cbor_import(item, vs[k])) is Ok {
            assert(spec_cbor_import(item, vs[n - 1]) is Ok);
            assert forall|k: int| 0 <= k < n - 1 implies (#[trigger] spec_cbor_import(item, vs[k])) is Ok by {
                assert(spec_cbor_import(item, vs[k]) is Ok);
            }
        }
    }
}

proof fn lemma_cbor_import_tuple_each(ss: Seq<SpecSchema>, vs: Seq<SpecCbor>, n: nat)
    requires n <= vs.len(), n <= ss.len(),
    ensures
        spec_cbor_import_tuple(ss, vs, n) is Ok <==> forall|k: int| 0 <= k < n ==> (#[trigger] spec_cbor_import(ss[k], vs[k])) is Ok,
        spec_cbor_import_tuple(ss, vs, n) is Ok ==> spec_cbor_import_tuple(ss, vs, n)->Ok_0.len() == n
            && forall|k: int| 0 <= k < n ==> #[trigger] spec_cbor_import_tuple(ss, vs, n)->Ok_0[k] == spec_cbor_import(ss[k], vs[k])->Ok_0,
    decreases n,
{
    if n > 0 {
        lemma_cbor_import_tuple_each(ss, vs, (n - 1) as nat);
        if spec_cbor_import_tuple(ss, vs, n) is Ok {
            assert forall|k: int| 0 <= k < n implies (#[trigger] spec_cbor_import(ss[k], vs[k])) is Ok by {
                if k < n - 1 { assert(spec_cbor_import_tuple(ss, vs, (n - 1) as nat) is Ok); }
            }
        }
        if forall|k: int| 0 <= k < n ==> (#[trigger] spec_cbor_import(ss[k], vs[k])) is Ok {
            assert(spec_cbor_import(ss[n - 1], vs[n - 1]) is Ok);
            assert forall|k: int| 0 <= k < n - 1 implies (#[trigger] spec_cbor_import(ss[k], vs[k])) is Ok by {
                assert(spec_cbor_import(ss[k], vs[k]) is Ok);
            }
        }
    }
}

/// The value of the first entry of a CBOR map whose key is the text `key`, if there is one.
pub open spec fn cbor_value_under(pairs: Seq<(SpecCbor, SpecCbor)>, key: Seq<char>) -> Option<SpecCbor> {
    if exists|p: int| 0 <= p < pairs.len() && pairs[p].0 == SpecCbor::TextString(key) {
        let p = choose|p: int| 0 <= p < pairs.len() && pairs[p].0 == SpecCbor::TextString(key)
            && forall|j: int| 0 <= j < p ==> pairs[j].0 != SpecCbor::TextString(key);
        Some(pairs[p].1)
    } else {
        None
    }
}

proof fn lemma_cbor_key_position_first(pairs: Seq<(SpecCbor, SpecCbor)>, key: Seq<char>, i: int)
    requires 0 <= i,
    ensures
        cbor_key_position(pairs, key, i) >= 0 ==> pairs[cbor_key_position(pairs, key, i)].0 == SpecCbor::TextString(key)
            && forall|j: int| i <= j < cbor_key_position(pairs, key, i) ==> pairs[j].0 != SpecCbor::TextString(key),
        cbor_key_position(pairs, key, i) < 0 ==> forall|j: int| i <= j < pairs.len() ==> pairs[j].0 != SpecCbor::TextString(key),
    decreases pairs.len() - i,
{
    lemma_cbor_key_position(pairs, key, i);
    if i < pairs.len() && pairs[i].0 != SpecCbor::TextString(key) {
        lemma_cbor_key_position_first(pairs, key, i + 1);
    }
}

/// The first entry with a given key is where the search for it stops.
proof fn lemma_cbor_value_under(pairs: Seq<(SpecCbor, SpecCbor)>, key: Seq<char>)
    ensures
        cbor_key_position(pairs, key, 0) >= 0 ==> cbor_value_under(pairs, key) == Some(pairs[cbor_key_position(pairs, key, 0)].1),
        cbor_key_position(pairs, key, 0) < 0 ==> cbor_value_under(pairs, key) is None,
{
    lemma_cbor_key_position_first(pairs, key, 0);
    lemma_cbor_key_position(pairs, key, 0);
    let q = cbor_key_position(pairs, key, 0);
    if q >= 0 {
        assert(0 <= q < pairs.len() && pairs[q].0 == SpecCbor::TextString(key));
        let p = choose|p: int| 0 <= p < pairs.len() && pairs[p].0 == SpecCbor::TextString(key)
            && forall|j: int| 0 <= j < p ==> pairs[j].0 != SpecCbor::TextString(key);
        assert(forall|j: int| 0 <= j < q ==> pairs[j].0 != SpecCbor::TextString(key));
        if p < q { assert(pairs[p].0 != SpecCbor::TextString(key)); }
        if q < p { assert(pairs[q].0 != SpecCbor::TextString(key)); }
    }
}

proof fn lemma_cbor_import_object_each(ss: Seq<SpecSchema>, pairs: Seq<(SpecCbor, SpecCbor)>, n: nat)
    requires n <= ss.len(),
    ensures
        spec_cbor_import_object(ss, pairs, n) is Ok <==> forall|k: int| 0 <= k < n ==> (#[trigger] ss[k]).name is Some
            && cbor_value_under(pairs, ss[k].name->Some_0) is Some
            && spec_cbor_import(ss[k], cbor_value_under(pairs, ss[k].name->Some_0)->Some_0) is Ok,
        spec_cbor_import_object(ss, pairs, n) is Ok ==> spec_cbor_import_object(ss, pairs, n)->Ok_0.len() == n
            && forall|k: int| 0 <= k < n ==> #[trigger] spec_cbor_import_object(ss, pairs, n)->Ok_0[k]
                == spec_cbor_import(ss[k], cbor_value_under(pairs, ss[k].name->Some_0)->Some_0)->Ok_0,
    decreases n,
{
    if n > 0 {
        lemma_cbor_import_object_each(ss, pairs, (n - 1) as nat);
        assert forall|k: int| 0 <= k < n && (#[trigger] ss[k]).name is Some implies
            (cbor_key_position(pairs, ss[k].name->Some_0, 0) >= 0 ==> cbor_value_under(pairs, ss[k].name->Some_0) == Some(pairs[cbor_key_position(pairs, ss[k].name->Some_0, 0)].1))
            && (cbor_key_position(pairs, ss[k].name->Some_0, 0) < 0 ==> cbor_value_under(pairs, ss[k].name->Some_0) is None) by {
            lemma_cbor_value_under(pairs, ss[k].name->Some_0);
        }
        if spec_cbor_import_object(ss, pairs, n) is Ok {
            assert forall|k: int| 0 <= k < n implies (#[trigger] ss[k]).name is Some
                && cbor_value_under(pairs, ss[k].name->Some_0) is Some
                && spec_cbor_import(ss[k], cbor_value_under(pairs, ss[k].name->Some_0)->Some_0) is Ok by {
                if k < n - 1 { assert(spec_cbor_import_object(ss, pairs, (n - 1) as nat) is Ok); }
            }
        }
        if forall|k: int| 0 <= k < n ==> (#[trigger] ss[k]).name is Some
            && cbor_value_under(pairs, ss[k].name->Some_0) is Some
            && spec_cbor_import(ss[k], cbor_value_under(pairs, ss[k].name->Some_0)->Some_0) is Ok {
            assert(ss[n - 1].name is Some);
        }
    }
}

/// Importing a CBOR array of an items schema imports each of its elements with the schema of the
/// items, keeping their order, and fails where one of them fails; importing a CBOR array of a
/// tuple schema imports the elements that have a schema at their position, each with that schema;
/// importing a CBOR map of an object schema gives the array of the values of the properties of the
/// schema, in its order, each taken from the first entry whose key is the name of the property.
pub proof fn law_cbor_import_composites(s: SpecSchema, v: SpecCbor)
    ensures
        (s.ty matches SpecSchemaType::ItemsArray(item) && v matches SpecCbor::Array(vs)) ==> {
            let item = *s.ty->ItemsArray_0;
            let vs = v->Array_0;
            &&& (spec_cbor_import(s, v) is Ok <==> forall|k: int| 0 <= k < vs.len() ==> (#[trigger] spec_cbor_import(item, vs[k])) is Ok)
            &&& spec_cbor_import(s, v) is Ok ==> (spec_cbor_import(s, v)->Ok_0 is Array && spec_cbor_import(s, v)->Ok_0->Array_0.len() == vs.len()
                && forall|k: int| 0 <= k < vs.len() ==> #[trigger] spec_cbor_import(s, v)->Ok_0->Array_0[k] == spec_cbor_import(item, vs[k])->Ok_0)
        },
        (s.ty matches SpecSchemaType::TupleArray(ss) && v matches SpecCbor::Array(vs)) ==> {
            let ss = s.ty->TupleArray_0;
            let vs = v->Array_0;
            let n: nat = if ss.len() < vs.len() { ss.len() } else { vs.len() };
            &&& (spec_cbor_import(s, v) is Ok <==> forall|k: int| 0 <= k < n ==> (#[trigger] spec_cbor_import(ss[k], vs[k])) is Ok)
            &&& spec_cbor_import(s, v) is Ok ==> (spec_cbor_import(s, v)->Ok_0 is Array && spec_cbor_import(s, v)->Ok_0->Array_0.len() == n
                && forall|k: int| 0 <= k < n ==> #[trigger] spec_cbor_import(s, v)->Ok_0->Array_0[k] == spec_cbor_import(ss[k], vs[k])->Ok_0)
        },
        (s.ty matches SpecSchemaType::Object(ss) && v matches SpecCbor::Mapping(pairs)) ==> {
            let ss = s.ty->Object_0;
            let pairs = v->Mapping_0;
            &&& (spec_cbor_import(s, v) is Ok <==> forall|k: int| 0 <= k < ss.len() ==> (#[trigger] ss[k]).name is Some
                && cbor_value_under(pairs, ss[k].name->Some_0) is Some
                && spec_cbor_import(ss[k], cbor_value_under(pairs, ss[k].name->Some_0)->Some_0) is Ok)
            &&& spec_cbor_import(s, v) is Ok ==> (spec_cbor_import(s, v)->Ok_0 is Array && spec_cbor_import(s, v)->Ok_0->Array_0.len() == ss.len()
                && forall|k: int| 0 <= k < ss.len() ==> #[trigger] spec_cbor_import(s, v)->Ok_0->Array_0[k]
                    == spec_cbor_import(ss[k], cbor_value_under(pairs, ss[k].name->Some_0)->Some_0)->Ok_0)
        },
{
    match s.ty {
        SpecSchemaType::ItemsArray(item) => match v {
            SpecCbor::Array(vs) => lemma_cbor_import_items_each(*item, vs, vs.len()),
            _ => {},
        },
        SpecSchemaType::TupleArray(ss) => match v {
            SpecCbor::Array(vs) => lemma_cbor_import_tuple_each(ss, vs, if ss.len() < vs.len() { ss.len() } else { vs.len() }),
            _ => {},
        },
        SpecSchemaType::Object(ss) => match v {
            SpecCbor::Mapping(pairs) => lemma_cbor_import_object_each(ss, pairs, ss.len()),
            _ => {},
        },
        _ => {},
    }
}

proof fn lemma_cbor_key_position(pairs: Seq<(SpecCbor, SpecCbor)>, key: Seq<char>, i: int)
    requires 0 <= i,
    ensures
        -1 <= cbor_key_position(pairs, key, i) < pairs.len(),
        cbor_key_position(pairs, key, i) >= 0 ==> cbor_key_position(pairs, key, i) >= i,
    decreases pairs.len() - i,
{
    if i < pairs.len() && pairs[i].0 != SpecCbor::TextString(key) {
        lemma_cbor_key_position(pairs, key, i + 1);
    }
}

/// Whether a CBOR key is the text `key`.
fn is_text_key(k: &CborValue, key: &str) -> (r: bool)
    ensures r == (k@ == SpecCbor::TextString(key@)),
{
    match k {
        CborValue::TextString(t) => str_eq(t.as_str(), key),
        _ => false,
    }
}

/// Position of the first entry of a CBOR map whose key is the text `key`.
fn find_cbor_key(pairs: &Vec<(CborValue, CborValue)>, key: &str) -> (r: Option<usize>)
    ensures
        match r {
            Some(p) => cbor_key_position(view_cbor_pairs(pairs@), key@, 0) == p as int && p < pairs.len(),
            None => cbor_key_position(view_cbor_pairs(pairs@), key@, 0) == -1,
        },
{
    proof { lemma_view_cbor_pairs(pairs@); }
    let ghost ps = view_cbor_pairs(pairs@);
    let mut i: usize = 0;
    while i < pairs.len()
        invariant
            i <= pairs.len(),
            ps == view_cbor_pairs(pairs@),
            ps.len() == pairs.len(),
            forall|j: int| 0 <= j < pairs.len() ==> #[trigger] ps[j] == (pairs@[j].0@, pairs@[j].1@),
            cbor_key_position(ps, key@, 0) == cbor_key_position(ps, key@, i as int),
        decreases pairs.len() - i,
    {
        if is_text_key(&pairs[i].0, key) {
            return Some(i);
        }
        i = i + 1;
    }
    None
}

proof fn lemma_cbor_import_items_err(item: SpecSchema, vs: Seq<SpecCbor>, k: nat, n: nat, e: SpecPortError)
    requires
        k <= n <= vs.len(),
        spec_cbor_import_items(item, vs, k) == Err::<Seq<SpecCbor>, SpecPortError>(e),
    ensures spec_cbor_import_items(item, vs, n) == Err::<Seq<SpecCbor>, SpecPortError>(e),
    decreases n,
{
    if k < n {
        lemma_cbor_import_items_err(item, vs, k, (n - 1) as nat, e);
    }
}

proof fn lemma_cbor_import_tuple_err(ss: Seq<SpecSchema>, vs: Seq<SpecCbor>, k: nat, n: nat, e: SpecPortError)
    requires
        k <= n <= ss.len(),
        n <= vs.len(),
        spec_cbor_import_tuple(ss, vs, k) == Err::<Seq<SpecCbor>, SpecPortError>(e),
    ensures spec_cbor_import_tuple(ss, vs, n) == Err::<Seq<SpecCbor>, SpecPortError>(e),
    decreases n,
{
    if k < n {
        lemma_cbor_import_tuple_err(ss, vs, k, (n - 1) as nat, e);
    }
}

proof fn lemma_cbor_import_object_err(ss: Seq<SpecSchema>, pairs: Seq<(SpecCbor, SpecCbor)>, k: nat, n: nat, e: SpecPortError)
    requires
        k <= n <= ss.len(),
        spec_cbor_import_object(ss, pairs, k) == Err::<Seq<SpecCbor>, SpecPortError>(e),
    ensures spec_cbor_import_object(ss, pairs, n) == Err::<Seq<SpecCbor>, SpecPortError>(e),
    decreases n,
{
    if k < n {
        lemma_cbor_import_object_err(ss, pairs, k, (n - 1) as nat, e);
    }
}

/// Convert a CBOR value of a given schema into its Holium CBOR value: scalars are kept as they
/// are, arrays are converted element by element, and a map becomes the array of the values of
/// the properties of the schema, in their order, each found under its name.
pub fn cbor_import_value_to_holium(json_schema: &HoliumJsonSchema, v: &CborValue) -> (r: Result<CborValue, Error>)
    ensures
        match spec_cbor_import(json_schema@, v@) {
            Ok(x) => r is Ok && r->Ok_0@ == x,
            Err(e) => r is Err && r->Err_0@ == e,
        },
    decreases schema_size(json_schema@),
{
    let schema: &HoliumJsonSchemaType = &json_schema.1;
    match (schema, v) {
        (HoliumJsonSchemaType::Null, CborValue::Simple(CborSimple::NullValue)) => Ok(CborValue::Simple(CborSimple::NullValue)),
        (HoliumJsonSchemaType::Boolean, CborValue::Simple(CborSimple::TrueValue)) => Ok(CborValue::Simple(CborSimple::TrueValue)),
        (HoliumJsonSchemaType::Boolean, CborValue::Simple(CborSimple::FalseValue)) => Ok(CborValue::Simple(CborSimple::FalseValue)),
        (HoliumJsonSchemaType::Number, CborValue::Negative(n)) => Ok(CborValue::Negative(*n)),
        (HoliumJsonSchemaType::Number, CborValue::Unsigned(u)) => Ok(CborValue::Unsigned(*u)),
        (HoliumJsonSchemaType::TextString, CborValue::TextString(t)) => Ok(CborValue::TextString(t.clone())),
        (HoliumJsonSchemaType::ByteString, CborValue::ByteString(b)) => Ok(CborValue::ByteString(copy_bytes(b))),
        (HoliumJsonSchemaType::ItemsArray(items_schema), CborValue::Array(values)) => {
            let ghost item = items_schema@;
            let ghost vs = view_cbor_seq(values@);
            proof { lemma_view_cbor_seq(values@); }
            let mut out: Vec<CborValue> = Vec::new();
            let mut i: usize = 0;
            while i < values.len()
                invariant
                    i <= values.len(),
                    item == items_schema@,
                    json_schema@.ty == SpecSchemaType::ItemsArray(Box::new(item)),
                    v@ == SpecCbor::Array(vs),
                    vs == view_cbor_seq(values@),
                    vs.len() == values.len(),
                    forall|j: int| 0 <= j < values.len() ==> #[trigger] vs[j] == values@[j]@,
                    spec_cbor_import_items(item, vs, i as nat) == Ok::<Seq<SpecCbor>, SpecPortError>(view_cbor_seq(out@)),
                decreases values.len() - i,
            {
                let x = match cbor_import_value_to_holium(items_schema, &values[i]) {
                    Ok(x) => x,
                    Err(e) => {
                        proof { lemma_cbor_import_items_err(item, vs, (i + 1) as nat, vs.len(), e@); }
                        return Err(e);
                    },
                };
                proof { lemma_view_cbor_seq_push(out@, x); }
                out.push(x);
                i = i + 1;
            }
            Ok(CborValue::Array(out))
        },
        (HoliumJsonSchemaType::TupleArray(tuple_schemata), CborValue::Array(values)) => {
            let ghost ss = view_schemas(tuple_schemata@);
            let ghost vs = view_cbor_seq(values@);
            proof { lemma_view_cbor_seq(values@); lemma_view_schemas(tuple_schemata@); }
            let n: usize = if tuple_schemata.len() < values.len() { tuple_schemata.len() } else { values.len() };
            let mut out: Vec<CborValue> = Vec::new();
            let mut i: usize = 0;
            while i < n
                invariant
                    i <= n,
                    n <= values.len(),
                    n <= tuple_schemata.len(),
                    ss == view_schemas(tuple_schemata@),
                    ss.len() == tuple_schemata.len(),
                    forall|j: int| 0 <= j < tuple_schemata.len() ==> #[trigger] ss[j] == tuple_schemata@[j]@,
                    json_schema@.ty == SpecSchemaType::TupleArray(ss),
                    v@ == SpecCbor::Array(vs),
                    n == if ss.len() < vs.len() { ss.len() } else { vs.len() },
                    vs == view_cbor_seq(values@),
                    vs.len() == values.len(),
                    forall|j: int| 0 <= j < values.len() ==> #[trigger] vs[j] == values@[j]@,
                    spec_cbor_import_tuple(ss, vs, i as nat) == Ok::<Seq<SpecCbor>, SpecPortError>(view_cbor_seq(out@)),
                decreases n - i,
            {
                proof { lemma_schemas_size(ss, i as int); }
                let x = match cbor_import_value_to_holium(&tuple_schemata[i], &values[i]) {
                    Ok(x) => x,
                    Err(e) => {
                        proof { lemma_cbor_import_tuple_err(ss, vs, (i + 1) as nat, n as nat, e@); }
                        return Err(e);
                    },
                };
                proof { lemma_view_cbor_seq_push(out@, x); }
                out.push(x);
                i = i + 1;
            }
            Ok(CborValue::Array(out))
        },
        (HoliumJsonSchemaType::Object(object_schemata), CborValue::Mapping(pairs)) => {
            let ghost ss = view_schemas(object_schemata@);
            let ghost ps = view_cbor_pairs(pairs@);
            proof { lemma_view_cbor_pairs(pairs@); lemma_view_schemas(object_schemata@); }
            let mut out: Vec<CborValue> = Vec::new();
            let mut i: usize = 0;
            while i < object_schemata.len()
                invariant
                    i <= object_schemata.len(),
                    ss == view_schemas(object_schemata@),
                    ss.len() == object_schemata.len(),
                    forall|j: int| 0 <= j < object_schemata.len() ==> #[trigger] ss[j] == object_schemata@[j]@,
                    json_schema@.ty == SpecSchemaType::Object(ss),
                    v@ == SpecCbor::Mapping(ps),
                    ps == view_cbor_pairs(pairs@),
                    ps.len() == pairs.len(),
                    forall|j: int| 0 <= j < pairs.len() ==> #[trigger] ps[j] == (pairs@[j].0@, pairs@[j].1@),
                    spec_cbor_import_object(ss, ps, i as nat) == Ok::<Seq<SpecCbor>, SpecPortError>(view_cbor_seq(out@)),
                decreases object_schemata.len() - i,
            {
                proof { lemma_schemas_size(ss, i as int); }
                let s = &object_schemata[i];
                let key = match &s.0.0 {
                    None => {
                        proof { lemma_cbor_import_object_err(ss, ps, (i + 1) as nat, ss.len(), SpecPortError::MissingKeyInObjectTypeSchema); }
                        return Err(Error::MissingKeyInObjectTypeSchema);
                    },
                    Some(key) => key,
                };
                let p = match find_cbor_key(pairs, key.as_str()) {
                    None => {
                        proof { lemma_cbor_import_object_err(ss, ps, (i + 1) as nat, ss.len(), SpecPortError::MissingObjectKey(key@)); }
                        return Err(Error::MissingObjectKey(key.clone()));
                    },
                    Some(p) => p,
                };
                let x = match cbor_import_value_to_holium(s, &pairs[p].1) {
                    Ok(x) => x,
                    Err(e) => {
                        proof { lemma_cbor_import_object_err(ss, ps, (i + 1) as nat, ss.len(), e@); }
                        return Err(e);
                    },
                };
                proof { lemma_view_cbor_seq_push(out@, x); }
                out.push(x);
                i = i + 1;
            }
            Ok(CborValue::Array(out))
        },
        _ => Err(Error::IncompatibleSchemaAndValue),
    }
}

/*********************************************
 * Importing JSON data
 *********************************************/

/// The Holium CBOR number of a JSON number: integers are kept, floats are not handled.
pub open spec fn spec_json_number_import(n: JsonNumber) -> Result<SpecCbor, SpecPortError> {
    match n {
        JsonNumber::PosInt(u) => Ok(SpecCbor::Unsigned(u)),
        JsonNumber::NegInt(i) => if i >= 0 { Ok(SpecCbor::Unsigned(i as u64)) } else { Ok(SpecCbor::Negative(i)) },
        _ => Err(SpecPortError::UnhandledFloat),
    }
}

/// The Holium CBOR value of a JSON value of schema `s`.
pub open spec fn spec_json_import(s: SpecSchema, v: SpecJson) -> Result<SpecCbor, SpecPortError>
    decreases s, 0nat,
{
    match s.ty {
        SpecSchemaType::Null => Ok(SpecCbor::Simple(CborSimple::NullValue)),
        SpecSchemaType::Boolean => match v {
            SpecJson::Bool(b) => Ok(SpecCbor::Simple(if b { CborSimple::TrueValue } else { CborSimple::FalseValue })),
            _ => Err(SpecPortError::IncompatibleSchemaAndValue),
        },
        SpecSchemaType::Number => match v {
            SpecJson::Number(n) => spec_json_number_import(n),
            _ => Err(SpecPortError::IncompatibleSchemaAndValue),
        },
        SpecSchemaType::TextString => match v {
            SpecJson::String(t) => Ok(SpecCbor::TextString(t)),
            _ => Err(SpecPortError::IncompatibleSchemaAndValue),
        },
        SpecSchemaType::ByteString => match v {
            SpecJson::String(t) => match base64_decoding(t) {
                Some(b) => Ok(SpecCbor::ByteString(b)),
                None => Err(SpecPortError::Base64DecodeError),
            },
            _ => Err(SpecPortError::IncompatibleSchemaAndValue),
        },
        SpecSchemaType::ItemsArray(item) => match v {
            SpecJson::Array(vs) => match spec_json_import_items(*item, vs, vs.len()) {
                Ok(rs) => Ok(SpecCbor::Array(rs)),
                Err(e) => Err(e),
            },
            _ => Err(SpecPortError::IncompatibleSchemaAndValue),
        },
        SpecSchemaType::TupleArray(ss) => match v {
            SpecJson::Array(vs) => match spec_json_import_tuple(ss, vs, if ss.len() < vs.len() { ss.len() } else { vs.len() }) {
                Ok(rs) => Ok(SpecCbor::Array(rs)),
                Err(e) => Err(e),
            },
            _ => Err(SpecPortError::IncompatibleSchemaAndValue),
        },
        SpecSchemaType::Object(ss) => match v {
            SpecJson::Object(ms) => match spec_json_import_object(ss, ms, ss.len()) {
                Ok(rs) => Ok(SpecCbor::Array(rs)),
                Err(e) => Err(e),
            },
            _ => Err(SpecPortError::IncompatibleSchemaAndValue),
        },
    }
}

/// The Holium CBOR values of the first `n` elements of a JSON array, all of schema `item`.
pub open spec fn spec_json_import_items(item: SpecSchema, vs: Seq<SpecJson>, n: nat) -> Result<Seq<SpecCbor>, SpecPortError>
    decreases item, n,
{
    if n == 0 || n > vs.len() {
        Ok(Seq::empty())
    } else {
        match spec_json_import_items(item, vs, (n - 1) as nat) {
            Err(e) => Err(e),
            Ok(prefix) => match spec_json_import(item, vs[n - 1]) {
                Err(e) => Err(e),
                Ok(x) => Ok(prefix.push(x)),
            },
        }
    }
}

/// The Holium CBOR values of the first `n` elements of a JSON tuple.
pub open spec fn spec_json_import_tuple(ss: Seq<SpecSchema>, vs: Seq<SpecJson>, n: nat) -> Result<Seq<SpecCbor>, SpecPortError>
    decreases ss, n,
{
    if n == 0 || n > ss.len() || n > vs.len() {
        Ok(Seq::empty())
    } else {
        match spec_json_import_tuple(ss, vs, (n - 1) as nat) {
            Err(e) => Err(e),
            Ok(prefix) => match spec_json_import(ss[n - 1], vs[n - 1]) {
                Err(e) => Err(e),
                Ok(x) => Ok(prefix.push(x)),
            },
        }
    }
}

/// The Holium CBOR values of the first `n` properties of an object schema, each found in a JSON
/// object under the name of its property.
pub open spec fn spec_json_import_object(ss: Seq<SpecSchema>, ms: Seq<(Seq<char>, SpecJson)>, n: nat)
    -> Result<Seq<SpecCbor>, SpecPortError>
    decreases ss, n,
{
    if n == 0 || n > ss.len() {
        Ok(Seq::empty())
    } else {
        match spec_json_import_object(ss, ms, (n - 1) as nat) {
            Err(e) => Err(e),
            Ok(prefix) => match ss[n - 1].name {
                None => Err(SpecPortError::MissingKeyInObjectTypeSchema),
                Some(key) => match spec_json_get(ms, key) {
                    None => Err(SpecPortError::MissingObjectKey(key)),
                    Some(x) => match spec_json_import(ss[n - 1], x) {
                        Err(e) => Err(e),
                        Ok(y) => Ok(prefix.push(y)),
                    },
                },
            },
        }
    }
}

proof fn lemma_json_import_items_err(item: SpecSchema, vs: Seq<SpecJson>, k: nat, n: nat, e: SpecPortError)
    requires
        k <= n <= vs.len(),
        spec_json_import_items(item, vs, k) == Err::<Seq<SpecCbor>, SpecPortError>(e),
    ensures spec_json_import_items(item, vs, n) == Err::<Seq<SpecCbor>, SpecPortError>(e),
    decreases n,
{
    if k < n {
        lemma_json_import_items_err(item, vs, k, (n - 1) as nat, e);
    }
}

proof fn lemma_json_import_tuple_err(ss: Seq<SpecSchema>, vs: Seq<SpecJson>, k: nat, n: nat, e: SpecPortError)
    requires
        k <= n <= ss.len(),
        n <= vs.len(),
        spec_json_import_tuple(ss, vs, k) == Err::<Seq<SpecCbor>, SpecPortError>(e),
    ensures spec_json_import_tuple(ss, vs, n) == Err::<Seq<SpecCbor>, SpecPortError>(e),
    decreases n,
{
    if k < n {
        lemma_json_import_tuple_err(ss, vs, k, (n - 1) as nat, e);
    }
}

proof fn lemma_json_import_object_err(ss: Seq<SpecSchema>, ms: Seq<(Seq<char>, SpecJson)>, k: nat, n: nat, e: SpecPortError)
    requires
        k <= n <= ss.len(),
        spec_json_import_object(ss, ms, k) == Err::<Seq<SpecCbor>, SpecPortError>(e),
    ensures spec_json_import_object(ss, ms, n) == Err::<Seq<SpecCbor>, SpecPortError>(e),
    decreases n,
{
    if k < n {
        lemma_json_import_object_err(ss, ms, k, (n - 1) as nat, e);
    }
}

/// Convert a JSON number into its Holium CBOR number.
fn json_number_import(n: &JsonNumber) -> (r: Result<CborValue, Error>)
    ensures
        match spec_json_number_import(*n) {
            Ok(x) => r is Ok && r->Ok_0@ == x,
            Err(e) => r is Err && r->Err_0@ == e,
        },
{
    match n {
        JsonNumber::PosInt(u) => Ok(CborValue::Unsigned(*u)),
        JsonNumber::NegInt(i) => if *i >= 0 { Ok(CborValue::Unsigned(*i as u64)) } else { Ok(CborValue::Negative(*i)) },
        _ => Err(Error::UnhandledFloat),
    }
}

/// Convert a JSON value of a given schema into its Holium CBOR value: null is written for any
/// value of a null schema, integers are kept, base64 texts of a byte string schema are decoded,
/// arrays are converted element by element, and an object becomes the array of the values of the
/// properties of the schema, in their order, each found under its name.
pub fn json_import_value_to_holium(json_schema: &HoliumJsonSchema, v: &JsonValue) -> (r: Result<CborValue, Error>)
    ensures
        match spec_json_import(json_schema@, v@) {
            Ok(x) => r is Ok && r->Ok_0@ == x,
            Err(e) => r is Err && r->Err_0@ == e,
        },
    decreases schema_size(json_schema@),
{
    let schema: &HoliumJsonSchemaType = &json_schema.1;
    match (schema, v) {
        (HoliumJsonSchemaType::Null, _) => Ok(CborValue::Simple(CborSimple::NullValue)),
        (HoliumJsonSchemaType::Boolean, JsonValue::Bool(b)) => Ok(CborValue::Simple(if *b { CborSimple::TrueValue } else { CborSimple::FalseValue })),
        (HoliumJsonSchemaType::Number, JsonValue::Number(n)) => json_number_import(n),
        (HoliumJsonSchemaType::TextString, JsonValue::String(t)) => Ok(CborValue::TextString(t.clone())),
        (HoliumJsonSchemaType::ByteString, JsonValue::String(t)) => {
            // decode base64-encoded string to bytes
            match base64_decode(t.as_str()) {
                Some(bytes) => Ok(CborValue::ByteString(bytes)),
                None => Err(Error::Base64DecodeError),
            }
        },
        (HoliumJsonSchemaType::ItemsArray(items_schema), JsonValue::Array(values)) => {
            let ghost item = items_schema@;
            let ghost vs = view_json_seq(values@);
            proof { lemma_view_json_seq(values@); }
            let mut out: Vec<CborValue> = Vec::new();
            let mut i: usize = 0;
            while i < values.len()
                invariant
                    i <= values.len(),
                    item == items_schema@,
                    json_schema@.ty == SpecSchemaType::ItemsArray(Box::new(item)),
                    v@ == SpecJson::Array(vs),
                    vs == view_json_seq(values@),
                    vs.len() == values.len(),
                    forall|j: int| 0 <= j < values.len() ==> #[trigger] vs[j] == values@[j]@,
                    spec_json_import_items(item, vs, i as nat) == Ok::<Seq<SpecCbor>, SpecPortError>(view_cbor_seq(out@)),
                decreases values.len() - i,
            {
                let x = match json_import_value_to_holium(items_schema, &values[i]) {
                    Ok(x) => x,
                    Err(e) => {
                        proof { lemma_json_import_items_err(item, vs, (i + 1) as nat, vs.len(), e@); }
                        return Err(e);
                    },
                };
                proof { lemma_view_cbor_seq_push(out@, x); }
                out.push(x);
                i = i + 1;
            }
            Ok(CborValue::Array(out))
        },
        (HoliumJsonSchemaType::TupleArray(tuple_schemata), JsonValue::Array(values)) => {
            let ghost ss = view_schemas(tuple_schemata@);
            let ghost vs = view_json_seq(values@);
            proof { lemma_view_json_seq(values@); lemma_view_schemas(tuple_schemata@); }
            let n: usize = if tuple_schemata.len() < values.len() { tuple_schemata.len() } else { values.len() };
            let mut out: Vec<CborValue> = Vec::new();
            let mut i: usize = 0;
            while i < n
                invariant
                    i <= n,
                    n <= values.len(),
                    n <= tuple_schemata.len(),
                    ss == view_schemas(tuple_schemata@),
                    ss.len() == tuple_schemata.len(),
                    forall|j: int| 0 <= j < tuple_schemata.len() ==> #[trigger] ss[j] == tuple_schemata@[j]@,
                    json_schema@.ty == SpecSchemaType::TupleArray(ss),
                    v@ == SpecJson::Array(vs),
                    n == if ss.len() < vs.len() { ss.len() } else { vs.len() },
                    vs == view_json_seq(values@),
                    vs.len() == values.len(),
                    forall|j: int| 0 <= j < values.len() ==> #[trigger] vs[j] == values@[j]@,
                    spec_json_import_tuple(ss, vs, i as nat) == Ok::<Seq<SpecCbor>, SpecPortError>(view_cbor_seq(out@)),
                decreases n - i,
            {
                proof { lemma_schemas_size(ss, i as int); }
                let x = match json_import_value_to_holium(&tuple_schemata[i], &values[i]) {
                    Ok(x) => x,
                    Err(e) => {
                        proof { lemma_json_import_tuple_err(ss, vs, (i + 1) as nat, n as nat, e@); }
                        return Err(e);
                    },
                };
                proof { lemma_view_cbor_seq_push(out@, x); }
                out.push(x);
                i = i + 1;
            }
            Ok(CborValue::Array(out))
        },
        (HoliumJsonSchemaType::Object(object_schemata), JsonValue::Object(members)) => {
            let ghost ss = view_schemas(object_schemata@);
            let ghost ms = view_json_members(members@);
            proof { lemma_view_schemas(object_schemata@); }
            let mut out: Vec<CborValue> = Vec::new();
            let mut i: usize = 0;
            while i < object_schemata.len()
                invariant
                    i <= object_schemata.len(),
                    ss == view_schemas(object_schemata@),
                    ss.len() == object_schemata.len(),
                    forall|j: int| 0 <= j < object_schemata.len() ==> #[trigger] ss[j] == object_schemata@[j]@,
                    json_schema@.ty == SpecSchemaType::Object(ss),
                    v@ == SpecJson::Object(ms),
                    ms == view_json_members(members@),
                    spec_json_import_object(ss, ms, i as nat) == Ok::<Seq<SpecCbor>, SpecPortError>(view_cbor_seq(out@)),
                decreases object_schemata.len() - i,
            {
                proof { lemma_schemas_size(ss, i as int); }
                let s = &object_schemata[i];
                let key = match &s.0.0 {
                    None => {
                        proof { lemma_json_import_object_err(ss, ms, (i + 1) as nat, ss.len(), SpecPortError::MissingKeyInObjectTypeSchema); }
                        return Err(Error::MissingKeyInObjectTypeSchema);
                    },
                    Some(key) => key,
                };
                let value = match json_get(members, key.as_str()) {
                    None => {
                        proof { lemma_json_import_object_err(ss, ms, (i + 1) as nat, ss.len(), SpecPortError::MissingObjectKey(key@)); }
                        return Err(Error::MissingObjectKey(key.clone()));
                    },
                    Some(value) => value,
                };
                let x = match json_import_value_to_holium(s, value) {
                    Ok(x) => x,
                    Err(e) => {
                        proof { lemma_json_import_object_err(ss, ms, (i + 1) as nat, ss.len(), e@); }
                        return Err(e);
                    },
                };
                proof { lemma_view_cbor_seq_push(out@, x); }
                out.push(x);
                i = i + 1;
            }
            Ok(CborValue::Array(out))
        },
        _ => Err(Error::IncompatibleSchemaAndValue),
    }
}

/*********************************************
 * Exporting to JSON data
 *********************************************/

/// The JSON value of a Holium CBOR value of schema `s`. Integers are written as the floats
/// nearest to them, and byte strings as base64 texts.
pub open spec fn spec_json_export(s: SpecSchema, v: SpecCbor) -> Result<SpecJson, SpecPortError>
    decreases s, 0nat,
{
    match s.ty {
        SpecSchemaType::Null => Ok(SpecJson::Null),
        SpecSchemaType::Boolean => match v {
            SpecCbor::Simple(CborSimple::TrueValue) => Ok(SpecJson::Bool(true)),
            SpecCbor::Simple(CborSimple::FalseValue) => Ok(SpecJson::Bool(false)),
            _ => Err(SpecPortError::IncompatibleSchemaAndValue),
        },
        SpecSchemaType::Number => match v {
            SpecCbor::Unsigned(u) => Ok(SpecJson::Number(JsonNumber::FloatOfUnsigned(u))),
            SpecCbor::Negative(n) => Ok(SpecJson::Number(JsonNumber::FloatOfSigned(n))),
            _ => Err(SpecPortError::IncompatibleSchemaAndValue),
        },
        SpecSchemaType::TextString => match v {
            SpecCbor::TextString(t) => Ok(SpecJson::String(t)),
            _ => Err(SpecPortError::IncompatibleSchemaAndValue),
        },
        SpecSchemaType::ByteString => match v {
            SpecCbor::ByteString(b) => Ok(SpecJson::String(spec_base64_encode(b))),
            _ => Err(SpecPortError::IncompatibleSchemaAndValue),
        },
        SpecSchemaType::ItemsArray(item) => match v {
            SpecCbor::Array(vs) => match spec_json_export_items(*item, vs, vs.len()) {
                Ok(rs) => Ok(SpecJson::Array(rs)),
                Err(e) => Err(e),
            },
            _ => Err(SpecPortError::IncompatibleSchemaAndValue),
        },
        SpecSchemaType::TupleArray(ss) => match v {
            SpecCbor::Array(vs) => match spec_json_export_tuple(ss, vs, if ss.len() < vs.len() { ss.len() } else { vs.len() }) {
                Ok(rs) => Ok(SpecJson::Array(rs)),
                Err(e) => Err(e),
            },
            _ => Err(SpecPortError::IncompatibleSchemaAndValue),
        },
        SpecSchemaType::Object(ss) => match v {
            SpecCbor::Array(vs) => match spec_json_export_object(ss, vs, if ss.len() < vs.len() { ss.len() } else { vs.len() }) {
                Ok(ms) => Ok(SpecJson::Object(ms)),
                Err(e) => Err(e),
            },
            _ => Err(SpecPortError::IncompatibleSchemaAndValue),
        },
    }
}

/// The JSON values of the first `n` elements of a Holium CBOR array, all of schema `item`.
pub open spec fn spec_json_export_items(item: SpecSchema, vs: Seq<SpecCbor>, n: nat) -> Result<Seq<SpecJson>, SpecPortError>
    decreases item, n,
{
    if n == 0 || n > vs.len() {
        Ok(Seq::empty())
    } else {
        match spec_json_export_items(item, vs, (n - 1) as nat) {
            Err(e) => Err(e),
            Ok(prefix) => match spec_json_export(item, vs[n - 1]) {
                Err(e) => Err(e),
                Ok(x) => Ok(prefix.push(x)),
            },
        }
    }
}

/// The JSON values of the first `n` elements of a Holium CBOR tuple.
pub open spec fn spec_json_export_tuple(ss: Seq<SpecSchema>, vs: Seq<SpecCbor>, n: nat) -> Result<Seq<SpecJson>, SpecPortError>
    decreases ss, n,
{
    if n == 0 || n > ss.len() || n > vs.len() {
        Ok(Seq::empty())
    } else {
        match spec_json_export_tuple(ss, vs, (n - 1) as nat) {
            Err(e) => Err(e),
            Ok(prefix) => match spec_json_export(ss[n - 1], vs[n - 1]) {
                Err(e) => Err(e),
                Ok(x) => Ok(prefix.push(x)),
            },
        }
    }
}

/// The JSON object members of the first `n` values of a Holium CBOR array, each set in turn under
/// the name of the property of the schema at its position, as in a JSON map: where two properties
/// share a name, the later value replaces the earlier one.
pub open spec fn spec_json_export_object(ss: Seq<SpecSchema>, vs: Seq<SpecCbor>, n: nat)
    -> Result<Seq<(Seq<char>, SpecJson)>, SpecPortError>
    decreases ss, n,
{
    if n == 0 || n > ss.len() || n > vs.len() {
        Ok(Seq::empty())
    } else {
        match spec_json_export_object(ss, vs, (n - 1) as nat) {
            Err(e) => Err(e),
            Ok(prefix) => match ss[n - 1].name {
                None => Err(SpecPortError::MissingKeyInObjectTypeSchema),
                Some(key) => match spec_json_export(ss[n - 1], vs[n - 1]) {
                    Err(e) => Err(e),
                    Ok(x) => Ok(json_members_insert(prefix, key, x)),
                },
            },
        }
    }
}

proof fn lemma_json_export_items_err(item: SpecSchema, vs: Seq<SpecCbor>, k: nat, n: nat, e: SpecPortError)
    requires
        k <= n <= vs.len(),
        spec_json_export_items(item, vs, k) == Err::<Seq<SpecJson>, SpecPortError>(e),
    ensures spec_json_export_items(item, vs, n) == Err::<Seq<SpecJson>, SpecPortError>(e),
    decreases n,
{
    if k < n {
        lemma_json_export_items_err(item, vs, k, (n - 1) as nat, e);
    }
}

proof fn lemma_json_export_tuple_err(ss: Seq<SpecSchema>, vs: Seq<SpecCbor>, k: nat, n: nat, e: SpecPortError)
    requires
        k <= n <= ss.len(),
        n <= vs.len(),
        spec_json_export_tuple(ss, vs, k) == Err::<Seq<SpecJson>, SpecPortError>(e),
    ensures spec_json_export_tuple(ss, vs, n) == Err::<Seq<SpecJson>, SpecPortError>(e),
    decreases n,
{
    if k < n {
        lemma_json_export_tuple_err(ss, vs, k, (n - 1) as nat, e);
    }
}

proof fn lemma_json_export_object_err(ss: Seq<SpecSchema>, vs: Seq<SpecCbor>, k: nat, n: nat, e: SpecPortError)
    requires
        k <= n <= ss.len(),
        n <= vs.len(),
        spec_json_export_object(ss, vs, k) == Err::<Seq<(Seq<char>, SpecJson)>, SpecPortError>(e),
    ensures spec_json_export_object(ss, vs, n) == Err::<Seq<(Seq<char>, SpecJson)>, SpecPortError>(e),
    decreases n,
{
    if k < n {
        lemma_json_export_object_err(ss, vs, k, (n - 1) as nat, e);
    }
}

/// Convert a Holium CBOR value of a given schema into its JSON value: integers become the floats
/// nearest to them, byte strings become base64 texts, arrays are converted element by element,
/// and an array of object schema becomes an object whose members are named after the properties of
/// the schema (one member per name, holding the last value given under it).
pub fn export_value_from_holium(json_schema: &HoliumJsonSchema, v: &CborValue) -> (r: Result<JsonValue, Error>)
    ensures
        match spec_json_export(json_schema@, v@) {
            Ok(x) => r is Ok && r->Ok_0@ == x,
            Err(e) => r is Err && r->Err_0@ == e,
        },
    decreases schema_size(json_schema@),
{
    let schema: &HoliumJsonSchemaType = &json_schema.1;
    match (schema, v) {
        (HoliumJsonSchemaType::Null, _) => Ok(JsonValue::Null),
        (HoliumJsonSchemaType::Boolean, CborValue::Simple(CborSimple::TrueValue)) => Ok(JsonValue::Bool(true)),
        (HoliumJsonSchemaType::Boolean, CborValue::Simple(CborSimple::FalseValue)) => Ok(JsonValue::Bool(false)),
        (HoliumJsonSchemaType::Number, CborValue::Unsigned(u)) => Ok(JsonValue::Number(JsonNumber::FloatOfUnsigned(*u))),
        (HoliumJsonSchemaType::Number, CborValue::Negative(n)) => Ok(JsonValue::Number(JsonNumber::FloatOfSigned(*n))),
        (HoliumJsonSchemaType::TextString, CborValue::TextString(t)) => Ok(JsonValue::String(t.clone())),
        (HoliumJsonSchemaType::ByteString, CborValue::ByteString(b)) => {
            // encode the bytes as a base64 string
            Ok(JsonValue::String(base64_encode(b.as_slice())))
        },
        (HoliumJsonSchemaType::ItemsArray(items_schema), CborValue::Array(values)) => {
            let ghost item = items_schema@;
            let ghost vs = view_cbor_seq(values@);
            proof { lemma_view_cbor_seq(values@); }
            let mut out: Vec<JsonValue> = Vec::new();
            let mut i: usize = 0;
            while i < values.len()
                invariant
                    i <= values.len(),
                    item == items_schema@,
                    json_schema@.ty == SpecSchemaType::ItemsArray(Box::new(item)),
                    v@ == SpecCbor::Array(vs),
                    vs == view_cbor_seq(values@),
                    vs.len() == values.len(),
                    forall|j: int| 0 <= j < values.len() ==> #[trigger] vs[j] == values@[j]@,
                    spec_json_export_items(item, vs, i as nat) == Ok::<Seq<SpecJson>, SpecPortError>(view_json_seq(out@)),
                decreases values.len() - i,
            {
                let x = match export_value_from_holium(items_schema, &values[i]) {
                    Ok(x) => x,
                    Err(e) => {
                        proof { lemma_json_export_items_err(item, vs, (i + 1) as nat, vs.len(), e@); }
                        return Err(e);
                    },
                };
                proof { lemma_view_json_seq_push(out@, x); }
                out.push(x);
                i = i + 1;
            }
            Ok(JsonValue::Array(out))
        },
        (HoliumJsonSchemaType::TupleArray(tuple_schemata), CborValue::Array(values)) => {
            let ghost ss = view_schemas(tuple_schemata@);
            let ghost vs = view_cbor_seq(values@);
            proof { lemma_view_cbor_seq(values@); lemma_view_schemas(tuple_schemata@); }
            let n: usize = if tuple_schemata.len() < values.len() { tuple_schemata.len() } else { values.len() };
            let mut out: Vec<JsonValue> = Vec::new();
            let mut i: usize = 0;
            while i < n
                invariant
                    i <= n,
                    n <= values.len(),
                    n <= tuple_schemata.len(),
                    ss == view_schemas(tuple_schemata@),
                    ss.len() == tuple_schemata.len(),
                    forall|j: int| 0 <= j < tuple_schemata.len() ==> #[trigger] ss[j] == tuple_schemata@[j]@,
                    json_schema@.ty == SpecSchemaType::TupleArray(ss),
                    v@ == SpecCbor::Array(vs),
                    n == if ss.len() < vs.len() { ss.len() } else { vs.len() },
                    vs == view_cbor_seq(values@),
                    vs.len() == values.len(),
                    forall|j: int| 0 <= j < values.len() ==> #[trigger] vs[j] == values@[j]@,
                    spec_json_export_tuple(ss, vs, i as nat) == Ok::<Seq<SpecJson>, SpecPortError>(view_json_seq(out@)),
                decreases n - i,
            {
                proof { lemma_schemas_size(ss, i as int); }
                let x = match export_value_from_holium(&tuple_schemata[i], &values[i]) {
                    Ok(x) => x,
                    Err(e) => {
                        proof { lemma_json_export_tuple_err(ss, vs, (i + 1) as nat, n as nat, e@); }
                        return Err(e);
                    },
                };
                proof { lemma_view_json_seq_push(out@, x); }
                out.push(x);
                i = i + 1;
            }
            Ok(JsonValue::Array(out))
        },
        (HoliumJsonSchemaType::Object(object_schemata), CborValue::Array(values)) => {
            let ghost ss = view_schemas(object_schemata@);
            let ghost vs = view_cbor_seq(values@);
            proof { lemma_view_cbor_seq(values@); lemma_view_schemas(object_schemata@); }
            let n: usize = if object_schemata.len() < values.len() { object_schemata.len() } else { values.len() };
            let mut out: Vec<(String, JsonValue)> = Vec::new();
            let mut i: usize = 0;
            while i < n
                invariant
                    i <= n,
                    n <= values.len(),
                    n <= object_schemata.len(),
                    ss == view_schemas(object_schemata@),
                    ss.len() == object_schemata.len(),
                    forall|j: int| 0 <= j < object_schemata.len() ==> #[trigger] ss[j] == object_schemata@[j]@,
                    json_schema@.ty == SpecSchemaType::Object(ss),
                    v@ == SpecCbor::Array(vs),
                    n == if ss.len() < vs.len() { ss.len() } else { vs.len() },
                    vs == view_cbor_seq(values@),
                    vs.len() == values.len(),
                    forall|j: int| 0 <= j < values.len() ==> #[trigger] vs[j] == values@[j]@,
                    spec_json_export_object(ss, vs, i as nat) == Ok::<Seq<(Seq<char>, SpecJson)>, SpecPortError>(view_json_members(out@)),
                decreases n - i,
            {
                proof { lemma_schemas_size(ss, i as int); }
                let s = &object_schemata[i];
                let key = match &s.0.0 {
                    None => {
                        proof { lemma_json_export_object_err(ss, vs, (i + 1) as nat, n as nat, SpecPortError::MissingKeyInObjectTypeSchema); }
                        return Err(Error::MissingKeyInObjectTypeSchema);
                    },
                    Some(key) => key,
                };
                let x = match export_value_from_holium(s, &values[i]) {
                    Ok(x) => x,
                    Err(e) => {
                        proof { lemma_json_export_object_err(ss, vs, (i + 1) as nat, n as nat, e@); }
                        return Err(e);
                    },
                };
                let ghost prefix = view_json_members(out@);
                proof {
                    lemma_view_json_members(out@);
                    assert(spec_json_export_object(ss, vs, (i + 1) as nat)
                        == Ok::<Seq<(Seq<char>, SpecJson)>, SpecPortError>(json_members_insert(prefix, key@, x@)));
                }
                let member = (key.clone(), x);
                match json_member_position(&out, key.as_str()) {
                    Some(p) => {
                        proof { lemma_view_json_members_update(out@, p as int, member); }
                        out.set(p, member);
                    },
                    None => {
                        proof { lemma_view_json_members_push(out@, member); }
                        out.push(member);
                    },
                }
                proof { assert(view_json_members(out@) == json_members_insert(prefix, key@, x@)); }
                i = i + 1;
            }
            Ok(JsonValue::Object(out))
        },
        _ => Err(Error::IncompatibleSchemaAndValue),
    }
}

/*********************************************
 * Plainness of imported values
 *********************************************/

/// No negative integer of the value is `i64::MAX`, the one value the sk-cbor writer cannot
/// encode (it computes `-(n + 1)`).
pub open spec fn cbor_encodable(v: SpecCbor) -> bool
    decreases v,
{
    match v {
        SpecCbor::Negative(n) => n != i64::MAX,
        SpecCbor::Array(a) => cbor_encodable_seq(a),
        SpecCbor::Mapping(m) => cbor_encodable_pairs(m),
        SpecCbor::Tag(_, b) => cbor_encodable(*b),
        _ => true,
    }
}

pub open spec fn cbor_encodable_seq(a: Seq<SpecCbor>) -> bool
    decreases a,
{
    if a.len() == 0 { true } else { cbor_encodable_seq(a.drop_last()) && cbor_encodable(a.last()) }
}

pub open spec fn cbor_encodable_pairs(m: Seq<(SpecCbor, SpecCbor)>) -> bool
    decreases m,
{
    if m.len() == 0 {
        true
    } else {
        cbor_encodable_pairs(m.drop_last()) && cbor_encodable(m.last().0) && cbor_encodable(m.last().1)
    }
}

/// The value holds no map, and each of its negative integers is below zero: the values that
/// the sk-cbor reader gives back unchanged from their encoding.
pub open spec fn cbor_plain(v: SpecCbor) -> bool
    decreases v,
{
    match v {
        SpecCbor::Negative(n) => n < 0,
        SpecCbor::Array(a) => cbor_plain_seq(a),
        SpecCbor::Mapping(_) => false,
        SpecCbor::Tag(_, b) => cbor_plain(*b),
        _ => true,
    }
}

pub open spec fn cbor_plain_seq(a: Seq<SpecCbor>) -> bool
    decreases a,
{
    if a.len() == 0 { true } else { cbor_plain_seq(a.drop_last()) && cbor_plain(a.last()) }
}

/// Each negative integer of the value is below zero, as the sk-cbor reader produces them.
pub open spec fn cbor_negatives_valid(v: SpecCbor) -> bool
    decreases v,
{
    match v {
        SpecCbor::Negative(n) => n < 0,
        SpecCbor::Array(a) => cbor_negatives_valid_seq(a),
        SpecCbor::Mapping(m) => cbor_negatives_valid_pairs(m),
        SpecCbor::Tag(_, b) => cbor_negatives_valid(*b),
        _ => true,
    }
}

pub open spec fn cbor_negatives_valid_seq(a: Seq<SpecCbor>) -> bool
    decreases a,
{
    if a.len() == 0 { true } else { cbor_negatives_valid_seq(a.drop_last()) && cbor_negatives_valid(a.last()) }
}

pub open spec fn cbor_negatives_valid_pairs(m: Seq<(SpecCbor, SpecCbor)>) -> bool
    decreases m,
{
    if m.len() == 0 {
        true
    } else {
        cbor_negatives_valid_pairs(m.drop_last()) && cbor_negatives_valid(m.last().0) && cbor_negatives_valid(m.last().1)
    }
}

pub proof fn lemma_cbor_plain_seq(a: Seq<SpecCbor>)
    ensures cbor_plain_seq(a) <==> forall|i: int| 0 <= i < a.len() ==> #[trigger] cbor_plain(a[i]),
    decreases a.len(),
{
    if a.len() > 0 {
        let b = a.drop_last();
        lemma_cbor_plain_seq(b);
        if cbor_plain_seq(a) {
            assert forall|i: int| 0 <= i < a.len() implies #[trigger] cbor_plain(a[i]) by {
                if i < a.len() - 1 {
                    assert(b[i] == a[i]);
                }
            }
        }
        if forall|i: int| 0 <= i < a.len() ==> #[trigger] cbor_plain(a[i]) {
            assert forall|i: int| 0 <= i < b.len() implies #[trigger] cbor_plain(b[i]) by {
                assert(b[i] == a[i]);
                assert(cbor_plain(a[i]));
            }
            assert(cbor_plain(a[a.len() - 1]));
        }
    }
}

pub proof fn lemma_cbor_encodable_seq(a: Seq<SpecCbor>)
    ensures cbor_encodable_seq(a) <==> forall|i: int| 0 <= i < a.len() ==> #[trigger] cbor_encodable(a[i]),
    decreases a.len(),
{
    if a.len() > 0 {
        let b = a.drop_last();
        lemma_cbor_encodable_seq(b);
        if cbor_encodable_seq(a) {
            assert forall|i: int| 0 <= i < a.len() implies #[trigger] cbor_encodable(a[i]) by {
                if i < a.len() - 1 {
                    assert(b[i] == a[i]);
                }
            }
        }
        if forall|i: int| 0 <= i < a.len() ==> #[trigger] cbor_encodable(a[i]) {
            assert forall|i: int| 0 <= i < b.len() implies #[trigger] cbor_encodable(b[i]) by {
                assert(b[i] == a[i]);
                assert(cbor_encodable(a[i]));
            }
            assert(cbor_encodable(a[a.len() - 1]));
        }
    }
}

pub proof fn lemma_cbor_negatives_valid_seq(a: Seq<SpecCbor>)
    ensures cbor_negatives_valid_seq(a) <==> forall|i: int| 0 <= i < a.len() ==> #[trigger] cbor_negatives_valid(a[i]),
    decreases a.len(),
{
    if a.len() > 0 {
        let b = a.drop_last();
        lemma_cbor_negatives_valid_seq(b);
        if cbor_negatives_valid_seq(a) {
            assert forall|i: int| 0 <= i < a.len() implies #[trigger] cbor_negatives_valid(a[i]) by {
                if i < a.len() - 1 {
                    assert(b[i] == a[i]);
                }
            }
        }
        if forall|i: int| 0 <= i < a.len() ==> #[trigger] cbor_negatives_valid(a[i]) {
            assert forall|i: int| 0 <= i < b.len() implies #[trigger] cbor_negatives_valid(b[i]) by {
                assert(b[i] == a[i]);
                assert(cbor_negatives_valid(a[i]));
            }
            assert(cbor_negatives_valid(a[a.len() - 1]));
        }
    }
}

pub proof fn lemma_cbor_negatives_valid_pairs(m: Seq<(SpecCbor, SpecCbor)>)
    ensures
        cbor_negatives_valid_pairs(m) <==> forall|i: int| 0 <= i < m.len()
            ==> cbor_negatives_valid(#[trigger] m[i].0) && cbor_negatives_valid(m[i].1),
    decreases m.len(),
{
    if m.len() > 0 {
        let b = m.drop_last();
        lemma_cbor_negatives_valid_pairs(b);
        if cbor_negatives_valid_pairs(m) {
            assert forall|i: int| 0 <= i < m.len() implies cbor_negatives_valid(#[trigger] m[i].0) && cbor_negatives_valid(m[i].1) by {
                if i < m.len() - 1 {
                    assert(b[i] == m[i]);
                    assert(cbor_negatives_valid(b[i].0));
                }
            }
        }
        if forall|i: int| 0 <= i < m.len() ==> cbor_negatives_valid(#[trigger] m[i].0) && cbor_negatives_valid(m[i].1) {
            assert forall|i: int| 0 <= i < b.len() implies cbor_negatives_valid(#[trigger] b[i].0) && cbor_negatives_valid(b[i].1) by {
                assert(b[i] == m[i]);
                assert(cbor_negatives_valid(m[i].0));
            }
            assert(cbor_negatives_valid(m[m.len() - 1].0));
        }
    }
}

pub proof fn lemma_plain_encodable(v: SpecCbor)
    requires cbor_plain(v),
    ensures cbor_encodable(v),
    decreases v,
{
    match v {
        SpecCbor::Array(a) => {
            lemma_cbor_plain_seq(a);
            lemma_cbor_encodable_seq(a);
            assert forall|i: int| 0 <= i < a.len() implies #[trigger] cbor_encodable(a[i]) by {
                lemma_plain_encodable(a[i]);
            }
        },
        SpecCbor::Tag(_, b) => lemma_plain_encodable(*b),
        _ => {},
    }
}

proof fn lemma_cbor_import_plain(s: SpecSchema, v: SpecCbor)
    requires
        cbor_negatives_valid(v),
        spec_cbor_import(s, v) is Ok,
    ensures cbor_plain(spec_cbor_import(s, v)->Ok_0),
    decreases s, 0nat,
{
    match s.ty {
        SpecSchemaType::ItemsArray(item) => {
            let vs = v->Array_0;
            lemma_cbor_negatives_valid_seq(vs);
            lemma_cbor_import_items_plain(*item, vs, vs.len());
            lemma_cbor_plain_seq(spec_cbor_import_items(*item, vs, vs.len())->Ok_0);
        },
        SpecSchemaType::TupleArray(ss) => {
            let vs = v->Array_0;
            let n: nat = if ss.len() < vs.len() { ss.len() } else { vs.len() };
            lemma_cbor_negatives_valid_seq(vs);
            lemma_cbor_import_tuple_plain(ss, vs, n);
            lemma_cbor_plain_seq(spec_cbor_import_tuple(ss, vs, n)->Ok_0);
        },
        SpecSchemaType::Object(ss) => {
            let ps = v->Mapping_0;
            lemma_cbor_negatives_valid_pairs(ps);
            lemma_cbor_import_object_plain(ss, ps, ss.len());
            lemma_cbor_plain_seq(spec_cbor_import_object(ss, ps, ss.len())->Ok_0);
        },
        _ => {},
    }
}

proof fn lemma_cbor_import_items_plain(item: SpecSchema, vs: Seq<SpecCbor>, n: nat)
    requires
        forall|i: int| 0 <= i < vs.len() ==> #[trigger] cbor_negatives_valid(vs[i]),
        spec_cbor_import_items(item, vs, n) is Ok,
    ensures
        forall|i: int| 0 <= i < spec_cbor_import_items(item, vs, n)->Ok_0.len()
            ==> #[trigger] cbor_plain(spec_cbor_import_items(item, vs, n)->Ok_0[i]),
    decreases item, n,
{
    if n > 0 && n <= vs.len() {
        lemma_cbor_import_items_plain(item, vs, (n - 1) as nat);
        lemma_cbor_import_plain(item, vs[n - 1]);
    }
}

proof fn lemma_cbor_import_tuple_plain(ss: Seq<SpecSchema>, vs: Seq<SpecCbor>, n: nat)
    requires
        forall|i: int| 0 <= i < vs.len() ==> #[trigger] cbor_negatives_valid(vs[i]),
        spec_cbor_import_tuple(ss, vs, n) is Ok,
    ensures
        forall|i: int| 0 <= i < spec_cbor_import_tuple(ss, vs, n)->Ok_0.len()
            ==> #[trigger] cbor_plain(spec_cbor_import_tuple(ss, vs, n)->Ok_0[i]),
    decreases ss, n,
{
    if n > 0 && n <= ss.len() && n <= vs.len() {
        lemma_cbor_import_tuple_plain(ss, vs, (n - 1) as nat);
        lemma_cbor_import_plain(ss[n - 1], vs[n - 1]);
    }
}

proof fn lemma_cbor_import_object_plain(ss: Seq<SpecSchema>, ps: Seq<(SpecCbor, SpecCbor)>, n: nat)
    requires
        forall|i: int| 0 <= i < ps.len() ==> cbor_negatives_valid(#[trigger] ps[i].0) && cbor_negatives_valid(ps[i].1),
        spec_cbor_import_object(ss, ps, n) is Ok,
    ensures
        forall|i: int| 0 <= i < spec_cbor_import_object(ss, ps, n)->Ok_0.len()
            ==> #[trigger] cbor_plain(spec_cbor_import_object(ss, ps, n)->Ok_0[i]),
    decreases ss, n,
{
    if n > 0 && n <= ss.len() {
        lemma_cbor_import_object_plain(ss, ps, (n - 1) as nat);
        let key = ss[n - 1].name->Some_0;
        let p = cbor_key_position(ps, key, 0);
        lemma_cbor_key_position(ps, key, 0);
        assert(cbor_negatives_valid(ps[p].0));
        lemma_cbor_import_plain(ss[n - 1], ps[p].1);
    }
}

proof fn lemma_json_import_plain(s: SpecSchema, v: SpecJson)
    requires spec_json_import(s, v) is Ok,
    ensures cbor_plain(spec_json_import(s, v)->Ok_0),
    decreases s, 0nat,
{
    match s.ty {
        SpecSchemaType::ItemsArray(item) => {
            let vs = v->Array_0;
            lemma_json_import_items_plain(*item, vs, vs.len());
            lemma_cbor_plain_seq(spec_json_import_items(*item, vs, vs.len())->Ok_0);
        },
        SpecSchemaType::TupleArray(ss) => {
            let vs = v->Array_0;
            let n: nat = if ss.len() < vs.len() { ss.len() } else { vs.len() };
            lemma_json_import_tuple_plain(ss, vs, n);
            lemma_cbor_plain_seq(spec_json_import_tuple(ss, vs, n)->Ok_0);
        },
        SpecSchemaType::Object(ss) => {
            let ms = v->Object_0;
            lemma_json_import_object_plain(ss, ms, ss.len());
            lemma_cbor_plain_seq(spec_json_import_object(ss, ms, ss.len())->Ok_0);
        },
        _ => {},
    }
}

proof fn lemma_json_import_items_plain(item: SpecSchema, vs: Seq<SpecJson>, n: nat)
    requires spec_json_import_items(item, vs, n) is Ok,
    ensures
        forall|i: int| 0 <= i < spec_json_import_items(item, vs, n)->Ok_0.len()
            ==> #[trigger] cbor_plain(spec_json_import_items(item, vs, n)->Ok_0[i]),
    decreases item, n,
{
    if n > 0 && n <= vs.len() {
        lemma_json_import_items_plain(item, vs, (n - 1) as nat);
        lemma_json_import_plain(item, vs[n - 1]);
    }
}

proof fn lemma_json_import_tuple_plain(ss: Seq<SpecSchema>, vs: Seq<SpecJson>, n: nat)
    requires spec_json_import_tuple(ss, vs, n) is Ok,
    ensures
        forall|i: int| 0 <= i < spec_json_import_tuple(ss, vs, n)->Ok_0.len()
            ==> #[trigger] cbor_plain(spec_json_import_tuple(ss, vs, n)->Ok_0[i]),
    decreases ss, n,
{
    if n > 0 && n <= ss.len() && n <= vs.len() {
        lemma_json_import_tuple_plain(ss, vs, (n - 1) as nat);
        lemma_json_import_plain(ss[n - 1], vs[n - 1]);
    }
}

proof fn lemma_json_import_object_plain(ss: Seq<SpecSchema>, ms: Seq<(Seq<char>, SpecJson)>, n: nat)
    requires spec_json_import_object(ss, ms, n) is Ok,
    ensures
        forall|i: int| 0 <= i < spec_json_import_object(ss, ms, n)->Ok_0.len()
            ==> #[trigger] cbor_plain(spec_json_import_object(ss, ms, n)->Ok_0[i]),
    decreases ss, n,
{
    if n > 0 && n <= ss.len() {
        lemma_json_import_object_plain(ss, ms, (n - 1) as nat);
        let key = ss[n - 1].name->Some_0;
        lemma_json_import_plain(ss[n - 1], spec_json_get(ms, key)->Some_0);
    }
}

/*********************************************
 * Porters
 *********************************************/

/// Whether a schema fits the binary porter: an array of tuples whose first element is a byte
/// string.
pub open spec fn spec_bin_schema_valid(s: SpecSchema) -> bool {
    match s.ty {
        SpecSchemaType::TupleArray(ss) => ss.len() > 0 && ss[0].ty == SpecSchemaType::ByteString,
        _ => false,
    }
}

/// Check that a schema fits the binary porter: an array of tuples whose first element is a byte
/// string.
pub fn validate_json_schema_for_bin_porter(json_schema: &HoliumJsonSchema) -> (r: Result<(), Error>)
    ensures
        spec_bin_schema_valid(json_schema@) ==> r is Ok,
        !spec_bin_schema_valid(json_schema@) ==> r is Err && r->Err_0@ == SpecPortError::IncompatibleSchemaAndValue,
{
    let schema: &HoliumJsonSchemaType = &json_schema.1;
    let tuples_array = match schema {
        HoliumJsonSchemaType::TupleArray(tuples_array) => tuples_array,
        _ => return Err(Error::IncompatibleSchemaAndValue),
    };
    proof { lemma_view_schemas(tuples_array@); }
    if tuples_array.len() == 0 {
        return Err(Error::IncompatibleSchemaAndValue);
    }
    let sub_schema: &HoliumJsonSchemaType = &tuples_array[0].1;
    match sub_schema {
        HoliumJsonSchemaType::ByteString => Ok(()),
        _ => Err(Error::IncompatibleSchemaAndValue),
    }
}

/// Holium CBOR data holding one byte string.
pub open spec fn spec_bin_holium(contents: Seq<u8>) -> SpecCbor {
    SpecCbor::Array(seq![SpecCbor::ByteString(contents)])
}

/// The bytes that the binary porter exports from Holium CBOR data.
pub open spec fn spec_bin_export(s: SpecSchema, data: Seq<u8>) -> Result<Seq<u8>, SpecPortError> {
    if !spec_bin_schema_valid(s) {
        Err(SpecPortError::IncompatibleSchemaAndValue)
    } else {
        match cbor_decoding(data) {
            None => Err(SpecPortError::FailedToReadHoliumCborData),
            Some(SpecCbor::Array(vs)) => if vs.len() > 0 {
                match vs[0] {
                    SpecCbor::ByteString(b) => Ok(b),
                    _ => Err(SpecPortError::IncompatibleSchemaAndValue),
                }
            } else {
                Err(SpecPortError::IncompatibleSchemaAndValue)
            },
            Some(_) => Err(SpecPortError::IncompatibleSchemaAndValue),
        }
    }
}

/// Porters between an outside data format and Holium CBOR.
pub trait FormatPorter {
    /// What an export produces.
    type Exported;

    /// The bytes an import writes, from the bytes of the imported data.
    spec fn spec_import(s: SpecSchema, data: Seq<u8>) -> Result<Seq<u8>, SpecPortError>;

    /// What an export produces, from Holium CBOR data.
    spec fn spec_export(s: SpecSchema, data: Seq<u8>, r: Result<Self::Exported, Error>) -> bool;

    /// Import data of a given schema into Holium CBOR data.
    fn import_to_holium(json_schema: &HoliumJsonSchema, data: &[u8]) -> (r: Result<Vec<u8>, Error>)
        ensures
            match Self::spec_import(json_schema@, data@) {
                Ok(b) => r is Ok && r->Ok_0@ == b,
                Err(e) => r is Err && r->Err_0@ == e,
            };

    /// Export Holium CBOR data of a given schema.
    fn export_from_holium(json_schema: &HoliumJsonSchema, data: &[u8]) -> (r: Result<Self::Exported, Error>)
        ensures Self::spec_export(json_schema@, data@, r);
}

/// The binary porter: binary contents are held in Holium CBOR as a one element array of a byte
/// string.
pub struct BinPorter;

impl FormatPorter for BinPorter {
    type Exported = Vec<u8>;

    open spec fn spec_import(s: SpecSchema, data: Seq<u8>) -> Result<Seq<u8>, SpecPortError> {
        if !spec_bin_schema_valid(s) {
            Err(SpecPortError::IncompatibleSchemaAndValue)
        } else {
            Ok(cbor_encoding(spec_bin_holium(data))->Some_0)
        }
    }

    open spec fn spec_export(s: SpecSchema, data: Seq<u8>, r: Result<Vec<u8>, Error>) -> bool {
        match spec_bin_export(s, data) {
            Ok(b) => r is Ok && r->Ok_0@ == b,
            Err(e) => r is Err && r->Err_0@ == e,
        }
    }

    /// Write binary contents as Holium CBOR: a one element array of a byte string. Exporting what
    /// it writes gives the contents back.
    fn import_to_holium(json_schema: &HoliumJsonSchema, data: &[u8]) -> (r: Result<Vec<u8>, Error>)
        ensures
            r is Ok ==> spec_bin_export(json_schema@, r->Ok_0@) == Ok::<Seq<u8>, SpecPortError>(data@),
    {
        // check that the json schema is coherent
        validate_json_schema_for_bin_porter(json_schema)?;
        // encode the binary contents as a cbor byte string
        let mut elements: Vec<CborValue> = Vec::new();
        elements.push(CborValue::ByteString(slice_to_vec(data)));
        let holium_cbor = CborValue::Array(elements);
        proof {
            lemma_view_cbor_seq(elements@);
            assert(view_cbor_seq(elements@) =~= seq![SpecCbor::ByteString(data@)]);
            assert(holium_cbor@ == spec_bin_holium(data@));
            lemma_cbor_plain_seq(seq![SpecCbor::ByteString(data@)]);
            assert(cbor_plain(holium_cbor@));
            lemma_plain_encodable(holium_cbor@);
        }
        match cbor_write(holium_cbor) {
            Some(buffer) => Ok(buffer),
            None => Err(Error::FailedToWriteHoliumCbor),
        }
    }

    /// Read back the binary contents held in Holium CBOR data.
    fn export_from_holium(json_schema: &HoliumJsonSchema, data: &[u8]) -> (r: Result<Vec<u8>, Error>) {
        // check that the json schema is coherent
        validate_json_schema_for_bin_porter(json_schema)?;
        // read the Holium CBOR contents
        let holium_cbor_value = match cbor_read(data) {
            Some(v) => v,
            None => return Err(Error::FailedToReadHoliumCborData),
        };
        // get the expected inner byte string
        let tuples_array = match holium_cbor_value {
            CborValue::Array(tuples_array) => tuples_array,
            _ => return Err(Error::IncompatibleSchemaAndValue),
        };
        proof { lemma_view_cbor_seq(tuples_array@); }
        if tuples_array.len() == 0 {
            return Err(Error::IncompatibleSchemaAndValue);
        }
        match &tuples_array[0] {
            CborValue::ByteString(bytes) => Ok(copy_bytes(bytes)),
            _ => Err(Error::IncompatibleSchemaAndValue),
        }
    }
}

/// A copy of the bytes of a slice.
fn slice_to_vec(s: &[u8]) -> (r: Vec<u8>)
    ensures r@ == s@,
{
    let mut r: Vec<u8> = Vec::new();
    let mut i: usize = 0;
    while i < s.len()
        invariant
            i <= s.len(),
            r@ =~= s@.take(i as int),
        decreases s.len() - i,
    {
        r.push(s[i]);
        i = i + 1;
    }
    proof { assert(s@.take(i as int) =~= s@); }
    r
}

/// The porter of CBOR data: a CBOR value of the schema is written as its Holium CBOR value.
pub struct CborPorter;

/// The Holium CBOR value that the CBOR porter imports from CBOR data.
pub open spec fn spec_cbor_porter_value(s: SpecSchema, data: Seq<u8>) -> Result<SpecCbor, SpecPortError> {
    match cbor_decoding(data) {
        None => Err(SpecPortError::FailedToReadCborData),
        Some(v) => spec_cbor_import(s, v),
    }
}

impl CborPorter {
    /// Import CBOR data of a given schema into Holium CBOR data.
    pub fn import_to_holium(json_schema: &HoliumJsonSchema, data: &[u8]) -> (r: Result<Vec<u8>, Error>)
        ensures
            match spec_cbor_porter_value(json_schema@, data@) {
                Ok(h) => r is Ok && cbor_encoding(h) == Some(r->Ok_0@) && cbor_decoding(r->Ok_0@) == Some(h),
                Err(e) => r is Err && r->Err_0@ == e,
            },
    {
        // read the CBOR contents
        let cbor_value = match cbor_read(data) {
            Some(v) => v,
            None => return Err(Error::FailedToReadCborData),
        };
        // convert the CBOR value to HoliumCBOR
        let holium_cbor = cbor_import_value_to_holium(json_schema, &cbor_value)?;
        proof {
            lemma_cbor_import_plain(json_schema@, cbor_value@);
            lemma_plain_encodable(holium_cbor@);
        }
        // write the HoliumCBOR
        match cbor_write(holium_cbor) {
            Some(buffer) => Ok(buffer),
            None => Err(Error::FailedToWriteHoliumCbor),
        }
    }
}

/// The porter of JSON data: a JSON value of the schema is written as its Holium CBOR value, and
/// Holium CBOR data is read back as a JSON value.
pub struct JsonPorter;

/// The Holium CBOR value that the JSON porter imports from JSON data.
pub open spec fn spec_json_porter_value(s: SpecSchema, data: Seq<u8>) -> Result<SpecCbor, SpecPortError> {
    match json_bytes_decoding(data) {
        None => Err(SpecPortError::FailedToReadJsonData),
        Some(v) => spec_json_import(s, v),
    }
}

/// The JSON value that the JSON porter exports from Holium CBOR data.
pub open spec fn spec_json_porter_export(s: SpecSchema, data: Seq<u8>) -> Result<SpecJson, SpecPortError> {
    match cbor_decoding(data) {
        None => Err(SpecPortError::FailedToReadHoliumCborData),
        Some(v) => spec_json_export(s, v),
    }
}

impl FormatPorter for JsonPorter {
    type Exported = JsonValue;

    open spec fn spec_import(s: SpecSchema, data: Seq<u8>) -> Result<Seq<u8>, SpecPortError> {
        match spec_json_porter_value(s, data) {
            Ok(h) => Ok(cbor_encoding(h)->Some_0),
            Err(e) => Err(e),
        }
    }

    open spec fn spec_export(s: SpecSchema, data: Seq<u8>, r: Result<JsonValue, Error>) -> bool {
        match spec_json_porter_export(s, data) {
            Ok(j) => r is Ok && r->Ok_0@ == j,
            Err(e) => r is Err && r->Err_0@ == e,
        }
    }

    /// Import JSON data of a given schema into Holium CBOR data.
    fn import_to_holium(json_schema: &HoliumJsonSchema, data: &[u8]) -> (r: Result<Vec<u8>, Error>) {
        // read the JSON contents
        let json_value = match json_from_slice(data) {
            Some(v) => v,
            None => return Err(Error::FailedToReadJsonData),
        };
        // convert the JSON value to HoliumCBOR
        let holium_cbor = json_import_value_to_holium(json_schema, &json_value)?;
        proof {
            lemma_json_import_plain(json_schema@, json_value@);
            lemma_plain_encodable(holium_cbor@);
        }
        // write the HoliumCBOR
        match cbor_write(holium_cbor) {
            Some(buffer) => Ok(buffer),
            None => Err(Error::FailedToWriteHoliumCbor),
        }
    }

    /// Export Holium CBOR data of a given schema as a JSON value.
    fn export_from_holium(json_schema: &HoliumJsonSchema, data: &[u8]) -> (r: Result<JsonValue, Error>) {
        // read the Holium CBOR contents
        let holium_cbor_value = match cbor_read(data) {
            Some(v) => v,
            None => return Err(Error::FailedToReadHoliumCborData),
        };
        // convert the HoliumCBOR data to JSON
        export_value_from_holium(json_schema, &holium_cbor_value)
    }
}

/*********************************************
 * Export then import: the JSON round trip
 *********************************************/

/// The Holium CBOR value fits its schema exactly, with nothing that the JSON round trip cannot
/// carry: no number (written as a float), byte strings that `base64::decode` reads back from their
/// base64 text (as [`base64_encode`](crate::codecs) states of every byte string), tuples and
/// objects of the length of their schema, and object properties with distinct names.
pub open spec fn json_round_trip_fits(s: SpecSchema, h: SpecCbor) -> bool
    decreases s, 0nat,
{
    match s.ty {
        SpecSchemaType::Null => h == SpecCbor::Simple(CborSimple::NullValue),
        SpecSchemaType::Boolean => h == SpecCbor::Simple(CborSimple::TrueValue) || h == SpecCbor::Simple(CborSimple::FalseValue),
        SpecSchemaType::TextString => h is TextString,
        SpecSchemaType::Number => false,
        SpecSchemaType::ByteString => match h {
            SpecCbor::ByteString(b) => base64_decoding(spec_base64_encode(b)) == Some(b),
            _ => false,
        },
        SpecSchemaType::ItemsArray(item) => match h {
            SpecCbor::Array(vs) => items_fit(*item, vs, vs.len()),
            _ => false,
        },
        SpecSchemaType::TupleArray(ss) => match h {
            SpecCbor::Array(vs) => vs.len() == ss.len() && tuple_fits(ss, vs, vs.len()),
            _ => false,
        },
        SpecSchemaType::Object(ss) => match h {
            SpecCbor::Array(vs) => vs.len() == ss.len() && tuple_fits(ss, vs, vs.len()) && names_distinct(ss),
            _ => false,
        },
    }
}

/// The first `n` elements of an array fit the schema of its items.
pub open spec fn items_fit(item: SpecSchema, vs: Seq<SpecCbor>, n: nat) -> bool
    decreases item, n,
{
    if n == 0 || n > vs.len() { true } else { items_fit(item, vs, (n - 1) as nat) && json_round_trip_fits(item, vs[n - 1]) }
}

/// The first `n` elements of a tuple fit the schemata at their positions.
pub open spec fn tuple_fits(ss: Seq<SpecSchema>, vs: Seq<SpecCbor>, n: nat) -> bool
    decreases ss, n,
{
    if n == 0 || n > vs.len() || n > ss.len() {
        true
    } else {
        tuple_fits(ss, vs, (n - 1) as nat) && json_round_trip_fits(ss[n - 1], vs[n - 1])
    }
}

/// The properties of an object schema all have names, each a different one.
pub open spec fn names_distinct(ss: Seq<SpecSchema>) -> bool {
    &&& forall|i: int| 0 <= i < ss.len() ==> (#[trigger] ss[i]).name is Some
    &&& forall|i: int, j: int| 0 <= i < j < ss.len() ==> (#[trigger] ss[i]).name != (#[trigger] ss[j]).name
}

proof fn lemma_member_position_unique(ms: Seq<(Seq<char>, SpecJson)>, key: Seq<char>, k: int)
    requires
        0 <= k < ms.len(),
        ms[k].0 == key,
        forall|i: int| 0 <= i < ms.len() && i != k ==> (#[trigger] ms[i]).0 != key,
    ensures spec_member_position(ms, key) == k,
    decreases ms.len(),
{
    if k < ms.len() - 1 {
        assert(ms.last().0 != key);
        assert forall|i: int| 0 <= i < ms.drop_last().len() && i != k implies (#[trigger] ms.drop_last()[i]).0 != key by {
            assert(ms.drop_last()[i] == ms[i]);
        }
        lemma_member_position_unique(ms.drop_last(), key, k);
    }
}

/// The elements of the export of the first `n` items, each the export of its item.
proof fn lemma_export_items_ok(item: SpecSchema, vs: Seq<SpecCbor>, n: nat)
    requires
        n <= vs.len(),
        items_fit(item, vs, n),
    ensures
        spec_json_export_items(item, vs, n) is Ok,
        spec_json_export_items(item, vs, n)->Ok_0.len() == n,
        forall|k: int| 0 <= k < n ==> #[trigger] spec_json_export_items(item, vs, n)->Ok_0[k] == spec_json_export(item, vs[k])->Ok_0,
        forall|js: Seq<SpecJson>| js.len() >= n && js.subrange(0, n as int) == spec_json_export_items(item, vs, n)->Ok_0
            ==> spec_json_import_items(item, js, n) == Ok::<Seq<SpecCbor>, SpecPortError>(vs.subrange(0, n as int)),
    decreases item, n,
{
    if n > 0 {
        lemma_export_items_ok(item, vs, (n - 1) as nat);
        law_json_export_import(item, vs[n - 1]);
        let prev = spec_json_export_items(item, vs, (n - 1) as nat)->Ok_0;
        let x = spec_json_export(item, vs[n - 1])->Ok_0;
        assert(spec_json_export_items(item, vs, n)->Ok_0 == prev.push(x));
        assert forall|js: Seq<SpecJson>| js.len() >= n && js.subrange(0, n as int) == prev.push(x)
            implies spec_json_import_items(item, js, n) == Ok::<Seq<SpecCbor>, SpecPortError>(vs.subrange(0, n as int)) by {
            assert(js.subrange(0, n - 1) =~= prev);
            assert(js[n - 1] == js.subrange(0, n as int)[n - 1]);
            assert(vs.subrange(0, n as int) =~= vs.subrange(0, n - 1).push(vs[n - 1]));
        }
    } else {
        assert(vs.subrange(0, 0) =~= Seq::<SpecCbor>::empty());
    }
}

/// The elements of the export of the first `n` tuple elements, each the export of its element.
proof fn lemma_export_tuple_ok(ss: Seq<SpecSchema>, vs: Seq<SpecCbor>, n: nat)
    requires
        n <= vs.len(),
        n <= ss.len(),
        tuple_fits(ss, vs, n),
    ensures
        spec_json_export_tuple(ss, vs, n) is Ok,
        spec_json_export_tuple(ss, vs, n)->Ok_0.len() == n,
        forall|k: int| 0 <= k < n ==> #[trigger] spec_json_export_tuple(ss, vs, n)->Ok_0[k] == spec_json_export(ss[k], vs[k])->Ok_0,
        forall|js: Seq<SpecJson>| js.len() >= n && js.subrange(0, n as int) == spec_json_export_tuple(ss, vs, n)->Ok_0
            ==> spec_json_import_tuple(ss, js, n) == Ok::<Seq<SpecCbor>, SpecPortError>(vs.subrange(0, n as int)),
    decreases ss, n,
{
    if n > 0 {
        lemma_export_tuple_ok(ss, vs, (n - 1) as nat);
        law_json_export_import(ss[n - 1], vs[n - 1]);
        let prev = spec_json_export_tuple(ss, vs, (n - 1) as nat)->Ok_0;
        let x = spec_json_export(ss[n - 1], vs[n - 1])->Ok_0;
        assert(spec_json_export_tuple(ss, vs, n)->Ok_0 == prev.push(x));
        assert forall|js: Seq<SpecJson>| js.len() >= n && js.subrange(0, n as int) == prev.push(x)
            implies spec_json_import_tuple(ss, js, n) == Ok::<Seq<SpecCbor>, SpecPortError>(vs.subrange(0, n as int)) by {
            assert(js.subrange(0, n - 1) =~= prev);
            assert(js[n - 1] == js.subrange(0, n as int)[n - 1]);
            assert(vs.subrange(0, n as int) =~= vs.subrange(0, n - 1).push(vs[n - 1]));
        }
    } else {
        assert(vs.subrange(0, 0) =~= Seq::<SpecCbor>::empty());
    }
}

/// The members of the export of the first `n` values of an object, each named after its property.
proof fn lemma_export_object_ok(ss: Seq<SpecSchema>, vs: Seq<SpecCbor>, n: nat)
    requires
        n <= vs.len(),
        n <= ss.len(),
        tuple_fits(ss, vs, n),
        names_distinct(ss),
    ensures
        spec_json_export_object(ss, vs, n) is Ok,
        spec_json_export_object(ss, vs, n)->Ok_0.len() == n,
        forall|k: int| 0 <= k < n ==> #[trigger] spec_json_export_object(ss, vs, n)->Ok_0[k]
            == (ss[k].name->Some_0, spec_json_export(ss[k], vs[k])->Ok_0),
        forall|k: int| 0 <= k < n ==> spec_json_export(ss[k], vs[k]) is Ok
            && #[trigger] spec_json_import(ss[k], spec_json_export(ss[k], vs[k])->Ok_0) == Ok::<SpecCbor, SpecPortError>(vs[k]),
    decreases ss, n,
{
    if n > 0 {
        lemma_export_object_ok(ss, vs, (n - 1) as nat);
        law_json_export_import(ss[n - 1], vs[n - 1]);
        assert forall|k: int| 0 <= k < n implies (#[trigger] spec_json_export(ss[k], vs[k])) is Ok by {
            if k < n - 1 {
                assert(spec_json_import(ss[k], spec_json_export(ss[k], vs[k])->Ok_0) == Ok::<SpecCbor, SpecPortError>(vs[k]));
            }
        }
        lemma_export_object_each(ss, vs, n);
    }
}

/// Importing the members of an exported object gives back its values.
proof fn lemma_import_exported_object(ss: Seq<SpecSchema>, vs: Seq<SpecCbor>, ms: Seq<(Seq<char>, SpecJson)>, n: nat)
    requires
        n <= ss.len(),
        ss.len() == vs.len(),
        ms.len() == ss.len(),
        names_distinct(ss),
        forall|k: int| 0 <= k < ms.len() ==> #[trigger] ms[k] == (ss[k].name->Some_0, spec_json_export(ss[k], vs[k])->Ok_0),
        forall|k: int| 0 <= k < ms.len() ==> spec_json_export(ss[k], vs[k]) is Ok
            && #[trigger] spec_json_import(ss[k], spec_json_export(ss[k], vs[k])->Ok_0) == Ok::<SpecCbor, SpecPortError>(vs[k]),
    ensures spec_json_import_object(ss, ms, n) == Ok::<Seq<SpecCbor>, SpecPortError>(vs.subrange(0, n as int)),
    decreases n,
{
    if n > 0 {
        lemma_import_exported_object(ss, vs, ms, (n - 1) as nat);
        let k = n - 1;
        let key = ss[k].name->Some_0;
        assert(ss[k].name is Some);
        assert forall|i: int| 0 <= i < ms.len() && i != k implies (#[trigger] ms[i]).0 != key by {
            assert(ss[i].name is Some);
            if i < k {
                assert(ss[i].name != ss[k].name);
            } else {
                assert(ss[k].name != ss[i].name);
            }
        }
        assert(ms[k].0 == key);
        lemma_member_position_unique(ms, key, k);
        assert(spec_json_get(ms, key) == Some(ms[k].1));
        assert(spec_json_import(ss[k], ms[k].1) == Ok::<SpecCbor, SpecPortError>(vs[k]));
        assert(vs.subrange(0, n as int) =~= vs.subrange(0, k).push(vs[k]));
    } else {
        assert(vs.subrange(0, 0) =~= Seq::<SpecCbor>::empty());
    }
}

/// Exporting Holium CBOR data to JSON, then importing the JSON back, gives the data again, for
/// data that fits its schema exactly and holds no number.
pub proof fn law_json_export_import(s: SpecSchema, h: SpecCbor)
    requires json_round_trip_fits(s, h),
    ensures
        spec_json_export(s, h) is Ok,
        spec_json_import(s, spec_json_export(s, h)->Ok_0) == Ok::<SpecCbor, SpecPortError>(h),
    decreases s, 0nat,
{
    match s.ty {
        SpecSchemaType::ItemsArray(item) => {
            let vs = h->Array_0;
            lemma_export_items_ok(*item, vs, vs.len());
            let js = spec_json_export_items(*item, vs, vs.len())->Ok_0;
            assert(js.subrange(0, vs.len() as int) =~= js);
            assert(vs.subrange(0, vs.len() as int) =~= vs);
        },
        SpecSchemaType::TupleArray(ss) => {
            let vs = h->Array_0;
            lemma_export_tuple_ok(ss, vs, vs.len());
            let js = spec_json_export_tuple(ss, vs, vs.len())->Ok_0;
            assert(js.subrange(0, vs.len() as int) =~= js);
            assert(vs.subrange(0, vs.len() as int) =~= vs);
        },
        SpecSchemaType::Object(ss) => {
            let vs = h->Array_0;
            lemma_export_object_ok(ss, vs, vs.len());
            let ms = spec_json_export_object(ss, vs, vs.len())->Ok_0;
            lemma_import_exported_object(ss, vs, ms, ss.len());
            assert(vs.subrange(0, vs.len() as int) =~= vs);
        },
        _ => {},
    }
}

/// The members of a JSON object have distinct names.
pub open spec fn keys_distinct(ms: Seq<(Seq<char>, SpecJson)>) -> bool {
    forall|i: int, j: int| 0 <= i < j < ms.len() ==> (#[trigger] ms[i]).0 != (#[trigger] ms[j]).0
}

/// A JSON value that its schema describes exactly, holding no number (written back as a float):
/// null, booleans and texts where the schema says so, canonical base64 texts for byte strings,
/// arrays of the right items or tuples of the right length, and objects whose members are the
/// properties of their schema, in any order, each fitting the schema of its property.
pub open spec fn json_value_fits(s: SpecSchema, v: SpecJson) -> bool
    decreases s, 0nat,
{
    match s.ty {
        SpecSchemaType::Null => v == SpecJson::Null,
        SpecSchemaType::Boolean => v is Bool,
        SpecSchemaType::TextString => v is String,
        SpecSchemaType::Number => false,
        SpecSchemaType::ByteString => match v {
            SpecJson::String(t) => match base64_decoding(t) {
                Some(b) => spec_base64_encode(b) == t,
                None => false,
            },
            _ => false,
        },
        SpecSchemaType::ItemsArray(item) => match v {
            SpecJson::Array(vs) => json_items_fit(*item, vs, vs.len()),
            _ => false,
        },
        SpecSchemaType::TupleArray(ss) => match v {
            SpecJson::Array(vs) => vs.len() == ss.len() && json_tuple_fits(ss, vs, vs.len()),
            _ => false,
        },
        SpecSchemaType::Object(ss) => match v {
            SpecJson::Object(ms) => ms.len() == ss.len() && names_distinct(ss) && keys_distinct(ms)
                && json_props_fit(ss, ms, ss.len()),
            _ => false,
        },
    }
}

/// The first `n` elements of a JSON array fit the schema of its items.
pub open spec fn json_items_fit(item: SpecSchema, vs: Seq<SpecJson>, n: nat) -> bool
    decreases item, n,
{
    if n == 0 || n > vs.len() { true } else { json_items_fit(item, vs, (n - 1) as nat) && json_value_fits(item, vs[n - 1]) }
}

/// The first `n` elements of a JSON tuple fit the schemata at their positions.
pub open spec fn json_tuple_fits(ss: Seq<SpecSchema>, vs: Seq<SpecJson>, n: nat) -> bool
    decreases ss, n,
{
    if n == 0 || n > vs.len() || n > ss.len() {
        true
    } else {
        json_tuple_fits(ss, vs, (n - 1) as nat) && json_value_fits(ss[n - 1], vs[n - 1])
    }
}

/// Each of the first `n` properties of an object schema is named, and the JSON object has a member
/// of that name that fits the schema of the property.
pub open spec fn json_props_fit(ss: Seq<SpecSchema>, ms: Seq<(Seq<char>, SpecJson)>, n: nat) -> bool
    decreases ss, n,
{
    if n == 0 || n > ss.len() {
        true
    } else {
        json_props_fit(ss, ms, (n - 1) as nat) && match ss[n - 1].name {
            Some(key) => match spec_json_get(ms, key) {
                Some(x) => json_value_fits(ss[n - 1], x),
                None => false,
            },
            None => false,
        }
    }
}

/// Two JSON values are the same value of schema `s`: equal where the schema is not an array nor an
/// object; arrays of the same length whose elements are the same; objects with as many members as
/// the schema has properties, each object with distinct member names, and the same value under
/// the name of each property. The order of object members does not matter, as in a JSON map.
pub open spec fn json_same(s: SpecSchema, w: SpecJson, v: SpecJson) -> bool
    decreases s, 0nat,
{
    match s.ty {
        SpecSchemaType::ItemsArray(item) => match (w, v) {
            (SpecJson::Array(ws), SpecJson::Array(vs)) => ws.len() == vs.len() && json_items_same(*item, ws, vs, vs.len()),
            _ => false,
        },
        SpecSchemaType::TupleArray(ss) => match (w, v) {
            (SpecJson::Array(ws), SpecJson::Array(vs)) => ws.len() == vs.len() && json_tuple_same(ss, ws, vs, vs.len()),
            _ => false,
        },
        SpecSchemaType::Object(ss) => match (w, v) {
            (SpecJson::Object(wm), SpecJson::Object(vm)) => wm.len() == ss.len() && vm.len() == ss.len()
                && keys_distinct(wm) && keys_distinct(vm) && json_props_same(ss, wm, vm, ss.len()),
            _ => false,
        },
        _ => w == v,
    }
}

/// The first `n` elements of two JSON arrays are the same values of the schema of their items.
pub open spec fn json_items_same(item: SpecSchema, ws: Seq<SpecJson>, vs: Seq<SpecJson>, n: nat) -> bool
    decreases item, n,
{
    if n == 0 || n > ws.len() || n > vs.len() {
        true
    } else {
        json_items_same(item, ws, vs, (n - 1) as nat) && json_same(item, ws[n - 1], vs[n - 1])
    }
}

/// The first `n` elements of two JSON tuples are the same values of the schemata at their positions.
pub open spec fn json_tuple_same(ss: Seq<SpecSchema>, ws: Seq<SpecJson>, vs: Seq<SpecJson>, n: nat) -> bool
    decreases ss, n,
{
    if n == 0 || n > ss.len() || n > ws.len() || n > vs.len() {
        true
    } else {
        json_tuple_same(ss, ws, vs, (n - 1) as nat) && json_same(ss[n - 1], ws[n - 1], vs[n - 1])
    }
}

/// Each of the first `n` properties of an object schema is named, and both JSON objects have a
/// member of that name, the two the same value of the schema of the property.
pub open spec fn json_props_same(ss: Seq<SpecSchema>, wm: Seq<(Seq<char>, SpecJson)>, vm: Seq<(Seq<char>, SpecJson)>, n: nat) -> bool
    decreases ss, n,
{
    if n == 0 || n > ss.len() {
        true
    } else {
        json_props_same(ss, wm, vm, (n - 1) as nat) && match ss[n - 1].name {
            Some(key) => match (spec_json_get(wm, key), spec_json_get(vm, key)) {
                (Some(a), Some(b)) => json_same(ss[n - 1], a, b),
                _ => false,
            },
            None => false,
        }
    }
}

proof fn lemma_items_fit_at(item: SpecSchema, vs: Seq<SpecJson>, n: nat, k: int)
    requires json_items_fit(item, vs, n), 0 <= k < n, n <= vs.len(),
    ensures json_value_fits(item, vs[k]),
    decreases n,
{
    if k < n - 1 {
        lemma_items_fit_at(item, vs, (n - 1) as nat, k);
    }
}

proof fn lemma_tuple_fits_at(ss: Seq<SpecSchema>, vs: Seq<SpecJson>, n: nat, k: int)
    requires json_tuple_fits(ss, vs, n), 0 <= k < n, n <= vs.len(), n <= ss.len(),
    ensures json_value_fits(ss[k], vs[k]),
    decreases n,
{
    if k < n - 1 {
        lemma_tuple_fits_at(ss, vs, (n - 1) as nat, k);
    }
}

proof fn lemma_props_fit_at(ss: Seq<SpecSchema>, ms: Seq<(Seq<char>, SpecJson)>, n: nat, k: int)
    requires json_props_fit(ss, ms, n), 0 <= k < n, n <= ss.len(),
    ensures
        ss[k].name is Some,
        spec_json_get(ms, ss[k].name->Some_0) is Some,
        json_value_fits(ss[k], spec_json_get(ms, ss[k].name->Some_0)->Some_0),
    decreases n,
{
    if k < n - 1 {
        lemma_props_fit_at(ss, ms, (n - 1) as nat, k);
    }
}

/// Importing the first `n` items one by one, where each import succeeds.
proof fn lemma_import_items_each(item: SpecSchema, vs: Seq<SpecJson>, n: nat)
    requires
        n <= vs.len(),
        forall|k: int| 0 <= k < n ==> (#[trigger] spec_json_import(item, vs[k])) is Ok,
    ensures
        spec_json_import_items(item, vs, n) is Ok,
        spec_json_import_items(item, vs, n)->Ok_0.len() == n,
        forall|k: int| 0 <= k < n ==> #[trigger] spec_json_import_items(item, vs, n)->Ok_0[k] == spec_json_import(item, vs[k])->Ok_0,
    decreases n,
{
    if n > 0 {
        lemma_import_items_each(item, vs, (n - 1) as nat);
        assert(spec_json_import(item, vs[n - 1]) is Ok);
    }
}

/// Exporting the first `n` items one by one, where each export succeeds.
proof fn lemma_export_items_each(item: SpecSchema, hs: Seq<SpecCbor>, n: nat)
    requires
        n <= hs.len(),
        forall|k: int| 0 <= k < n ==> (#[trigger] spec_json_export(item, hs[k])) is Ok,
    ensures
        spec_json_export_items(item, hs, n) is Ok,
        spec_json_export_items(item, hs, n)->Ok_0.len() == n,
        forall|k: int| 0 <= k < n ==> #[trigger] spec_json_export_items(item, hs, n)->Ok_0[k] == spec_json_export(item, hs[k])->Ok_0,
    decreases n,
{
    if n > 0 {
        lemma_export_items_each(item, hs, (n - 1) as nat);
        assert(spec_json_export(item, hs[n - 1]) is Ok);
    }
}

/// Importing the first `n` tuple elements one by one, where each import succeeds.
proof fn lemma_import_tuple_each(ss: Seq<SpecSchema>, vs: Seq<SpecJson>, n: nat)
    requires
        n <= vs.len(),
        n <= ss.len(),
        forall|k: int| 0 <= k < n ==> (#[trigger] spec_json_import(ss[k], vs[k])) is Ok,
    ensures
        spec_json_import_tuple(ss, vs, n) is Ok,
        spec_json_import_tuple(ss, vs, n)->Ok_0.len() == n,
        forall|k: int| 0 <= k < n ==> #[trigger] spec_json_import_tuple(ss, vs, n)->Ok_0[k] == spec_json_import(ss[k], vs[k])->Ok_0,
    decreases n,
{
    if n > 0 {
        lemma_import_tuple_each(ss, vs, (n - 1) as nat);
        assert(spec_json_import(ss[n - 1], vs[n - 1]) is Ok);
    }
}

/// Exporting the first `n` tuple elements one by one, where each export succeeds.
proof fn lemma_export_tuple_each(ss: Seq<SpecSchema>, hs: Seq<SpecCbor>, n: nat)
    requires
        n <= hs.len(),
        n <= ss.len(),
        forall|k: int| 0 <= k < n ==> (#[trigger] spec_json_export(ss[k], hs[k])) is Ok,
    ensures
        spec_json_export_tuple(ss, hs, n) is Ok,
        spec_json_export_tuple(ss, hs, n)->Ok_0.len() == n,
        forall|k: int| 0 <= k < n ==> #[trigger] spec_json_export_tuple(ss, hs, n)->Ok_0[k] == spec_json_export(ss[k], hs[k])->Ok_0,
    decreases n,
{
    if n > 0 {
        lemma_export_tuple_each(ss, hs, (n - 1) as nat);
        assert(spec_json_export(ss[n - 1], hs[n - 1]) is Ok);
    }
}

/// Importing the first `n` properties of an object one by one, where each is found and imported.
proof fn lemma_import_object_each(ss: Seq<SpecSchema>, ms: Seq<(Seq<char>, SpecJson)>, n: nat)
    requires
        n <= ss.len(),
        forall|k: int| 0 <= k < n ==> (#[trigger] ss[k]).name is Some
            && spec_json_get(ms, ss[k].name->Some_0) is Some
            && spec_json_import(ss[k], spec_json_get(ms, ss[k].name->Some_0)->Some_0) is Ok,
    ensures
        spec_json_import_object(ss, ms, n) is Ok,
        spec_json_import_object(ss, ms, n)->Ok_0.len() == n,
        forall|k: int| 0 <= k < n ==> #[trigger] spec_json_import_object(ss, ms, n)->Ok_0[k]
            == spec_json_import(ss[k], spec_json_get(ms, ss[k].name->Some_0)->Some_0)->Ok_0,
    decreases n,
{
    if n > 0 {
        lemma_import_object_each(ss, ms, (n - 1) as nat);
        assert(ss[n - 1].name is Some);
    }
}

/// Exporting the first `n` values of an object one by one, where each export succeeds and the
/// properties have distinct names: each value becomes a member of its own, in the order of the
/// schema.
proof fn lemma_export_object_each(ss: Seq<SpecSchema>, hs: Seq<SpecCbor>, n: nat)
    requires
        n <= hs.len(),
        n <= ss.len(),
        names_distinct(ss),
        forall|k: int| 0 <= k < n ==> (#[trigger] spec_json_export(ss[k], hs[k])) is Ok,
    ensures
        spec_json_export_object(ss, hs, n) is Ok,
        spec_json_export_object(ss, hs, n)->Ok_0.len() == n,
        forall|k: int| 0 <= k < n ==> #[trigger] spec_json_export_object(ss, hs, n)->Ok_0[k]
            == (ss[k].name->Some_0, spec_json_export(ss[k], hs[k])->Ok_0),
    decreases n,
{
    if n > 0 {
        lemma_export_object_each(ss, hs, (n - 1) as nat);
        let prefix = spec_json_export_object(ss, hs, (n - 1) as nat)->Ok_0;
        assert(ss[n - 1].name is Some);
        let key = ss[n - 1].name->Some_0;
        assert(spec_json_export(ss[n - 1], hs[n - 1]) is Ok);
        lemma_member_position(prefix, key);
        let p = spec_member_position(prefix, key);
        if p >= 0 {
            assert(prefix[p].0 == ss[p].name->Some_0);
            assert(ss[p].name is Some);
            assert(ss[p].name != ss[n - 1].name);
        }
        assert(p == -1);
    }
}

proof fn lemma_items_same(item: SpecSchema, ws: Seq<SpecJson>, vs: Seq<SpecJson>, n: nat)
    requires
        n <= ws.len(),
        n <= vs.len(),
        forall|k: int| 0 <= k < n ==> #[trigger] json_same(item, ws[k], vs[k]),
    ensures json_items_same(item, ws, vs, n),
    decreases n,
{
    if n > 0 {
        lemma_items_same(item, ws, vs, (n - 1) as nat);
        assert(json_same(item, ws[n - 1], vs[n - 1]));
    }
}

proof fn lemma_tuple_same(ss: Seq<SpecSchema>, ws: Seq<SpecJson>, vs: Seq<SpecJson>, n: nat)
    requires
        n <= ss.len(),
        n <= ws.len(),
        n <= vs.len(),
        forall|k: int| 0 <= k < n ==> #[trigger] json_same(ss[k], ws[k], vs[k]),
    ensures json_tuple_same(ss, ws, vs, n),
    decreases n,
{
    if n > 0 {
        lemma_tuple_same(ss, ws, vs, (n - 1) as nat);
        assert(json_same(ss[n - 1], ws[n - 1], vs[n - 1]));
    }
}

proof fn lemma_props_same(ss: Seq<SpecSchema>, wm: Seq<(Seq<char>, SpecJson)>, vm: Seq<(Seq<char>, SpecJson)>, n: nat)
    requires
        n <= ss.len(),
        forall|k: int| 0 <= k < n ==> (#[trigger] ss[k]).name is Some
            && spec_json_get(wm, ss[k].name->Some_0) is Some
            && spec_json_get(vm, ss[k].name->Some_0) is Some
            && json_same(ss[k], spec_json_get(wm, ss[k].name->Some_0)->Some_0, spec_json_get(vm, ss[k].name->Some_0)->Some_0),
    ensures json_props_same(ss, wm, vm, n),
    decreases n,
{
    if n > 0 {
        lemma_props_same(ss, wm, vm, (n - 1) as nat);
        assert(ss[n - 1].name is Some);
    }
}

/// Importing a JSON value into Holium CBOR, then exporting it back to JSON, gives the same value
/// again, for a value that its schema describes exactly and that holds no number; object members
/// may come in any order, and the properties of an object schema have distinct names.
pub proof fn law_json_import_export(s: SpecSchema, v: SpecJson)
    requires json_value_fits(s, v),
    ensures
        spec_json_import(s, v) is Ok,
        spec_json_export(s, spec_json_import(s, v)->Ok_0) is Ok,
        json_same(s, spec_json_export(s, spec_json_import(s, v)->Ok_0)->Ok_0, v),
    decreases s, 0nat,
{
    match s.ty {
        SpecSchemaType::Boolean => {
            let b = v->Bool_0;
            if b {} else {}
        },
        SpecSchemaType::ItemsArray(item) => {
            let vs = v->Array_0;
            let n = vs.len();
            assert forall|k: int| 0 <= k < n implies (#[trigger] spec_json_import(*item, vs[k])) is Ok
                && spec_json_export(*item, spec_json_import(*item, vs[k])->Ok_0) is Ok
                && json_same(*item, spec_json_export(*item, spec_json_import(*item, vs[k])->Ok_0)->Ok_0, vs[k]) by {
                lemma_items_fit_at(*item, vs, n, k);
                law_json_import_export(*item, vs[k]);
            }
            lemma_import_items_each(*item, vs, n);
            let hs = spec_json_import_items(*item, vs, n)->Ok_0;
            lemma_export_items_each(*item, hs, n);
            let ws = spec_json_export_items(*item, hs, n)->Ok_0;
            assert forall|k: int| 0 <= k < n implies #[trigger] json_same(*item, ws[k], vs[k]) by {
                assert(hs[k] == spec_json_import(*item, vs[k])->Ok_0);
            }
            lemma_items_same(*item, ws, vs, n);
        },
        SpecSchemaType::TupleArray(ss) => {
            let vs = v->Array_0;
            let n = vs.len();
            assert forall|k: int| 0 <= k < n implies (#[trigger] spec_json_import(ss[k], vs[k])) is Ok
                && spec_json_export(ss[k], spec_json_import(ss[k], vs[k])->Ok_0) is Ok
                && json_same(ss[k], spec_json_export(ss[k], spec_json_import(ss[k], vs[k])->Ok_0)->Ok_0, vs[k]) by {
                lemma_tuple_fits_at(ss, vs, n, k);
                law_json_import_export(ss[k], vs[k]);
            }
            lemma_import_tuple_each(ss, vs, n);
            let hs = spec_json_import_tuple(ss, vs, n)->Ok_0;
            lemma_export_tuple_each(ss, hs, n);
            let ws = spec_json_export_tuple(ss, hs, n)->Ok_0;
            assert forall|k: int| 0 <= k < n implies #[trigger] json_same(ss[k], ws[k], vs[k]) by {
                assert(hs[k] == spec_json_import(ss[k], vs[k])->Ok_0);
            }
            lemma_tuple_same(ss, ws, vs, n);
        },
        SpecSchemaType::Object(ss) => {
            let ms = v->Object_0;
            let n = ss.len();
            assert forall|k: int| 0 <= k < n implies (#[trigger] ss[k]).name is Some
                && spec_json_get(ms, ss[k].name->Some_0) is Some
                && spec_json_import(ss[k], spec_json_get(ms, ss[k].name->Some_0)->Some_0) is Ok
                && spec_json_export(ss[k], spec_json_import(ss[k], spec_json_get(ms, ss[k].name->Some_0)->Some_0)->Ok_0) is Ok
                && json_same(ss[k], spec_json_export(ss[k], spec_json_import(ss[k], spec_json_get(ms, ss[k].name->Some_0)->Some_0)->Ok_0)->Ok_0,
                    spec_json_get(ms, ss[k].name->Some_0)->Some_0) by {
                lemma_props_fit_at(ss, ms, n, k);
                law_json_import_export(ss[k], spec_json_get(ms, ss[k].name->Some_0)->Some_0);
            }
            lemma_import_object_each(ss, ms, n);
            let hs = spec_json_import_object(ss, ms, n)->Ok_0;
            assert forall|k: int| 0 <= k < n implies (#[trigger] spec_json_export(ss[k], hs[k])) is Ok by {
                assert(hs[k] == spec_json_import(ss[k], spec_json_get(ms, ss[k].name->Some_0)->Some_0)->Ok_0);
            }
            lemma_export_object_each(ss, hs, n);
            let wm = spec_json_export_object(ss, hs, n)->Ok_0;
            assert forall|i: int, j: int| 0 <= i < j < wm.len() implies (#[trigger] wm[i]).0 != (#[trigger] wm[j]).0 by {
                assert(ss[i].name is Some);
                assert(ss[j].name is Some);
                assert(ss[i].name != ss[j].name);
            }
            assert forall|k: int| 0 <= k < n implies (#[trigger] ss[k]).name is Some
                && spec_json_get(wm, ss[k].name->Some_0) is Some
                && spec_json_get(ms, ss[k].name->Some_0) is Some
                && json_same(ss[k], spec_json_get(wm, ss[k].name->Some_0)->Some_0, spec_json_get(ms, ss[k].name->Some_0)->Some_0) by {
                let key = ss[k].name->Some_0;
                assert(wm[k].0 == key);
                assert forall|i: int| 0 <= i < wm.len() && i != k implies (#[trigger] wm[i]).0 != key by {
                    assert(ss[i].name is Some);
                    if i < k {
                        assert(ss[i].name != ss[k].name);
                    } else {
                        assert(ss[k].name != ss[i].name);
                    }
                }
                lemma_member_position_unique(wm, key, k);
                assert(hs[k] == spec_json_import(ss[k], spec_json_get(ms, key)->Some_0)->Ok_0);
            }
            lemma_props_same(ss, wm, ms, n);
        },
        _ => {},
    }
}

/// Errors of the portation of data between a repository file and Holium CBOR.
#[derive(Debug)]
pub enum PortationError {
    CsvImportNotSupported,
    Port(Error),
}

impl PortationError {
    /// Human readable description of the error.
    pub fn message(&self) -> (r: String)
        ensures
            match self {
                PortationError::CsvImportNotSupported => r@ == "import from CSV format is not supported yet"@,
                PortationError::Port(e) => r@ == spec_port_error_message(e@),
            },
    {
        match self {
            PortationError::CsvImportNotSupported => String::from_str("import from CSV format is not supported yet"),
            PortationError::Port(e) => e.message(),
        }
    }
}

/// Import the contents of a portation file, of a given format and schema, into Holium CBOR data,
/// with the porter of its format. CSV files are not imported.
pub fn import_portation_data(file_format: &PortationFileFormat, json_schema: &HoliumJsonSchema, data: &[u8])
    -> (r: Result<Vec<u8>, PortationError>)
    ensures
        match file_format {
            PortationFileFormat::Bin => match BinPorter::spec_import(json_schema@, data@) {
                Ok(b) => r is Ok && r->Ok_0@ == b,
                Err(e) => r is Err && (r->Err_0 matches PortationError::Port(x) && x@ == e),
            },
            PortationFileFormat::Cbor => match spec_cbor_porter_value(json_schema@, data@) {
                Ok(h) => r is Ok && cbor_encoding(h) == Some(r->Ok_0@) && cbor_decoding(r->Ok_0@) == Some(h),
                Err(e) => r is Err && (r->Err_0 matches PortationError::Port(x) && x@ == e),
            },
            PortationFileFormat::Csv => r is Err && r->Err_0 is CsvImportNotSupported,
            PortationFileFormat::Json => match JsonPorter::spec_import(json_schema@, data@) {
                Ok(b) => r is Ok && r->Ok_0@ == b,
                Err(e) => r is Err && (r->Err_0 matches PortationError::Port(x) && x@ == e),
            },
        },
{
    let imported = match file_format {
        PortationFileFormat::Bin => BinPorter::import_to_holium(json_schema, data),
        PortationFileFormat::Cbor => CborPorter::import_to_holium(json_schema, data),
        PortationFileFormat::Csv => return Err(PortationError::CsvImportNotSupported),
        PortationFileFormat::Json => JsonPorter::import_to_holium(json_schema, data),
    };
    match imported {
        Ok(b) => Ok(b),
        Err(e) => Err(PortationError::Port(e)),
    }
}

} // verus!
