use holium_utils::selector::{Selector, SelectorEnvelope, Matcher, ExploreIndex, ExploreUnion, KindError};
use holium_utils::holium_cbor::{copy_cbor, select_cbor, HoliumCbor, WriteHoliumCbor, AsHoliumCbor};
use holium_utils::values::{CborValue, JsonValue, JsonNumber};
use holium_utils::cbor_read::read_header;
use holium_utils::cbor_errors::{CborError, ParseError};

#[test]
fn testing() {
    // the CBOR of the JSON value [0, 1, 2]
    let cbor: HoliumCbor = vec![0x83, 0x00, 0x01, 0x02];

    let matcher_selector = "{\".\": {}}";
    let index_selector = "{\"i\": {\"i\": 1, \">\": { \".\": {}}}}";
    let range_selector = "{\"r\": {\"^\": 1,\"$\": 3,\">\": {\".\": {}}}}";

    let tail_selector = SelectorEnvelope::new(index_selector).unwrap();
    let head_selector = SelectorEnvelope::new(matcher_selector).unwrap();
    assert!(SelectorEnvelope::new(range_selector).is_ok());

    let new_data: HoliumCbor = Vec::new();

    let copied = new_data.copy_cbor(cbor, &tail_selector, &head_selector).unwrap();
    assert!(!copied.is_empty());
}

#[test]
fn selector_literals_parse() {
    match SelectorEnvelope::new("{\"i\": {\"i\": 2, \">\": {\".\": {\"label\": \"x\"}}}}").unwrap().0 {
        Selector::ExploreIndex(ei) => {
            assert_eq!(ei.index, 2);
            match *ei.next {
                Selector::Matcher(m) => assert_eq!(m.label, Some("x".to_string())),
                _ => panic!("expected a matcher"),
            }
        }
        _ => panic!("expected an index selector"),
    }
    match SelectorEnvelope::new("{\"|\": [{\".\": {}}, {\"r\": {\"^\": 0, \"$\": 2, \">\": {\".\": {}}}}]}").unwrap().0 {
        Selector::ExploreUnion(u) => assert_eq!(u.0.len(), 2),
        _ => panic!("expected a union"),
    }
    assert!(matches!(SelectorEnvelope::new("not json"), Err(KindError::FailedToParseJsonLiteral)));
    assert!(matches!(SelectorEnvelope::new("{\"i\": {\"i\": -1, \">\": {\".\": {}}}}"), Err(KindError::FailedToParseJsonLiteral)));
    assert!(matches!(SelectorEnvelope::new("[]"), Err(KindError::FailedToParseJsonLiteral)));
}

#[test]
fn selectors_to_json_write_indices_as_floats() {
    let s = Selector::ExploreIndex(Box::new(ExploreIndex { index: 3, next: Box::new(Selector::Matcher(Matcher { label: None })) }));
    match s.to_json() {
        JsonValue::Object(members) => {
            assert_eq!(members.len(), 1);
            assert_eq!(members[0].0, "i");
            match &members[0].1 {
                JsonValue::Object(inner) => {
                    assert_eq!(inner[0].0, "i");
                    assert!(matches!(inner[0].1, JsonValue::Number(JsonNumber::FloatOfUnsigned(3))));
                    assert_eq!(inner[1].0, ">");
                }
                _ => panic!("expected an object"),
            }
        }
        _ => panic!("expected an object"),
    }
}

#[test]
fn selectors_from_cbor_read_sorted_maps() {
    // {"i": {">": {".": {}}, "i": 4}} as the sk-cbor reader gives it back, keys sorted
    let v = CborValue::Mapping(vec![(
        CborValue::TextString("i".to_string()),
        CborValue::Mapping(vec![
            (CborValue::TextString(">".to_string()), CborValue::Mapping(vec![(CborValue::TextString(".".to_string()), CborValue::Mapping(vec![]))])),
            (CborValue::TextString("i".to_string()), CborValue::Unsigned(4)),
        ]),
    )]);
    match Selector::try_from_cbor(&v).unwrap() {
        Selector::ExploreIndex(ei) => assert_eq!(ei.index, 4),
        _ => panic!("expected an index selector"),
    }
    let m = Selector::Matcher(Matcher { label: Some("l".to_string()) });
    match Selector::try_from_cbor(&m.to_cbor()).unwrap() {
        Selector::Matcher(m) => assert_eq!(m.label, Some("l".to_string())),
        _ => panic!("expected a matcher"),
    }
    let u = Selector::ExploreUnion(Box::new(ExploreUnion(vec![Selector::Matcher(Matcher { label: None })])));
    assert!(matches!(Selector::try_from_cbor(&u.to_cbor()).unwrap(), Selector::ExploreUnion(_)));
    assert!(matches!(Selector::try_from_cbor(&CborValue::Unsigned(0)), Err(KindError::FailedToManipulate)));
    let env = SelectorEnvelope(Selector::Matcher(Matcher { label: None }));
    assert!(SelectorEnvelope::try_from_cbor(&env.to_cbor()).is_ok());
}

#[test]
fn selected_cbor_is_the_element() {
    let cbor: HoliumCbor = vec![0x83, 0x00, 0x18, 0x2a, 0x02];
    let sel = SelectorEnvelope::new("{\"i\": {\"i\": 1, \">\": {\".\": {}}}}").unwrap();
    let sets = select_cbor(&cbor, &sel).unwrap();
    assert_eq!(sets, vec![vec![vec![0x18, 0x2a]]]);
    let sets = cbor.select_cbor(&sel).unwrap();
    assert_eq!(sets, vec![vec![vec![0x18, 0x2a]]]);
    let all = SelectorEnvelope::new("{\".\": {}}").unwrap();
    let copied = copy_cbor(&cbor, &sel, &all).unwrap();
    assert_eq!(copied, vec![0x18, 0x2a]);
}

#[test]
fn kind_error_messages() {
    assert_eq!(KindError::FailedToParseJsonLiteral.message(), "failed to parse json selector literal");
    assert_eq!(KindError::FailedToManipulate.message(), "failed to manipulate selector kind");
}

#[test]
fn union_copies_place_each_data_set_with_the_head_selector() {
    let source: HoliumCbor = vec![0x83, 0x00, 0x01, 0x02];
    let tail = SelectorEnvelope::new(r#"{"|": [{"i": {"i": 0, ">": {".": {}}}}, {"i": {"i": 2, ">": {".": {}}}}]}"#).unwrap();
    let head = SelectorEnvelope::new(r#"{"|": [{"i": {"i": 1, ">": {".": {}}}}, {"i": {"i": 0, ">": {".": {}}}}]}"#).unwrap();
    let new_data: HoliumCbor = Vec::new();
    assert_eq!(new_data.copy_cbor(source, &tail, &head).unwrap(), vec![0x82, 0x02, 0x00]);
}

#[test]
fn bytes_past_the_end_of_the_data_cannot_be_read() {
    assert!(matches!(read_header(&[], 0), Err(ParseError::NonReadableByte(0))));
    assert!(matches!(read_header(&[0x83, 0x00], 2), Err(ParseError::NonReadableByte(2))));
    // a byte string whose two length bytes are cut after the first one
    assert!(matches!(read_header(&[0x59, 0x01], 0), Err(ParseError::NonReadableByte(1))));
    // an array whose text string announces three bytes but holds one
    let cbor: HoliumCbor = vec![0x81, 0x63, 0x61];
    let all = SelectorEnvelope::new(r#"{".": {}}"#).unwrap();
    assert!(matches!(select_cbor(&cbor, &all), Err(CborError::Parse(ParseError::NonReadableByte(0)))));
    assert_eq!(ParseError::NonReadableByte(4).message(), "could not read byte at offset: 4");
}

#[test]
fn range_selection_takes_the_elements_of_the_range_or_finds_no_node() {
    let cbor: HoliumCbor = vec![0x83, 0x00, 0x18, 0x2a, 0x02];
    let sel = SelectorEnvelope::new(r#"{"r": {"^": 1, "$": 3, ">": {".": {}}}}"#).unwrap();
    assert_eq!(select_cbor(&cbor, &sel).unwrap(), vec![vec![vec![0x18, 0x2a], vec![0x02]]]);
    let past = SelectorEnvelope::new(r#"{"r": {"^": 1, "$": 4, ">": {".": {}}}}"#).unwrap();
    assert!(matches!(select_cbor(&cbor, &past), Err(CborError::Selector(holium_utils::cbor_errors::SelectorError::NoNodeFound))));
    // a range under the scalar element of a one-element array
    let nested: HoliumCbor = vec![0x81, 0x05];
    let inner = SelectorEnvelope::new(r#"{"i": {"i": 0, ">": {"r": {"^": 0, "$": 1, ">": {".": {}}}}}}"#).unwrap();
    assert!(matches!(select_cbor(&nested, &inner), Err(CborError::Parse(ParseError::MajorTypeNonRecursive))));
}

#[test]
fn next_offset_of_a_parsed_item_is_its_length() {
    // [ "a", {1: 256}, h'ff' ]
    let cbor: Vec<u8> = vec![0x83, 0x61, 0x61, 0xa1, 0x01, 0x19, 0x01, 0x00, 0x41, 0xff];
    let m = holium_utils::cbor_read::parse_item(&cbor, 0).unwrap();
    assert_eq!(m.next_offset(), cbor.len() as u64);
    assert_eq!(m.details(), (0, cbor.len()));
    // the same item after two bytes of something else
    let mut shifted: Vec<u8> = vec![0x00, 0x00];
    shifted.extend_from_slice(&cbor);
    let m = holium_utils::cbor_read::parse_item(&shifted, 2).unwrap();
    assert_eq!(m.next_offset(), shifted.len() as u64);
}
