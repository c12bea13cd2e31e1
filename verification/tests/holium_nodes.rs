use holium_utils::cbor_write::{HoliumCborNode, NodeData};
use holium_utils::cbor_errors::{CborError, WriteError};
use holium_utils::selector::SelectorEnvelope;

fn is_empty_root(node: &HoliumCborNode) -> bool {
    match node {
        HoliumCborNode::NonLeaf(n) => n.index.is_none() && matches!(&n.data, NodeData::Children(c) if c.is_empty()),
        HoliumCborNode::Leaf(_) => false,
    }
}

#[test]
fn failed_range_ingest_leaves_the_node_unchanged() {
    let mut node = HoliumCborNode::new();
    let selector = SelectorEnvelope::new(r#"{"r": {"^": 1,"$": 3,">": {".": {}}}}"#).unwrap().0;
    let data_set = vec![vec![0x0au8]];
    let r = node.ingest(&selector, &data_set);
    assert_eq!(r, Err(CborError::Write(WriteError::DatasetLengthInequalRangeLength)));
    assert!(is_empty_root(&node));
}

#[test]
fn range_ingest_places_one_leaf_per_datum() {
    let mut node = HoliumCborNode::new();
    let selector = SelectorEnvelope::new(r#"{"r": {"^": 0,"$": 2,">": {".": {}}}}"#).unwrap().0;
    let data_set = vec![vec![0x01u8], vec![0x02u8]];
    node.ingest(&selector, &data_set).unwrap();
    assert_eq!(node.generate_cbor().unwrap(), vec![0x82, 0x01, 0x02]);
}

#[test]
fn index_ingest_on_a_taken_index_fails_and_keeps_the_node() {
    let mut node = HoliumCborNode::new();
    let selector = SelectorEnvelope::new(r#"{"i": {"i": 0,">": {".": {}}}}"#).unwrap().0;
    node.ingest(&selector, &vec![vec![0x05u8]]).unwrap();
    let r = node.ingest(&selector, &vec![vec![0x06u8]]);
    assert_eq!(r, Err(CborError::Write(WriteError::IndexAlreadyTaken)));
    assert_eq!(node.generate_cbor().unwrap(), vec![0x81, 0x05]);
}
