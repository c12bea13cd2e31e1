//! Holium utilities: the Holium CBOR structural reader and writer, selectors, data porters,
//! interplanetary kinds and CIDs, pipeline graphs, and the helpers of the local and repository
//! areas.

pub mod cbor_errors;
pub mod selector;
pub mod major_type;
pub mod cbor_read;
pub mod cbor_write;
pub mod holium_cbor;
pub mod values;
pub mod json_schema;
pub mod codecs;
pub mod porters;
pub mod local_helpers;
pub mod context_helpers;
pub mod bytecode;
pub mod prints;
pub mod dag;
pub mod multiformats;
pub mod kinds;
pub mod import;
pub mod trees;
pub mod transformation_model;
pub mod connection_model;
pub mod portations;
pub mod repo_paths;
