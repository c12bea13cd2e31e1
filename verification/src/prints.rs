//! Errors and JSON literals printed by the commands of the command line interface.
use vstd::prelude::*;
use crate::transformation_model::{json_schema_string_to_short_string, spec_json_schema_short_string};

verus! {

/*********************************************
 * Printed messages
 *********************************************/

/// Errors printed by the commands.
#[derive(Debug)]
pub enum Error {
    /// Structure creation error.
    StructureCreationError(String, String),
}

impl Error {
    /// Human readable description of the error.
    pub fn message(&self) -> (r: String)
        ensures
            match self {
                Error::StructureCreationError(kind, name) => r@ == "cannot create "@ + kind@ + " with name: "@ + name@,
            },
    {
        match self {
            Error::StructureCreationError(kind, name) => {
                let mut m = String::from_str("cannot create ");
                m.append(kind.as_str());
                m.append(" with name: ");
                m.append(name.as_str());
                m
            },
        }
    }
}

/// Shorten and prettify a JSON literal: its pretty form, truncated; nothing where the literal is
/// not JSON.
pub fn shorten_prettify_json_literal(json_string: &str) -> (r: String)
    ensures r@ == spec_json_schema_short_string(json_string@),
{
    json_schema_string_to_short_string(json_string)
}

} // verus!
