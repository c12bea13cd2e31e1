//! Helpers of the local Holium area: node names, selector literals, block multicodecs and the
//! media types of portation files.
use vstd::prelude::*;
use crate::codecs::{json_from_str, json_text_decoding};
use crate::selector::{SelectorEnvelope, spec_selector_envelope_new};

verus! {

/*********************************************
 * Node names
 *********************************************/

/// The character a node name cannot hold: it separates node names in connection identifiers.
pub open spec fn arrow_char() -> char {
    '\u{2192}'
}

/// Errors raised while checking the name of a pipeline node.
#[derive(Debug)]
pub enum KeyError {
    InvalidNodeName(String),
}

impl KeyError {
    /// Human readable description of the error.
    pub fn message(&self) -> (r: String)
        ensures
            match self {
                KeyError::InvalidNodeName(name) => r@ == "a node name cannot contain the '\u{2192}' character: "@ + name@,
            },
    {
        match self {
            KeyError::InvalidNodeName(name) => {
                let mut m = String::from_str("a node name cannot contain the '\u{2192}' character: ");
                m.append(name.as_str());
                m
            },
        }
    }
}

/// Validate the name (used as storage key) of a DAG node: it cannot hold the `→` character.
pub fn validate_node_name(name: &str) -> (r: Result<(), KeyError>)
    ensures
        (exists|i: int| 0 <= i < name@.len() && name@[i] == arrow_char()) ==>
            r is Err && (r->Err_0 matches KeyError::InvalidNodeName(s) && s@ == name@),
        !(exists|i: int| 0 <= i < name@.len() && name@[i] == arrow_char()) ==> r is Ok,
{
    let n = name.unicode_len();
    let mut i: usize = 0;
    while i < n
        invariant
            i <= n,
            n == name@.len(),
            forall|j: int| 0 <= j < i ==> name@[j] != arrow_char(),
        decreases n - i,
    {
        if name.get_char(i) == '\u{2192}' {
            return Err(KeyError::InvalidNodeName(String::from_str(name)));
        }
        i = i + 1;
    }
    Ok(())
}

/*********************************************
 * Selector literals
 *********************************************/

/// Errors raised while validating a selector literal.
#[derive(Clone, Copy, Debug, PartialEq, Eq, Structural)]
pub enum SelectorLiteralError {
    StringNotParsableToJSON,
    InvalidHoliumSelector,
}

impl SelectorLiteralError {
    /// Human readable description of the error.
    pub fn message(&self) -> (r: String)
        ensures
            *self == SelectorLiteralError::StringNotParsableToJSON ==> r@ == "invalid string can not be parsed to json"@,
            *self == SelectorLiteralError::InvalidHoliumSelector ==> r@ == "invalid holium selector"@,
    {
        match self {
            SelectorLiteralError::StringNotParsableToJSON => String::from_str("invalid string can not be parsed to json"),
            SelectorLiteralError::InvalidHoliumSelector => String::from_str("invalid holium selector"),
        }
    }
}

/// What validating a selector literal gives, once the literal is known to conform, or not, to
/// the JSON schema of Holium selectors.
pub open spec fn spec_validate_selector(literal: Seq<char>, schema_valid: bool) -> Result<(), SelectorLiteralError> {
    if json_text_decoding(literal) is None {
        Err(SelectorLiteralError::StringNotParsableToJSON)
    } else if !schema_valid {
        Err(SelectorLiteralError::InvalidHoliumSelector)
    } else if spec_selector_envelope_new(literal) is Err {
        Err(SelectorLiteralError::InvalidHoliumSelector)
    } else {
        Ok(())
    }
}

/// Validate a Holium selector literal: it should be JSON, conform to the JSON schema of Holium
/// selectors (checked by the caller, and handed over as `schema_valid`), and describe a selector.
pub fn validate_selector(literal: &str, schema_valid: bool) -> (r: Result<(), SelectorLiteralError>)
    ensures r == spec_validate_selector(literal@, schema_valid),
{
    // parse the instance literal into a JSON value
    if json_from_str(literal).is_none() {
        return Err(SelectorLiteralError::StringNotParsableToJSON);
    }
    // it should conform to the Holium selector schema
    if !schema_valid {
        return Err(SelectorLiteralError::InvalidHoliumSelector);
    }
    // further validate the literal by trying to parse it as a selector
    match SelectorEnvelope::new(literal) {
        Ok(_) => Ok(()),
        Err(_) => Err(SelectorLiteralError::InvalidHoliumSelector),
    }
}

/*********************************************
 * Block multicodecs
 *********************************************/

/// Multicodecs of the blocks of the Holium framework.
#[derive(Clone, Copy, Debug, PartialEq, Eq, Structural)]
pub enum BlockMulticodec {
    Raw,
    DagCbor,
}

/// The multicodec code of a block codec.
pub open spec fn spec_multicodec_code(codec: BlockMulticodec) -> u64 {
    match codec {
        BlockMulticodec::Raw => 0x55,
        BlockMulticodec::DagCbor => 0x71,
    }
}

impl BlockMulticodec {
    /// The multicodec code of the codec.
    pub fn code(&self) -> (r: u64)
        ensures r == spec_multicodec_code(*self),
    {
        match self {
            BlockMulticodec::Raw => 0x55,
            BlockMulticodec::DagCbor => 0x71,
        }
    }
}

/*********************************************
 * Media types of portation files
 *********************************************/

/// The first media type that `mime_guess::from_path(path).first_raw()` guesses from the extension
/// of a path, if any.
pub uninterp spec fn mime_guess_first(path: Seq<char>) -> Option<Seq<char>>;

/// Guess the media type of a file from the extension of its path, with
/// `mime_guess::from_path(..).first_raw()`. The guesses of mime_guess carry no parameters, so a
/// guess is its own essence.
#[verifier::external_body]
fn guess_media_type(path: &str) -> (r: Option<String>)
    ensures
        match mime_guess_first(path@) {
            Some(m) => r is Some && r->0@ == m,
            None => r is None,
        },
{
    mime_guess::from_path(path).first_raw().map(|m| m.to_string())
}

/// The file formats of portations.
#[derive(Clone, Copy, Debug, PartialEq, Eq, Structural)]
pub enum PortationFileFormat {
    Bin,
    Cbor,
    Csv,
    Json,
}

/// Errors raised while checking the media type of a portation file.
#[derive(Clone, Copy, Debug, PartialEq, Eq, Structural)]
pub enum MediaTypeError {
    IncompatibleMediaTypeAndPortationFormat,
}

impl MediaTypeError {
    /// Human readable description of the error.
    pub fn message(&self) -> (r: String)
        ensures r@ == "file extension incompatible with selected file format"@,
    {
        String::from_str("file extension incompatible with selected file format")
    }
}

/// Whether the media type guessed from a file path fits a portation file format.
pub open spec fn spec_mimetype_coherent(guess: Option<Seq<char>>, format: PortationFileFormat) -> bool {
    match format {
        PortationFileFormat::Bin => true,
        PortationFileFormat::Cbor => guess == Some("application/cbor"@),
        PortationFileFormat::Csv => guess == Some("text/csv"@) || guess == Some("text/csv; charset=utf-8"@),
        PortationFileFormat::Json => guess == Some("application/json"@),
    }
}

fn is_guess(guess: &Option<String>, media_type: &str) -> (r: bool)
    ensures r == (match guess { Some(g) => g@ == media_type@, None => false }),
{
    match guess {
        Some(g) => crate::values::str_eq(g.as_str(), media_type),
        None => false,
    }
}

/// Validate the coherence between a portation file path and its format, using the media type
/// guessed from the path.
pub fn validate_mimetype_coherence(file_path: &str, file_format: &PortationFileFormat) -> (r: Result<(), MediaTypeError>)
    ensures
        spec_mimetype_coherent(mime_guess_first(file_path@), *file_format) ==> r is Ok,
        !spec_mimetype_coherent(mime_guess_first(file_path@), *file_format) ==> r is Err,
{
    let media_type_guess = guess_media_type(file_path);
    let coherent = match file_format {
        PortationFileFormat::Bin => true,
        PortationFileFormat::Cbor => is_guess(&media_type_guess, "application/cbor"),
        PortationFileFormat::Csv => is_guess(&media_type_guess, "text/csv") || is_guess(&media_type_guess, "text/csv; charset=utf-8"),
        PortationFileFormat::Json => is_guess(&media_type_guess, "application/json"),
    };
    if coherent { Ok(()) } else { Err(MediaTypeError::IncompatibleMediaTypeAndPortationFormat) }
}

} // verus!
