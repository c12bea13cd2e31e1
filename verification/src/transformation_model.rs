//! Transformations of the local Holium area, the merge of a stored one with an update, and the
//! cells of the table they are listed in.
use vstd::prelude::*;
use crate::cbor_write::copy_bytes;
use crate::codecs::json_text_decoding;

verus! {

/// A transformation of the local area.
pub struct Transformation {
    pub name: String,
    pub bytecode: Vec<u8>,
    pub handle: String,
    pub json_schema_in: String,
}

/// An update of a transformation: the fields to replace.
pub struct OptionalTransformation {
    pub name: Option<String>,
    pub bytecode: Option<Vec<u8>>,
    pub handle: Option<String>,
    pub json_schema_in: Option<String>,
}

/// Merge a stored transformation with an update: each field set in the update replaces the
/// stored one.
pub fn merge(old: &Transformation, merged: &OptionalTransformation) -> (r: Transformation)
    ensures
        r.name@ == (if merged.name is Some { merged.name->0@ } else { old.name@ }),
        r.bytecode@ == (if merged.bytecode is Some { merged.bytecode->0@ } else { old.bytecode@ }),
        r.handle@ == (if merged.handle is Some { merged.handle->0@ } else { old.handle@ }),
        r.json_schema_in@ == (if merged.json_schema_in is Some { merged.json_schema_in->0@ } else { old.json_schema_in@ }),
{
    Transformation {
        name: match &merged.name { Some(n) => n.clone(), None => old.name.clone() },
        bytecode: match &merged.bytecode { Some(b) => copy_bytes(b), None => copy_bytes(&old.bytecode) },
        handle: match &merged.handle { Some(h) => h.clone(), None => old.handle.clone() },
        json_schema_in: match &merged.json_schema_in { Some(j) => j.clone(), None => old.json_schema_in.clone() },
    }
}

/// The text that `serde_json::to_string_pretty` writes for the JSON value that
/// `serde_json::from_str` parses from a text, if it parses one.
pub uninterp spec fn json_pretty_text(text: Seq<char>) -> Option<Seq<char>>;

/// The text that `Ellipse::truncate_ellipse` makes of a text: at most `len` of its extended
/// grapheme clusters, followed by `...` where some were cut.
pub uninterp spec fn ellipse_truncation(text: Seq<char>, len: usize) -> Seq<char>;

/// The text that `FileSize::file_size` writes for a number of bytes, with the conventional
/// options of `humansize`.
pub uninterp spec fn conventional_file_size(n: usize) -> Seq<char>;

/// Parse a JSON text with `serde_json::from_str` and write it back with
/// `serde_json::to_string_pretty` (an empty text where that fails). The text is parsed exactly
/// where [`json_text_decoding`] names a value for it.
#[verifier::external_body]
fn pretty_json(text: &str) -> (r: Option<String>)
    ensures
        match json_pretty_text(text@) {
            Some(p) => r is Some && r->0@ == p,
            None => r is None,
        },
        r is Some <==> json_text_decoding(text@) is Some,
{
    serde_json::from_str::<serde_json::Value>(text).ok().map(|v| serde_json::to_string_pretty(&v).unwrap_or_default())
}

/// Truncate a text to `len` extended grapheme clusters with `Ellipse::truncate_ellipse`. A text of
/// no more than `len` characters has no more than `len` clusters, and is kept whole.
#[verifier::external_body]
fn truncate_ellipse(text: &str, len: usize) -> (r: String)
    ensures
        r@ == ellipse_truncation(text@, len),
        text@.len() <= len ==> r@ == text@,
{
    ellipse::Ellipse::truncate_ellipse(&text, len).to_string()
}

/// Write a number of bytes in a human readable form with `FileSize::file_size` and the
/// conventional options (an empty text where that fails).
#[verifier::external_body]
fn file_size(n: usize) -> (r: String)
    ensures r@ == conventional_file_size(n),
{
    humansize::FileSize::file_size(&n, humansize::file_size_opts::CONVENTIONAL).unwrap_or("".to_string())
}

/// The length, in extended grapheme clusters, to which a JSON schema is shortened in a table.
pub const SHORT_JSON_SCHEMA_LEN: usize = 256;

/// The short text of a JSON schema in a table: its pretty form, truncated; nothing where the text
/// is not JSON.
pub open spec fn spec_json_schema_short_string(json_schema_string: Seq<char>) -> Seq<char> {
    match json_pretty_text(json_schema_string) {
        None => Seq::empty(),
        Some(p) => ellipse_truncation(p, SHORT_JSON_SCHEMA_LEN),
    }
}

/// Prettify a JSON schema and truncate it, to show it in a table.
pub fn json_schema_string_to_short_string(json_schema_string: &str) -> (r: String)
    ensures
        r@ == spec_json_schema_short_string(json_schema_string@),
        json_text_decoding(json_schema_string@) is None ==> r@.len() == 0,
{
    match pretty_json(json_schema_string) {
        None => {
            proof { reveal_strlit(""); }
            String::from_str("")
        },
        Some(p) => truncate_ellipse(p.as_str(), SHORT_JSON_SCHEMA_LEN),
    }
}

impl Transformation {
    /// The titles of the columns of a table of transformations.
    pub fn title_row() -> (r: Vec<String>)
        ensures r@.len() == 4, r@[0]@ == "NAME"@, r@[1]@ == "HANDLE"@, r@[2]@ == "BYTECODE (size)"@,
            r@[3]@ == "IN (JSON Schema)"@,
    {
        let mut r: Vec<String> = Vec::new();
        r.push(String::from_str("NAME"));
        r.push(String::from_str("HANDLE"));
        r.push(String::from_str("BYTECODE (size)"));
        r.push(String::from_str("IN (JSON Schema)"));
        r
    }

    /// The cells of the row of the transformation in a table: its name, its handle, the size of
    /// its bytecode and the short text of its input JSON schema.
    pub fn object_to_row(&self) -> (r: Vec<String>)
        ensures r@.len() == 4, r@[0]@ == self.name@, r@[1]@ == self.handle@,
            r@[2]@ == conventional_file_size(self.bytecode@.len() as usize),
            r@[3]@ == spec_json_schema_short_string(self.json_schema_in@),
    {
        let mut r: Vec<String> = Vec::new();
        r.push(self.name.clone());
        r.push(self.handle.clone());
        r.push(file_size(self.bytecode.len()));
        r.push(json_schema_string_to_short_string(self.json_schema_in.as_str()));
        r
    }
}

} // verus!
