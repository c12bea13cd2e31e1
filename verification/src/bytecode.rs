//! Wasm module bytecode: the check of its header.
use vstd::prelude::*;

verus! {

/*********************************************
 * Wasm bytecode
 *********************************************/

/// The WebAssembly 4-byte magic number.
pub open spec fn wasm_magic_number() -> Seq<u8> {
    seq![0x00u8, 0x61u8, 0x73u8, 0x6Du8]
}

/// Errors related to Wasm module bytecode.
#[derive(Debug)]
pub enum Error {
    /// Failing to open or read a Wasm module file.
    FailedToReadImportFile(String),
    /// The WebAssembly 4-byte magic number could not be found in expected bytecode.
    MissingWasmMagicNumber,
}

impl Error {
    /// Human readable description of the error.
    pub fn message(&self) -> (r: String)
        ensures
            match self {
                Error::FailedToReadImportFile(p) => r@ == "failed to read Wasm bytecode: "@ + p@,
                Error::MissingWasmMagicNumber => r@ == "invalid WebAssembly bytecode (4-byte magic number could not be found)"@,
            },
    {
        match self {
            Error::FailedToReadImportFile(p) => {
                let mut m = String::from_str("failed to read Wasm bytecode: ");
                m.append(p.as_str());
                m
            },
            Error::MissingWasmMagicNumber => String::from_str("invalid WebAssembly bytecode (4-byte magic number could not be found)"),
        }
    }
}

/// Check the first bytes read from a Wasm module file: at least four bytes were read, and they
/// are the WebAssembly magic number.
pub fn validate_wasm_header(bytes_read: usize, header: &[u8]) -> (r: Result<(), Error>)
    requires header.len() == 4,
    ensures
        (bytes_read >= 4 && header@ == wasm_magic_number()) ==> r is Ok,
        !(bytes_read >= 4 && header@ == wasm_magic_number()) ==> r is Err && r->Err_0 is MissingWasmMagicNumber,
{
    if bytes_read < 4 || header[0] != 0x00u8 || header[1] != 0x61u8 || header[2] != 0x73u8 || header[3] != 0x6Du8 {
        proof {
            if bytes_read >= 4 && header@ == wasm_magic_number() {
                assert(header@[0] == 0x00u8 && header@[1] == 0x61u8 && header@[2] == 0x73u8 && header@[3] == 0x6Du8);
            }
        }
        return Err(Error::MissingWasmMagicNumber);
    }
    proof { assert(header@ =~= wasm_magic_number()); }
    Ok(())
}

} // verus!
