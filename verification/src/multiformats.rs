//! Content identifiers (CIDs) of interplanetary blocks, and the local paths they are stored at.
//! Reference: https://multiformats.io/
//!
//! A CID is held by its bytes, as `Cid::to_bytes` writes them; a path by its components.
use vstd::prelude::*;
use crate::local_helpers::{BlockMulticodec, spec_multicodec_code};

verus! {

broadcast use vstd::std_specs::vec::group_vec_axioms;

/// Blake3 multicodec code.
pub const BLAKE3_HASH_FUNC_TYPE: u8 = 0x1e;

/// The multihash that `Multihash::from_bytes` reads from some bytes, written back by
/// `Multihash::to_bytes`, if they hold one.
pub uninterp spec fn multihash_decoding(bytes: Seq<u8>) -> Option<Seq<u8>>;

/// The 32-byte digest that `blake3::hash` computes for some contents.
pub uninterp spec fn blake3_digest(content: Seq<u8>) -> Seq<u8>;

/// The bytes of the version 1 CID that `Cid::new` makes of a codec and a multihash, if it
/// accepts them.
pub uninterp spec fn cid_v1_bytes(codec: u64, multihash: Seq<u8>) -> Option<Seq<u8>>;

/// The bytes of the CID that `Cid::read_bytes` reads from some bytes, written back by
/// `Cid::to_bytes`, if they start with one.
pub uninterp spec fn cid_reencoding(bytes: Seq<u8>) -> Option<Seq<u8>>;

/// The base 32 (lower case) text that `Cid::to_string_of_base` writes for the CID that
/// `Cid::read_bytes` reads from some bytes, if it reads one that has such a text.
pub uninterp spec fn cid_base32_text(bytes: Seq<u8>) -> Option<Seq<char>>;

/// The bytes of the CID that `Cid::try_from` parses from a text, if it holds one.
pub uninterp spec fn cid_text_decoding(text: Seq<char>) -> Option<Seq<u8>>;

/// Read a multihash from some bytes with `Multihash::from_bytes`, and write it back with
/// `Multihash::to_bytes`.
#[verifier::external_body]
fn multihash_from_bytes(bytes: &[u8]) -> (r: Option<Vec<u8>>)
    ensures
        match multihash_decoding(bytes@) {
            Some(m) => r is Some && r->0@ == m,
            None => r is None,
        },
{
    cid::multihash::Multihash::from_bytes(bytes).ok().map(|m| m.to_bytes())
}

/// Hash some contents with `blake3::hash`.
#[verifier::external_body]
fn blake3_hash(content: &[u8]) -> (r: [u8; 32])
    ensures r@ == blake3_digest(content@),
{
    *blake3::hash(content).as_bytes()
}

/// Make a version 1 CID of a codec and a multihash with `Cid::new`, and write its bytes.
#[verifier::external_body]
fn cid_new_v1(codec: u64, multihash: &[u8]) -> (r: Option<Vec<u8>>)
    ensures
        match cid_v1_bytes(codec, multihash@) {
            Some(c) => r is Some && r->0@ == c,
            None => r is None,
        },
{
    let hash = cid::multihash::Multihash::from_bytes(multihash).ok()?;
    cid::Cid::new(cid::Version::V1, codec, hash).ok().map(|c| c.to_bytes())
}

/// A digit of the lower case base 32 alphabet of RFC 4648.
pub open spec fn base32_digit(c: char) -> bool {
    ('a' <= c && c <= 'z') || ('2' <= c && c <= '7')
}

/// Write the base 32 (lower case) text of a CID with `Cid::to_string_of_base`. The text starts
/// with the multibase prefix `b`, the rest of it holds base 32 digits only, the text holds at
/// least three characters (a version 1 CID takes at least four bytes: its version, codec, hash
/// code and digest size, so seven digits), and
/// `Cid::try_from` parses the CID back from it. A version 1 CID (whose bytes, as `Cid::to_bytes`
/// writes them, start with the version `1`) always has such a text; a version 0 CID has none.
#[verifier::external_body]
fn cid_to_base32_text(cid_bytes: &[u8]) -> (r: Option<String>)
    ensures
        match cid_base32_text(cid_bytes@) {
            Some(t) => r is Some && r->0@ == t,
            None => r is None,
        },
        r is Some ==> r->0@.len() >= 3 && r->0@[0] == 'b'
            && (forall|i: int| 1 <= i < r->0@.len() ==> #[trigger] base32_digit(r->0@[i]))
            && cid_text_decoding(r->0@) == cid_reencoding(cid_bytes@),
        (cid_reencoding(cid_bytes@) matches Some(c) && c.len() > 0 && c[0] == 1) ==> r is Some,
{
    let cid = cid::Cid::read_bytes(cid_bytes).ok()?;
    cid.to_string_of_base(cid::multibase::Base::Base32Lower).ok()
}

/// The bytes that `Cid::to_bytes` writes for a version 1 CID (they start with the version `1`), or
/// for a version 0 CID with a 32 byte sha2-256 digest (`0x12 0x20` and the digest). `Cid::read_bytes`
/// reads these bytes back as the same CID; a version 0 CID read from other bytes, with a shorter
/// digest, is written as bytes that it refuses.
pub open spec fn canonical_cid_bytes(c: Seq<u8>) -> bool {
    (c.len() > 0 && c[0] == 1) || (c.len() == 34 && c[0] == 0x12 && c[1] == 0x20)
}

/// Parse a CID from a text with `Cid::try_from`, and write its bytes. Reading back the bytes of a
/// version 1 CID, or of a version 0 CID with a full digest, gives the same bytes.
#[verifier::external_body]
fn cid_from_text(text: &str) -> (r: Option<Vec<u8>>)
    ensures
        match cid_text_decoding(text@) {
            Some(c) => r is Some && r->0@ == c,
            None => r is None,
        },
        r is Some && canonical_cid_bytes(r->0@) ==> cid_reencoding(r->0@) == Some(r->0@),
{
    <cid::Cid as std::convert::TryFrom<&str>>::try_from(text).ok().map(|c| c.to_bytes())
}

/// Errors of the interplanetary utility module.
#[derive(Debug)]
pub enum Error {
    Blake3HashingError,
    Blake3MultihashCreationError,
    CidCreationError,
    BlockPathCreationError,
    CidFromPathError,
    FailedToWriteObject(String),
    WrongObjectPath(String),
    FailedToParseCid(String),
    UnknownObjectIdentifier(String),
}

impl Error {
    /// Human readable description of the error.
    pub fn message(&self) -> (r: String)
        ensures
            match self {
                Error::Blake3HashingError => r@ == "failed to run the hashing algorithm"@,
                Error::Blake3MultihashCreationError => r@ == "failed to create multihash from blake3 hash"@,
                Error::CidCreationError => r@ == "failed to create cid"@,
                Error::BlockPathCreationError => r@ == "failed to create block path from cid"@,
                Error::CidFromPathError => r@ == "failed to parse block path as cid"@,
                Error::FailedToWriteObject(s) => r@ == "failed to write holium data object : "@ + s@,
                Error::WrongObjectPath(s) => r@ == "wrong local object path : "@ + s@,
                Error::FailedToParseCid(s) => r@ == "failed to parse CID string : "@ + s@,
                Error::UnknownObjectIdentifier(s) => r@ == "unknown object identifier: "@ + s@,
            },
    {
        match self {
            Error::Blake3HashingError => String::from_str("failed to run the hashing algorithm"),
            Error::Blake3MultihashCreationError => String::from_str("failed to create multihash from blake3 hash"),
            Error::CidCreationError => String::from_str("failed to create cid"),
            Error::BlockPathCreationError => String::from_str("failed to create block path from cid"),
            Error::CidFromPathError => String::from_str("failed to parse block path as cid"),
            Error::FailedToWriteObject(s) => {
                let mut m = String::from_str("failed to write holium data object : ");
                m.append(s.as_str());
                m
            },
            Error::WrongObjectPath(s) => {
                let mut m = String::from_str("wrong local object path : ");
                m.append(s.as_str());
                m
            },
            Error::FailedToParseCid(s) => {
                let mut m = String::from_str("failed to parse CID string : ");
                m.append(s.as_str());
                m
            },
            Error::UnknownObjectIdentifier(s) => {
                let mut m = String::from_str("unknown object identifier: ");
                m.append(s.as_str());
                m
            },
        }
    }
}

/// The bytes of the multihash of a blake3 digest: the blake3 code, the digest size, the digest.
pub open spec fn spec_blake3_multihash_bytes(hash: Seq<u8>) -> Seq<u8> {
    seq![BLAKE3_HASH_FUNC_TYPE, 32u8] + hash
}

/// Create a multihash from a 32-byte blake3 digest, and return its bytes.
pub fn blake3_hash_to_multihash(hash: [u8; 32]) -> (r: Result<Vec<u8>, Error>)
    ensures
        match multihash_decoding(spec_blake3_multihash_bytes(hash@)) {
            Some(m) => r is Ok && r->Ok_0@ == m,
            None => r is Err && r->Err_0 is Blake3MultihashCreationError,
        },
{
    let mut multihash_bytes: Vec<u8> = Vec::new();
    multihash_bytes.push(BLAKE3_HASH_FUNC_TYPE);
    multihash_bytes.push(32u8);
    let mut i: usize = 0;
    while i < 32
        invariant
            i <= 32,
            multihash_bytes@ =~= seq![BLAKE3_HASH_FUNC_TYPE, 32u8] + hash@.take(i as int),
        decreases 32 - i,
    {
        multihash_bytes.push(hash[i]);
        i = i + 1;
    }
    proof { assert(hash@.take(32) =~= hash@); }
    match multihash_from_bytes(multihash_bytes.as_slice()) {
        Some(m) => Ok(m),
        None => Err(Error::Blake3MultihashCreationError),
    }
}

/// The bytes of the CID of a block: version 1, the codec of the block, and the blake3 multihash
/// of its contents.
pub open spec fn spec_compute_cid(content: Seq<u8>, codec: BlockMulticodec) -> Result<Seq<u8>, ()> {
    match multihash_decoding(spec_blake3_multihash_bytes(blake3_digest(content))) {
        None => Err(()),
        Some(m) => match cid_v1_bytes(spec_multicodec_code(codec), m) {
            None => Err(()),
            Some(c) => Ok(c),
        },
    }
}

/// Compute the CID of a block from its contents.
pub fn compute_cid(content: &[u8], codec: &BlockMulticodec) -> (r: Result<Vec<u8>, Error>)
    ensures
        match multihash_decoding(spec_blake3_multihash_bytes(blake3_digest(content@))) {
            None => r is Err && r->Err_0 is Blake3MultihashCreationError,
            Some(m) => match cid_v1_bytes(spec_multicodec_code(*codec), m) {
                None => r is Err && r->Err_0 is CidCreationError,
                Some(c) => r is Ok && r->Ok_0@ == c,
            },
        },
{
    // hash the block contents
    let hash = blake3_hash(content);
    // create multihash
    let multihash = blake3_hash_to_multihash(hash)?;
    // create and return cid
    match cid_new_v1(codec.code(), multihash.as_slice()) {
        Some(c) => Ok(c),
        None => Err(Error::CidCreationError),
    }
}

/// The components of the relative path a CID is stored at: the next-to-last two characters of
/// its base 32 text, then the text without its multibase prefix.
pub open spec fn spec_object_path_components(t: Seq<char>) -> Seq<Seq<char>> {
    seq![t.subrange(t.len() - 3, t.len() - 1), t.subrange(1, t.len() as int)]
}

/// The relative path a CID is stored at, as a text: its two components joined by `/`.
pub open spec fn spec_object_path_text(t: Seq<char>) -> Seq<char> {
    t.subrange(t.len() - 3, t.len() - 1) + seq!['/'] + t.subrange(1, t.len() as int)
}

/// Deterministically convert an object CID to a relative path, as a text. A form of sharding is
/// performed, following `ipfs/go-ds-flatfs`. Reading the CID back from the path gives it again;
/// every version 1 CID has a path.
pub fn cid_to_object_path(cid: &[u8]) -> (r: Result<String, Error>)
    ensures
        match cid_base32_text(cid@) {
            None => r is Err && r->Err_0 is BlockPathCreationError,
            Some(t) => if t.len() < 3 {
                r is Err && r->Err_0 is BlockPathCreationError
            } else {
                r is Ok && r->Ok_0@ == spec_object_path_text(t)
            },
        },
        r is Ok ==> spec_object_path_to_cid(spec_object_path_components(cid_base32_text(cid@)->0)) == cid_reencoding(cid@),
        cid_base32_text(cid@) is Some ==> r is Ok,
        cid_reencoding(cid@) is Some && cid_reencoding(cid@)->0.len() > 0 && cid_reencoding(cid@)->0[0] == 1
            ==> r is Ok && spec_object_path_to_cid(spec_object_path_components(cid_base32_text(cid@)->0)) == cid_reencoding(cid@),
{
    // create base 32 cid string
    let cid_str = match cid_to_base32_text(cid) {
        Some(s) => s,
        None => return Err(Error::BlockPathCreationError),
    };
    let n = cid_str.unicode_len();
    if n < 3 {
        return Err(Error::BlockPathCreationError);
    }
    let s = cid_str.as_str();
    // the next-to-last two characters, then the text without its multibase character
    let mut path = String::from_str(s.substring_char(n - 3, n - 1));
    path.append("/");
    path.append(s.substring_char(1, n));
    proof {
        let t = cid_str@;
        let rest = t.subrange(1, t.len() as int);
        assert(seq!['b'] + rest =~= t);
        assert(base32_digit(t[1]));
        reveal_strlit("..");
        reveal_strlit(".");
        reveal_strlit("/");
        assert(rest[0] == t[1]);
        assert(rest != ".."@);
        assert(rest != "."@);
        assert(rest != "/"@);
        assert(spec_object_path_components(t).last() == rest);
    }
    Ok(path)
}

/// The name of the file a path leads to: its last component, unless it is `..`, `.` or the
/// root.
pub open spec fn spec_file_name(path: Seq<Seq<char>>) -> Option<Seq<char>> {
    if path.len() == 0 {
        None
    } else if path.last() == ".."@ || path.last() == "."@ || path.last() == "/"@ {
        None
    } else {
        Some(path.last())
    }
}

/// The CID an object path leads to: its file name, after the multibase prefix `b`, is the base
/// 32 text of the CID.
pub open spec fn spec_object_path_to_cid(path: Seq<Seq<char>>) -> Option<Seq<u8>> {
    match spec_file_name(path) {
        None => None,
        Some(name) => cid_text_decoding(seq!['b'] + name),
    }
}

/// The components of a path.
pub open spec fn view_path(path: Seq<String>) -> Seq<Seq<char>> {
    Seq::new(path.len(), |i: int| path[i]@)
}

/// Deterministically convert an object local path, given by its components, to the related CID.
/// This is the inverse of [`cid_to_object_path`].
pub fn object_path_to_cid(path: &Vec<String>) -> (r: Result<Vec<u8>, Error>)
    ensures
        match spec_object_path_to_cid(view_path(path@)) {
            Some(c) => r is Ok && r->Ok_0@ == c,
            None => r is Err && r->Err_0 is CidFromPathError,
        },
{
    if path.len() == 0 {
        return Err(Error::CidFromPathError);
    }
    let file_name = path[path.len() - 1].as_str();
    if crate::values::str_eq(file_name, "..") || crate::values::str_eq(file_name, ".") || crate::values::str_eq(file_name, "/") {
        return Err(Error::CidFromPathError);
    }
    let mut cid_str = String::from_str("b");
    cid_str.append(file_name);
    proof {
        reveal_strlit("b");
        assert(cid_str@ =~= seq!['b'] + view_path(path@).last());
    }
    match cid_from_text(cid_str.as_str()) {
        Some(c) => Ok(c),
        None => Err(Error::CidFromPathError),
    }
}

/// Whether `prefix` holds the first components of `path`.
pub open spec fn spec_starts_with(path: Seq<Seq<char>>, prefix: Seq<Seq<char>>) -> bool {
    prefix.len() <= path.len() && path.subrange(0, prefix.len() as int) == prefix
}

/// Deterministically convert an object path, given by its components, to the related CID; the
/// path should lead into the interplanetary directory `interplanetary_dir`.
pub fn path_to_cid(path: &Vec<String>, interplanetary_dir: &Vec<String>) -> (r: Result<Vec<u8>, Error>)
    ensures
        !spec_starts_with(view_path(path@), view_path(interplanetary_dir@)) ==> r is Err && r->Err_0 is CidFromPathError,
        spec_starts_with(view_path(path@), view_path(interplanetary_dir@)) ==>
            match spec_object_path_to_cid(view_path(path@).subrange(interplanetary_dir.len() as int, path.len() as int)) {
                Some(c) => r is Ok && r->Ok_0@ == c,
                None => r is Err && r->Err_0 is CidFromPathError,
            },
{
    // check that the path is in the interplanetary directory
    if interplanetary_dir.len() > path.len() {
        return Err(Error::CidFromPathError);
    }
    let mut i: usize = 0;
    while i < interplanetary_dir.len()
        invariant
            i <= interplanetary_dir.len() <= path.len(),
            forall|j: int| 0 <= j < i ==> #[trigger] path@[j]@ == interplanetary_dir@[j]@,
        decreases interplanetary_dir.len() - i,
    {
        if !crate::values::str_eq(path[i].as_str(), interplanetary_dir[i].as_str()) {
            proof {
                assert(view_path(path@).subrange(0, interplanetary_dir.len() as int)[i as int] != view_path(interplanetary_dir@)[i as int]);
            }
            return Err(Error::CidFromPathError);
        }
        i = i + 1;
    }
    proof { assert(view_path(path@).subrange(0, interplanetary_dir.len() as int) =~= view_path(interplanetary_dir@)); }
    // strip the prefix, and convert the relative path to a cid
    let mut rel_path: Vec<String> = Vec::new();
    let mut k: usize = interplanetary_dir.len();
    while k < path.len()
        invariant
            interplanetary_dir.len() <= k <= path.len(),
            rel_path@.len() == k - interplanetary_dir.len(),
            forall|j: int| 0 <= j < rel_path@.len() ==> #[trigger] rel_path@[j]@ == path@[interplanetary_dir.len() + j]@,
        decreases path.len() - k,
    {
        rel_path.push(path[k].clone());
        k = k + 1;
    }
    proof { assert(view_path(rel_path@) =~= view_path(path@).subrange(interplanetary_dir.len() as int, path.len() as int)); }
    object_path_to_cid(&rel_path)
}

/// Read a CID from the start of some bytes with `Cid::read_bytes`, and write its bytes back with
/// `Cid::to_bytes`.
#[verifier::external_body]
pub(crate) fn cid_read_bytes(bytes: &[u8]) -> (r: Option<Vec<u8>>)
    ensures
        match cid_reencoding(bytes@) {
            Some(c) => r is Some && r->0@ == c,
            None => r is None,
        },
{
    cid::Cid::read_bytes(bytes).ok().map(|c| c.to_bytes())
}

/// Deterministically convert an object CID to the components of the path it is stored at, in
/// the interplanetary directory `interplanetary_dir`.
pub fn cid_to_path(cid: &[u8], interplanetary_dir: &Vec<String>) -> (r: Result<Vec<String>, Error>)
    ensures
        match cid_base32_text(cid@) {
            None => r is Err && r->Err_0 is BlockPathCreationError,
            Some(t) => if t.len() < 3 {
                r is Err && r->Err_0 is BlockPathCreationError
            } else {
                r is Ok && view_path(r->Ok_0@) == view_path(interplanetary_dir@) + spec_object_path_components(t)
            },
        },
{
    let cid_str = match cid_to_base32_text(cid) {
        Some(s) => s,
        None => return Err(Error::BlockPathCreationError),
    };
    let n = cid_str.unicode_len();
    if n < 3 {
        return Err(Error::BlockPathCreationError);
    }
    let s = cid_str.as_str();
    let mut path: Vec<String> = Vec::new();
    let mut i: usize = 0;
    while i < interplanetary_dir.len()
        invariant
            i <= interplanetary_dir.len(),
            path@.len() == i,
            forall|j: int| 0 <= j < i ==> #[trigger] path@[j]@ == interplanetary_dir@[j]@,
        decreases interplanetary_dir.len() - i,
    {
        path.push(interplanetary_dir[i].clone());
        i = i + 1;
    }
    path.push(String::from_str(s.substring_char(n - 3, n - 1)));
    path.push(String::from_str(s.substring_char(1, n)));
    proof {
        assert(view_path(path@) =~= view_path(interplanetary_dir@) + spec_object_path_components(cid_str@));
    }
    Ok(path)
}

/*********************************************
 * Paths of objects in a repository storage
 *********************************************/

/// The text that the `Display` of `Cid` writes for the CID that `Cid::read_bytes` reads from
/// some bytes, if it reads one.
pub uninterp spec fn cid_display_text(bytes: Seq<u8>) -> Option<Seq<char>>;

/// An ASCII letter or digit: the base 58 and base 32 alphabets, and the multibase prefix `b`,
/// hold nothing else.
pub open spec fn ascii_alphanumeric(c: char) -> bool {
    ('0' <= c && c <= '9') || ('a' <= c && c <= 'z') || ('A' <= c && c <= 'Z')
}

/// Write the text of a CID with its `Display` (base 58 for a version 0 CID, base 32 with its
/// multibase prefix for a version 1 CID). The text holds ASCII letters and digits only. For a
/// version 1 CID, or a version 0 CID with a full digest (whose base 58 text is the 46 character
/// `Qm` form), `Cid::try_from` parses the CID back from it.
#[verifier::external_body]
fn cid_to_display_text(cid_bytes: &[u8]) -> (r: Option<String>)
    ensures
        match cid_display_text(cid_bytes@) {
            Some(t) => r is Some && r->0@ == t,
            None => r is None,
        },
        r is Some ==> (forall|i: int| 0 <= i < r->0@.len() ==> #[trigger] ascii_alphanumeric(r->0@[i])),
        r is Some && (cid_reencoding(cid_bytes@) matches Some(c) && canonical_cid_bytes(c))
            ==> cid_text_decoding(r->0@) == cid_reencoding(cid_bytes@),
{
    cid::Cid::read_bytes(cid_bytes).ok().map(|c| c.to_string())
}

/// The text of a CID, as its `Display` writes it, if the bytes hold one.
pub fn cid_display_string(cid: &[u8]) -> (r: Option<String>)
    ensures
        match cid_display_text(cid@) {
            Some(t) => r is Some && r->0@ == t,
            None => r is None,
        },
{
    cid_to_display_text(cid)
}

/// The base 32 (lower case) text of a CID, with its multibase prefix, if the bytes hold a CID
/// that has one.
pub fn cid_base32_string(cid: &[u8]) -> (r: Option<String>)
    ensures
        match cid_base32_text(cid@) {
            Some(t) => r is Some && r->0@ == t,
            None => r is None,
        },
{
    cid_to_base32_text(cid)
}

/// The position at which the text of a CID is split into the two last components of its path.
pub const CID_SPLIT_POSITION: usize = 9;

/// The components of the path a CID is stored at: `objects`, then its text split after its
/// ninth character.
pub open spec fn spec_storage_object_path(t: Seq<char>) -> Seq<Seq<char>> {
    seq!["objects"@, t.subrange(0, 9), t.subrange(9, t.len() as int)]
}

/// Deterministically convert an object CID to the components of the path it is stored at: it
/// starts with `objects/`. The path of a version 1 CID, or of a version 0 CID with a full digest,
/// leads back to the CID.
pub fn storage_cid_to_object_path(cid: &[u8]) -> (r: Option<Vec<String>>)
    requires cid_display_text(cid@) is Some ==> cid_display_text(cid@)->0.len() >= 9,
    ensures
        match cid_display_text(cid@) {
            Some(t) => r is Some && view_path(r->0@) == spec_storage_object_path(t),
            None => r is None,
        },
        r is Some && (cid_reencoding(cid@) matches Some(c) && canonical_cid_bytes(c))
            ==> spec_storage_object_path_to_cid(view_path(r->0@)) == cid_reencoding(cid@),
{
    let cid_str = cid_to_display_text(cid)?;
    let n = cid_str.unicode_len();
    let s = cid_str.as_str();
    let mut path: Vec<String> = Vec::new();
    path.push(String::from_str("objects"));
    path.push(String::from_str(s.substring_char(0, 9)));
    path.push(String::from_str(s.substring_char(9, n)));
    proof {
        let t = cid_str@;
        assert(view_path(path@) =~= spec_storage_object_path(t));
        assert(t.subrange(0, 9) + t.subrange(9, t.len() as int) =~= t);
        lemma_alphanumeric_names_a_file(t.subrange(0, 9));
        lemma_alphanumeric_names_a_file(t.subrange(9, t.len() as int));
        assert(view_path(path@).drop_last() =~= seq!["objects"@, t.subrange(0, 9)]);
    }
    Some(path)
}

/// A component made of ASCII letters and digits names a file.
proof fn lemma_alphanumeric_names_a_file(c: Seq<char>)
    requires forall|i: int| 0 <= i < c.len() ==> #[trigger] ascii_alphanumeric(c[i]),
    ensures c != ".."@, c != "."@, c != "/"@,
{
    reveal_strlit("..");
    reveal_strlit(".");
    reveal_strlit("/");
    if c.len() > 0 {
        assert(ascii_alphanumeric(c[0]));
    }
}

/// The components of the path a CID is stored at, where its text is long enough to be split as
/// the storage does it, and `None` where the bytes hold no CID or its text is shorter.
pub fn storage_object_path(cid: &[u8]) -> (r: Option<Vec<String>>)
    ensures
        match cid_display_text(cid@) {
            Some(t) => if t.len() >= 9 {
                r is Some && view_path(r->0@) == spec_storage_object_path(t)
            } else {
                r is None
            },
            None => r is None,
        },
{
    let cid_str = cid_to_display_text(cid)?;
    if cid_str.unicode_len() < 9 {
        return None;
    }
    storage_cid_to_object_path(cid)
}

/// The CID an object path of the storage leads to: its last two components, joined, are the
/// text of the CID.
pub open spec fn spec_storage_object_path_to_cid(path: Seq<Seq<char>>) -> Option<Seq<u8>> {
    if !spec_storage_path_names(path) {
        None
    } else {
        cid_text_decoding(path[path.len() - 2] + path[path.len() - 1])
    }
}

/// The path has two last components that name files: neither is `..`, `.` nor the root.
pub open spec fn spec_storage_path_names(path: Seq<Seq<char>>) -> bool {
    &&& path.len() >= 2
    &&& spec_file_name(path) is Some
    &&& spec_file_name(path.drop_last()) is Some
}

/// Errors of the repository storage.
#[derive(Debug)]
pub enum StorageError {
    OutsideHoliumRepo,
    FailedToWriteObject(String),
    WrongObjectPath(String),
    FailedToParseCid(String),
}

impl StorageError {
    /// Human readable description of the error.
    pub fn message(&self) -> (r: String)
        ensures
            match self {
                StorageError::OutsideHoliumRepo => r@ == "this command can only be run inside a Holium repository"@,
                StorageError::FailedToWriteObject(s) => r@ == "failed to write holium data object : "@ + s@,
                StorageError::WrongObjectPath(s) => r@ == "wrong local object path : "@ + s@,
                StorageError::FailedToParseCid(s) => r@ == "failed to parse CID string : "@ + s@,
            },
    {
        match self {
            StorageError::OutsideHoliumRepo => String::from_str("this command can only be run inside a Holium repository"),
            StorageError::FailedToWriteObject(s) => {
                let mut m = String::from_str("failed to write holium data object : ");
                m.append(s.as_str());
                m
            },
            StorageError::WrongObjectPath(s) => {
                let mut m = String::from_str("wrong local object path : ");
                m.append(s.as_str());
                m
            },
            StorageError::FailedToParseCid(s) => {
                let mut m = String::from_str("failed to parse CID string : ");
                m.append(s.as_str());
                m
            },
        }
    }
}

/// Whether a path component names a file: it is not `..`, `.` nor the root.
fn names_a_file(c: &str) -> (r: bool)
    ensures r == !(c@ == ".."@ || c@ == "."@ || c@ == "/"@),
{
    !(crate::values::str_eq(c, "..") || crate::values::str_eq(c, ".") || crate::values::str_eq(c, "/"))
}

/// Deterministically convert the components of an object path of the storage to the related
/// CID: its last two components, joined, are the text of the CID. This is the inverse of
/// [`storage_cid_to_object_path`]. `path_text` is the path as a text, for the error message.
pub fn storage_object_path_to_cid(path: &Vec<String>, path_text: &str) -> (r: Result<Vec<u8>, StorageError>)
    ensures
        !spec_storage_path_names(view_path(path@)) ==> r is Err && (r->Err_0 matches StorageError::WrongObjectPath(p) && p@ == path_text@),
        spec_storage_path_names(view_path(path@)) ==> match spec_storage_object_path_to_cid(view_path(path@)) {
            Some(c) => r is Ok && r->Ok_0@ == c,
            None => r is Err && (r->Err_0 matches StorageError::FailedToParseCid(t)
                && t@ == path@[path.len() - 2]@ + path@[path.len() - 1]@),
        },
{
    if path.len() < 2 || !names_a_file(path[path.len() - 1].as_str()) || !names_a_file(path[path.len() - 2].as_str()) {
        proof {
            if path.len() >= 2 {
                assert(view_path(path@).drop_last() =~= view_path(path@.drop_last()));
            }
        }
        return Err(StorageError::WrongObjectPath(String::from_str(path_text)));
    }
    proof { assert(view_path(path@).drop_last() =~= view_path(path@.drop_last())); }
    let mut cid_str = path[path.len() - 2].clone();
    cid_str.append(path[path.len() - 1].as_str());
    match cid_from_text(cid_str.as_str()) {
        Some(c) => Ok(c),
        None => Err(StorageError::FailedToParseCid(cid_str)),
    }
}

} // verus!
