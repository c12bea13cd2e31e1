//! Reading the structure of Holium CBOR data: headers, sizes, and the tree of major types.
use vstd::prelude::*;
use crate::cbor_errors::{CborError, ParseError};
use crate::major_type::{MajorType, RecursiveType, ScalarType, SpecMajorType, SpecRecursiveType, recursive_of, spec_next_offset, spec_details, spec_complete, sizes_sum, view_seq, lemma_view_seq, lemma_view_seq_push};

verus! {

broadcast use vstd::std_specs::vec::group_vec_axioms;

/// The byte at position `p` of `s`, or `0` past its end (reading past the end of the data
/// leaves the read buffer zeroed).
pub open spec fn byte_at(s: Seq<u8>, p: int) -> u8 {
    if 0 <= p < s.len() { s[p] } else { 0 }
}

/// Big-endian value of the `n` bytes of `s` starting at `p`.
pub open spec fn be_value(s: Seq<u8>, p: int, n: nat) -> nat
    decreases n,
{
    if n == 0 { 0 } else { be_value(s, p, (n - 1) as nat) * 256 + byte_at(s, p + n - 1) as nat }
}

/// Number of additional bytes holding a length, for data details `24..=27`.
pub open spec fn additional_bytes(dd: u8) -> nat {
    if dd == 24 { 1 } else if dd == 25 { 2 } else if dd == 26 { 4 } else { 8 }
}

/// Smallest length that may be written with `n` additional bytes in a well encoded header.
pub open spec fn min_encoded_size(n: nat) -> nat {
    if n == 1 { 24 } else if n == 2 { 0x100 } else if n == 4 { 0x10000 } else { 0x1_0000_0000 }
}

/// Data offset and data size announced by a header: for integers the data holds the value,
/// for strings its bytes, for arrays and maps their elements. Length bytes that lie past the end
/// of the data cannot be read.
pub open spec fn spec_read_data_size(s: Seq<u8>, major_type: u8, header_offset: u64, data_details: u8)
    -> Result<(Option<u64>, u64), ParseError>
{
    if major_type == 0 || major_type == 1 {
        if data_details <= 23 {
            Ok((Some(header_offset), 1))
        } else if data_details <= 27 {
            if header_offset + 1 > u64::MAX {
                Err(ParseError::OffsetOverflow)
            } else {
                Ok((Some((header_offset + 1) as u64), additional_bytes(data_details) as u64))
            }
        } else {
            Err(ParseError::UnhandledDataDetails)
        }
    } else if 2 <= major_type <= 5 {
        if data_details == 0 {
            Ok((None, 0))
        } else if data_details <= 23 {
            if header_offset + 1 > u64::MAX {
                Err(ParseError::OffsetOverflow)
            } else {
                Ok((Some((header_offset + 1) as u64), data_details as u64))
            }
        } else if data_details <= 27 {
            let n = additional_bytes(data_details);
            let size = be_value(s, header_offset + 1, n);
            if header_offset + 1 > u64::MAX {
                Err(ParseError::OffsetOverflow)
            } else if header_offset + 1 + n > s.len() {
                Err(ParseError::NonReadableByte((header_offset + 1) as u64))
            } else if size < min_encoded_size(n) {
                Err(ParseError::BadCborHeader)
            } else if header_offset + 1 + n > u64::MAX {
                Err(ParseError::OffsetOverflow)
            } else {
                Ok((Some((header_offset + 1 + n) as u64), size as u64))
            }
        } else {
            Err(ParseError::UnhandledDataDetails)
        }
    } else if major_type == 7 {
        Ok((Some(header_offset), 1))
    } else {
        Err(ParseError::NonExistingMajorType)
    }
}

/// The major type whose header starts at `header_offset`, with no element details yet. A header
/// that starts past the end of the data cannot be read.
pub open spec fn spec_read_header(s: Seq<u8>, header_offset: u64) -> Result<SpecMajorType, ParseError> {
    if header_offset >= s.len() {
        Err(ParseError::NonReadableByte(header_offset))
    } else {
        spec_read_header_at(s, header_offset)
    }
}

/// The major type whose header starts at `header_offset`, a position inside the data.
pub open spec fn spec_read_header_at(s: Seq<u8>, header_offset: u64) -> Result<SpecMajorType, ParseError> {
    let first = byte_at(s, header_offset as int);
    let major_type = first >> 5;
    let data_details = first & 0x1f;
    match spec_read_data_size(s, major_type, header_offset, data_details) {
        Err(e) => Err(e),
        Ok((data_offset, data_size)) => {
            let scalar = ScalarType { header_offset, data_offset, data_size };
            if major_type == 0 {
                Ok(SpecMajorType::Unsigned(scalar))
            } else if major_type == 1 {
                Ok(SpecMajorType::Negative(scalar))
            } else if major_type == 2 {
                Ok(SpecMajorType::Bytes(scalar))
            } else if major_type == 3 {
                Ok(SpecMajorType::String(scalar))
            } else if major_type == 4 {
                Ok(SpecMajorType::Array(SpecRecursiveType {
                    header_offset, data_offset, nbr_elements: data_size as usize, elements: Seq::empty() }))
            } else if major_type == 5 {
                if (data_size as usize) * 2 > usize::MAX {
                    Err(ParseError::OffsetOverflow)
                } else {
                    Ok(SpecMajorType::Mapping(SpecRecursiveType {
                        header_offset, data_offset, nbr_elements: ((data_size as usize) * 2) as usize, elements: Seq::empty() }))
                }
            } else if major_type == 7 {
                Ok(SpecMajorType::SimpleValues(scalar))
            } else {
                Err(ParseError::NonExistingMajorType)
            }
        },
    }
}

/// Bytes of `s` from position `p` on, `0` once past its end.
pub open spec fn remaining(s: Seq<u8>, p: int) -> nat {
    if p < s.len() { (s.len() - p) as nat } else { 0 }
}

/// The recursive details of `m` with its elements replaced.
pub open spec fn with_elements(m: SpecMajorType, es: Seq<SpecMajorType>) -> SpecMajorType {
    match m {
        SpecMajorType::Array(r) => SpecMajorType::Array(SpecRecursiveType { elements: es, ..r }),
        SpecMajorType::Mapping(r) => SpecMajorType::Mapping(SpecRecursiveType { elements: es, ..r }),
        _ => m,
    }
}

/// The complete structure of the item whose header starts at `header_offset`.
pub open spec fn spec_parse_item(s: Seq<u8>, header_offset: u64) -> Result<SpecMajorType, ParseError>
    decreases remaining(s, header_offset as int), 2nat, 0nat,
{
    match spec_read_header(s, header_offset) {
        Err(e) => Err(e),
        Ok(m) => match recursive_of(m) {
            None => Ok(m),
            Some(r) => if r.nbr_elements == 0 {
                Ok(m)
            } else {
                match spec_parse_elements(s, r.data_offset.unwrap(), r.nbr_elements as nat, header_offset) {
                    Err(e) => Err(e),
                    Ok(es) => Ok(with_elements(m, es)),
                }
            },
        },
    }
}

/// The complete structures of `n` consecutive items, the first one starting at `p`, that are
/// elements of the array or map whose header is at `parent`. The items lie after their parent's
/// header (`p <= parent` never occurs, see `lemma_parse_positions`).
pub open spec fn spec_parse_elements(s: Seq<u8>, p: u64, n: nat, parent: u64) -> Result<Seq<SpecMajorType>, ParseError>
    decreases remaining(s, parent as int), 1nat, n,
{
    if n == 0 {
        Ok(Seq::empty())
    } else if p <= parent || parent >= s.len() {
        Err(ParseError::FailToSeekToOffset)
    } else {
        match spec_parse_item(s, p) {
            Err(e) => Err(e),
            Ok(item) => match spec_next_offset(item) {
                None => Err(ParseError::OffsetOverflow),
                Some(next) => match spec_parse_elements(s, next as u64, (n - 1) as nat, parent) {
                    Err(e) => Err(e),
                    Ok(rest) => Ok(seq![item] + rest),
                },
            },
        }
    }
}

/// The complete structure of a Holium CBOR value, whose root must be an array.
pub open spec fn spec_complete_cbor_structure(s: Seq<u8>) -> Result<SpecMajorType, ParseError> {
    match spec_read_header(s, 0) {
        Err(e) => Err(e),
        Ok(m) => if m is Array { spec_parse_item(s, 0) } else { Err(ParseError::RootNotArray) },
    }
}


/// The byte at position `base + i` of `s`, `0` past its end.
fn byte_after(s: &[u8], base: u64, i: u64) -> (b: u8)
    ensures b == byte_at(s@, base + i),
{
    let len = s.len() as u64;
    if base < len && i < len - base {
        s[(base + i) as usize]
    } else {
        0
    }
}

proof fn lemma_be_value_bound(s: Seq<u8>, p: int, n: nat)
    ensures be_value(s, p, n) < vstd::arithmetic::power2::pow2(8 * n),
    decreases n,
{
    vstd::arithmetic::power2::lemma2_to64();
    if n > 0 {
        lemma_be_value_bound(s, p, (n - 1) as nat);
        let prev = be_value(s, p, (n - 1) as nat);
        let pw = vstd::arithmetic::power2::pow2((8 * (n - 1)) as nat);
        vstd::arithmetic::power2::lemma_pow2_adds((8 * (n - 1)) as nat, 8);
        assert((8 * (n - 1)) as nat + 8 == 8 * n);
        assert(prev * 256 + 255 < pw * 256) by (nonlinear_arith)
            requires prev < pw, prev >= 0;
    }
}

/// Read the data size from the data details of a cbor header. Returns the data offset and the
/// data length: a value length in bytes, or a number of elements.
pub fn read_data_size(s: &[u8], major_type: u8, header_offset: u64, data_details: u8)
    -> (r: Result<(Option<u64>, u64), ParseError>)
    ensures r == spec_read_data_size(s@, major_type, header_offset, data_details),
{
    match major_type {
        0 | 1 => match data_details {
            0..=23 => Ok((Some(header_offset), 1)),
            24..=27 => {
                if header_offset == u64::MAX {
                    return Err(ParseError::OffsetOverflow);
                }
                let size: u64 = match data_details {
                    24 => 1,
                    25 => 2,
                    26 => 4,
                    _ => 8,
                };
                Ok((Some(header_offset + 1), size))
            },
            _ => Err(ParseError::UnhandledDataDetails),
        },
        2 | 3 | 4 | 5 => {
            // As specified in CBOR, if sum of leftover bits >= 24 then information can be found on other bytes
            let additional_bytes_to_read: u64 = match data_details {
                0 => return Ok((None, data_details as u64)),
                1..=23 => {
                    if header_offset == u64::MAX {
                        return Err(ParseError::OffsetOverflow);
                    }
                    return Ok((Some(header_offset + 1), data_details as u64));
                },
                24 => 1,
                25 => 2,
                26 => 4,
                27 => 8,
                _ => return Err(ParseError::UnhandledDataDetails),
            };
            if header_offset == u64::MAX {
                return Err(ParseError::OffsetOverflow);
            }
            let complementary_bytes_offset = header_offset + 1;
            // The length bytes must lie inside the data
            let len = s.len() as u64;
            if complementary_bytes_offset > len || additional_bytes_to_read > len - complementary_bytes_offset {
                return Err(ParseError::NonReadableByte(complementary_bytes_offset));
            }
            // Calculate data size based on bytes, big-endian
            let mut data_size: u64 = 0;
            let mut i: u64 = 0;
            while i < additional_bytes_to_read
                invariant
                    i <= additional_bytes_to_read <= 8,
                    additional_bytes_to_read == additional_bytes(data_details),
                    complementary_bytes_offset == header_offset + 1,
                    data_size as nat == be_value(s@, complementary_bytes_offset as int, i as nat),
                decreases additional_bytes_to_read - i,
            {
                let byte = byte_after(s, complementary_bytes_offset, i);
                proof {
                    lemma_be_value_bound(s@, complementary_bytes_offset as int, i as nat);
                    vstd::arithmetic::power2::lemma_pow2_adds(8 * i as nat, 8);
                    if 8 * (i + 1) < 64 { vstd::arithmetic::power2::lemma_pow2_strictly_increases(8 * (i + 1) as nat, 64); }
                    vstd::arithmetic::power2::lemma2_to64();
                    let pw = vstd::arithmetic::power2::pow2(8 * i as nat);
                    assert(data_size * 256 + byte < pw * 256) by (nonlinear_arith)
                        requires data_size < pw, byte < 256;
                }
                data_size = data_size * 256 + byte as u64;
                i = i + 1;
            }
            // If cbor header badly encoded return error
            let min_size: u64 = match additional_bytes_to_read {
                1 => 24,
                2 => 0x100,
                4 => 0x10000,
                _ => 0x1_0000_0000,
            };
            if data_size < min_size {
                Err(ParseError::BadCborHeader)
            } else if complementary_bytes_offset > u64::MAX - additional_bytes_to_read {
                Err(ParseError::OffsetOverflow)
            } else {
                let data_offset = complementary_bytes_offset + additional_bytes_to_read;
                Ok((Some(data_offset), data_size))
            }
        },
        7 => Ok((Some(header_offset), 1)),
        _ => Err(ParseError::NonExistingMajorType),
    }
}

/// Read the header starting at `header_offset`, returning its major type, its data offset and
/// size. Arrays and maps come with no element details.
pub fn read_header(s: &[u8], header_offset: u64) -> (r: Result<MajorType, ParseError>)
    ensures
        match spec_read_header(s@, header_offset) {
            Ok(m) => r is Ok && r->Ok_0@ == m,
            Err(e) => r == Err::<MajorType, ParseError>(e),
        },
{
    // read first byte
    if header_offset >= s.len() as u64 {
        return Err(ParseError::NonReadableByte(header_offset));
    }
    let first_byte = byte_after(s, header_offset, 0);
    // Major type information on first 3 bits
    let major_type_number = first_byte >> 5;
    // Retrieving value for 5 last bits, acceding to data details
    let data_details = first_byte & 0x1F;
    let (data_offset, data_size) = read_data_size(s, major_type_number, header_offset, data_details)?;
    proof {
        assert(first_byte >> 5 <= 7) by (bit_vector);
    }
    let scalar = ScalarType { header_offset, data_offset, data_size };
    // Retrieving major type from the first 3 bits
    match major_type_number {
        0 => Ok(MajorType::Unsigned(scalar)),
        1 => Ok(MajorType::Negative(scalar)),
        2 => Ok(MajorType::Bytes(scalar)),
        3 => Ok(MajorType::String(scalar)),
        4 => {
            let r = RecursiveType { header_offset, data_offset, nbr_elements: data_size as usize, elements: Vec::new() };
            proof { assert(view_seq(r.elements@) =~= Seq::empty()); }
            Ok(MajorType::Array(r))
        },
        5 => {
            let count = data_size as usize;
            if count > usize::MAX / 2 {
                return Err(ParseError::OffsetOverflow);
            }
            let r = RecursiveType { header_offset, data_offset, nbr_elements: count * 2, elements: Vec::new() };
            proof { assert(view_seq(r.elements@) =~= Seq::empty()); }
            Ok(MajorType::Mapping(r))
        },
        7 => Ok(MajorType::SimpleValues(scalar)),
        _ => Err(ParseError::NonExistingMajorType),
    }
}


pub open spec fn header_offset_of(m: SpecMajorType) -> u64 {
    match m {
        SpecMajorType::Unsigned(s) => s.header_offset,
        SpecMajorType::Negative(s) => s.header_offset,
        SpecMajorType::Bytes(s) => s.header_offset,
        SpecMajorType::String(s) => s.header_offset,
        SpecMajorType::SimpleValues(s) => s.header_offset,
        SpecMajorType::Array(r) => r.header_offset,
        SpecMajorType::Mapping(r) => r.header_offset,
    }
}

/// The major type read from a header is the one that the three high bits of its first byte
/// name, at the offset it was read from: 0 unsigned, 1 negative, 2 bytes, 3 text, 4 array,
/// 5 map, 7 simple values (6, tags, is never read).
pub proof fn law_header_major_type(s: Seq<u8>, p: u64)
    requires spec_read_header(s, p) is Ok,
    ensures ({
        let m = spec_read_header(s, p)->Ok_0;
        let high: int = s[p as int] as int / 32;
        &&& p < s.len()
        &&& header_offset_of(m) == p
        &&& (m is Unsigned <==> high == 0)
        &&& (m is Negative <==> high == 1)
        &&& (m is Bytes <==> high == 2)
        &&& (m is String <==> high == 3)
        &&& (m is Array <==> high == 4)
        &&& (m is Mapping <==> high == 5)
        &&& (m is SimpleValues <==> high == 7)
    }),
{
    let b: u8 = s[p as int];
    assert((b >> 5) as int == b as int / 32) by (bit_vector);
    assert(b as int / 32 <= 7);
}

/// An array or map header lies inside the data, and its elements, if any, start after it.
pub proof fn lemma_recursive_header(s: Seq<u8>, h: u64)
    requires
        spec_read_header(s, h) is Ok,
        recursive_of(spec_read_header(s, h)->Ok_0) is Some,
    ensures
        h < s.len(),
        ({
            let r = recursive_of(spec_read_header(s, h)->Ok_0).unwrap();
            &&& r.header_offset == h
            &&& r.elements.len() == 0
            &&& r.nbr_elements > 0 ==> r.data_offset is Some && r.data_offset.unwrap() > h
        }),
{
    let first = byte_at(s, h as int);
    if h >= s.len() {
        assert(first == 0);
        assert((0u8 >> 5) == 0) by (bit_vector);
    }
}

/// The header of a parsed item is where it was read, and the first byte after it lies further.
pub proof fn lemma_parse_item_positions(s: Seq<u8>, p: u64)
    requires spec_parse_item(s, p) is Ok,
    ensures
        header_offset_of(spec_parse_item(s, p)->Ok_0) == p,
        spec_next_offset(spec_parse_item(s, p)->Ok_0) is Some ==>
            spec_next_offset(spec_parse_item(s, p)->Ok_0).unwrap() > p,
    decreases remaining(s, p as int), 2nat, 0nat,
{
    let m = spec_read_header(s, p)->Ok_0;
    match recursive_of(m) {
        None => {},
        Some(r) => {
            lemma_recursive_header(s, p);
            if r.nbr_elements > 0 {
                lemma_parse_elements_positions(s, r.data_offset.unwrap(), r.nbr_elements as nat, p);
            }
        },
    }
}

/// Parsed elements come in the announced number, the first one where the elements start, and
/// the first byte after the last one lies after that.
pub proof fn lemma_parse_elements_positions(s: Seq<u8>, p: u64, n: nat, parent: u64)
    requires spec_parse_elements(s, p, n, parent) is Ok,
    ensures
        ({
            let es = spec_parse_elements(s, p, n, parent)->Ok_0;
            &&& es.len() == n
            &&& n > 0 ==> header_offset_of(es[0]) == p
            &&& n > 0 ==> spec_next_offset(es.last()) is Some && spec_next_offset(es.last()).unwrap() > p
        }),
    decreases remaining(s, parent as int), 1nat, n,
{
    if n > 0 {
        let item = spec_parse_item(s, p)->Ok_0;
        lemma_parse_item_positions(s, p);
        let next = spec_next_offset(item).unwrap();
        crate::major_type::lemma_next_offset_fits(item);
        lemma_parse_elements_positions(s, next as u64, (n - 1) as nat, parent);
        let rest = spec_parse_elements(s, next as u64, (n - 1) as nat, parent)->Ok_0;
        let es = seq![item] + rest;
        if n > 1 {
            assert(es.last() == rest.last());
        } else {
            assert(es.last() == item);
        }
    }
}

/// A parsed item holds, at every depth, all the elements its arrays and maps announce.
pub proof fn lemma_parsed_item_complete(s: Seq<u8>, p: u64)
    requires spec_parse_item(s, p) is Ok,
    ensures spec_complete(spec_parse_item(s, p)->Ok_0),
    decreases remaining(s, p as int), 2nat, 0nat,
{
    let m = spec_read_header(s, p)->Ok_0;
    match recursive_of(m) {
        None => {},
        Some(r) => {
            lemma_recursive_header(s, p);
            if r.nbr_elements > 0 {
                let es = spec_parse_elements(s, r.data_offset.unwrap(), r.nbr_elements as nat, p)->Ok_0;
                lemma_parse_elements_positions(s, r.data_offset.unwrap(), r.nbr_elements as nat, p);
                lemma_parsed_elements_complete(s, r.data_offset.unwrap(), r.nbr_elements as nat, p);
                let w = with_elements(m, es);
                assert(recursive_of(w) is Some && recursive_of(w).unwrap().elements == es);
                assert(forall|i: int| 0 <= i < es.len() ==> spec_complete(#[trigger] es[i]));
            }
        },
    }
}

/// Parsed elements each hold all the elements they announce.
pub proof fn lemma_parsed_elements_complete(s: Seq<u8>, p: u64, n: nat, parent: u64)
    requires spec_parse_elements(s, p, n, parent) is Ok,
    ensures forall|i: int| 0 <= i < spec_parse_elements(s, p, n, parent)->Ok_0.len()
        ==> spec_complete(#[trigger] spec_parse_elements(s, p, n, parent)->Ok_0[i]),
    decreases remaining(s, parent as int), 1nat, n,
{
    if n > 0 {
        let item = spec_parse_item(s, p)->Ok_0;
        lemma_parsed_item_complete(s, p);
        let next = spec_next_offset(item).unwrap();
        crate::major_type::lemma_next_offset_fits(item);
        lemma_parsed_elements_complete(s, next as u64, (n - 1) as nat, parent);
        let rest = spec_parse_elements(s, next as u64, (n - 1) as nat, parent)->Ok_0;
        let es = seq![item] + rest;
        assert forall|i: int| 0 <= i < es.len() implies spec_complete(#[trigger] es[i]) by {
            if i > 0 {
                assert(es[i] == rest[i - 1]);
            }
        }
    }
}

/// The complete structure of Holium CBOR data holds, at every depth, all the elements its arrays
/// and maps announce; selecting in it with a selector whose ranges are ordered never panics.
pub proof fn law_read_structure_selectable(s: Seq<u8>, sel: crate::selector::Selector)
    requires
        spec_complete_cbor_structure(s) is Ok,
        crate::major_type::ranges_ordered(sel),
    ensures
        spec_complete(spec_complete_cbor_structure(s)->Ok_0),
        crate::major_type::spec_select(spec_complete_cbor_structure(s)->Ok_0, sel) is Some,
{
    lemma_parsed_item_complete(s, 0);
    crate::major_type::law_selection_defined(spec_complete_cbor_structure(s)->Ok_0, sel);
}

/// The offsets and sizes of a structure, at every depth, fit in a `usize` (always so where `usize`
/// has 64 bits).
pub open spec fn offsets_in_usize(m: SpecMajorType) -> bool
    decreases m,
{
    match recursive_of(m) {
        Some(r) => (r.data_offset is Some ==> r.data_offset.unwrap() - r.header_offset <= usize::MAX)
            && forall|i: int| 0 <= i < r.elements.len() ==> offsets_in_usize(#[trigger] r.elements[i]),
        None => {
            let sc = scalar_of(m);
            sc.data_offset is Some ==> sc.data_offset.unwrap() + sc.data_size - sc.header_offset <= usize::MAX
        },
    }
}

/// The scalar details of a scalar major type.
pub open spec fn scalar_of(m: SpecMajorType) -> ScalarType {
    match m {
        SpecMajorType::Unsigned(sc) => sc,
        SpecMajorType::Negative(sc) => sc,
        SpecMajorType::Bytes(sc) => sc,
        SpecMajorType::String(sc) => sc,
        SpecMajorType::SimpleValues(sc) => sc,
        SpecMajorType::Array(r) => ScalarType { header_offset: r.header_offset, data_offset: r.data_offset, data_size: 0 },
        SpecMajorType::Mapping(r) => ScalarType { header_offset: r.header_offset, data_offset: r.data_offset, data_size: 0 },
    }
}

/// The bytes a described major type spans end where the next item starts.
pub open spec fn details_end_at_next(m: SpecMajorType) -> bool {
    spec_details(m) is Some && spec_next_offset(m) is Some && offsets_in_usize(m)
        ==> spec_details(m).unwrap().0 == header_offset_of(m)
            && header_offset_of(m) + spec_details(m).unwrap().1 == spec_next_offset(m).unwrap()
}

/// Parsed elements lie one after the other: each starts where the one before it ends.
proof fn lemma_parsed_elements_contiguous(s: Seq<u8>, p: u64, n: nat, parent: u64)
    requires spec_parse_elements(s, p, n, parent) is Ok,
    ensures ({
        let es = spec_parse_elements(s, p, n, parent)->Ok_0;
        &&& forall|i: int| 0 <= i < es.len() ==> (#[trigger] spec_next_offset(es[i])) is Some
        &&& forall|i: int| 0 <= i < es.len() - 1 ==> header_offset_of(#[trigger] es[i + 1]) == spec_next_offset(es[i]).unwrap()
    }),
    decreases n,
{
    if n > 0 {
        let item = spec_parse_item(s, p)->Ok_0;
        let next = spec_next_offset(item).unwrap();
        crate::major_type::lemma_next_offset_fits(item);
        lemma_parsed_elements_contiguous(s, next as u64, (n - 1) as nat, parent);
        lemma_parse_elements_positions(s, next as u64, (n - 1) as nat, parent);
        let rest = spec_parse_elements(s, next as u64, (n - 1) as nat, parent)->Ok_0;
        let es = seq![item] + rest;
        assert forall|i: int| 0 <= i < es.len() implies (#[trigger] spec_next_offset(es[i])) is Some by {
            if i > 0 { assert(es[i] == rest[i - 1]); }
        }
        assert forall|i: int| 0 <= i < es.len() - 1 implies header_offset_of(#[trigger] es[i + 1]) == spec_next_offset(es[i]).unwrap() by {
            assert(es[i + 1] == rest[i]);
            if i > 0 {
                assert(es[i] == rest[i - 1]);
                let k = i - 1;
                assert(header_offset_of(rest[k + 1]) == spec_next_offset(rest[k]).unwrap());
            } else {
                assert(es[0] == item);
                assert(header_offset_of(rest[0]) == next as u64);
            }
        }
    }
}

/// The sizes of elements that lie one after the other, added to the distance from a header to
/// the first of them, reach the end of the last one.
proof fn lemma_sizes_reach_next(h: int, acc: int, es: Seq<SpecMajorType>)
    requires
        es.len() >= 1,
        h + acc == header_offset_of(es[0]),
        sizes_sum(acc, es) is Some,
        forall|i: int| 0 <= i < es.len() ==> (#[trigger] spec_next_offset(es[i])) is Some,
        forall|i: int| 0 <= i < es.len() - 1 ==> header_offset_of(#[trigger] es[i + 1]) == spec_next_offset(es[i]).unwrap(),
        forall|i: int| 0 <= i < es.len() ==> details_end_at_next(#[trigger] es[i]) && offsets_in_usize(es[i]),
    ensures h + sizes_sum(acc, es).unwrap() == spec_next_offset(es.last()).unwrap(),
    decreases es.len(),
{
    let d = es.drop_last();
    let last = es.last();
    assert(details_end_at_next(es[es.len() - 1]) && offsets_in_usize(es[es.len() - 1]));
    assert(spec_next_offset(es[es.len() - 1]) is Some);
    if es.len() == 1 {
        assert(d =~= Seq::<SpecMajorType>::empty());
        assert(sizes_sum(acc, d) == Some(acc));
    } else {
        assert forall|i: int| 0 <= i < d.len() implies (#[trigger] spec_next_offset(d[i])) is Some by { assert(d[i] == es[i]); }
        assert forall|i: int| 0 <= i < d.len() - 1 implies header_offset_of(#[trigger] d[i + 1]) == spec_next_offset(d[i]).unwrap() by {
            assert(d[i] == es[i]); assert(d[i + 1] == es[i + 1]);
        }
        assert forall|i: int| 0 <= i < d.len() implies details_end_at_next(#[trigger] d[i]) && offsets_in_usize(d[i]) by { assert(d[i] == es[i]); }
        assert(d[0] == es[0]);
        lemma_sizes_reach_next(h, acc, d);
        let j = es.len() - 2;
        assert(header_offset_of(es[j + 1]) == spec_next_offset(es[j]).unwrap());
        assert(d.last() == es[es.len() - 2]);
    }
}

/// The bytes that the details of a parsed item span end where the item ends: its header offset
/// plus its size is its next offset.
pub proof fn law_parsed_details_end_at_next_offset(s: Seq<u8>, p: u64)
    requires spec_parse_item(s, p) is Ok,
    ensures details_end_at_next(spec_parse_item(s, p)->Ok_0),
    decreases remaining(s, p as int), 2nat, 0nat,
{
    let m = spec_read_header(s, p)->Ok_0;
    let full = spec_parse_item(s, p)->Ok_0;
    match recursive_of(m) {
        None => {},
        Some(r) => {
            lemma_recursive_header(s, p);
            if r.nbr_elements > 0 {
                let d = r.data_offset.unwrap();
                let n = r.nbr_elements as nat;
                let es = spec_parse_elements(s, d, n, p)->Ok_0;
                lemma_parse_elements_positions(s, d, n, p);
                lemma_parsed_elements_contiguous(s, d, n, p);
                lemma_parsed_elements_end_at_next(s, d, n, p);
                let rf = recursive_of(full).unwrap();
                assert(rf.elements == es && rf.header_offset == p && rf.data_offset == Some(d) && rf.nbr_elements == r.nbr_elements);
                if spec_details(full) is Some && spec_next_offset(full) is Some && offsets_in_usize(full) {
                    assert(d - p <= usize::MAX);
                    let acc = ((d - p) as u64) as usize as int;
                    assert(acc == d - p);
                    assert forall|i: int| 0 <= i < es.len() implies details_end_at_next(#[trigger] es[i]) && offsets_in_usize(es[i]) by {
                        assert(offsets_in_usize(rf.elements[i]));
                    }
                    lemma_sizes_reach_next(p as int, acc, es);
                }
            }
        },
    }
}

/// The position right after the definite-length CBOR data item that starts at `p` in `s`, for
/// an item made of unsigned and negative integers, byte and text strings, arrays, maps and simple
/// values below 24 (no tag, no float, no indefinite length); `None` where no such item starts at
/// `p` and ends within `s`.
pub open spec fn cbor_item_end(s: Seq<u8>, p: int) -> Option<int>
    decreases remaining(s, p), 0nat, 0nat,
{
    if p < 0 || p >= s.len() {
        None
    } else {
        let first: u8 = byte_at(s, p);
        let major_type: u8 = first >> 5;
        let data_details: u8 = first & 0x1f;
        if data_details > 27 {
            None
        } else {
            let n: nat = if data_details <= 23 { 0 } else { additional_bytes(data_details) };
            let arg: nat = if data_details <= 23 { data_details as nat } else { be_value(s, p + 1, n) };
            let body: int = p + 1 + n;
            if body > s.len() {
                None
            } else if major_type == 0 || major_type == 1 {
                Some(body)
            } else if major_type == 2 || major_type == 3 {
                if body + arg <= s.len() { Some(body + arg) } else { None }
            } else if major_type == 4 {
                cbor_elements_end(s, body, arg)
            } else if major_type == 5 {
                cbor_elements_end(s, body, 2 * arg)
            } else if major_type == 7 && data_details <= 23 {
                Some(body)
            } else {
                None
            }
        }
    }
}

/// The position right after `n` consecutive CBOR data items, the first one starting at `q`, each
/// of the kind [`cbor_item_end`] describes.
pub open spec fn cbor_elements_end(s: Seq<u8>, q: int, n: nat) -> Option<int>
    decreases remaining(s, q), 1nat, n,
{
    if n == 0 {
        Some(q)
    } else if q < 0 || q >= s.len() {
        None
    } else {
        match cbor_item_end(s, q) {
            None => None,
            Some(e) => if e <= q { None } else { cbor_elements_end(s, e, (n - 1) as nat) },
        }
    }
}

/// A CBOR data item ends after it starts, within the data.
proof fn lemma_item_end_bounds(s: Seq<u8>, p: int)
    ensures cbor_item_end(s, p) matches Some(e) ==> p < e <= s.len(),
    decreases remaining(s, p), 0nat, 0nat,
{
    if 0 <= p < s.len() {
        let first: u8 = byte_at(s, p);
        let data_details: u8 = first & 0x1f;
        if data_details <= 27 {
            let n: nat = if data_details <= 23 { 0 } else { additional_bytes(data_details) };
            let arg: nat = if data_details <= 23 { data_details as nat } else { be_value(s, p + 1, n) };
            let body: int = p + 1 + n;
            if body <= s.len() {
                lemma_elements_end_bounds(s, body, arg);
                lemma_elements_end_bounds(s, body, 2 * arg);
            }
        }
    }
}

/// Consecutive CBOR data items take at least one byte each, within the data.
proof fn lemma_elements_end_bounds(s: Seq<u8>, q: int, n: nat)
    ensures cbor_elements_end(s, q, n) matches Some(e) ==> q + n <= e && (n == 0 || e <= s.len()),
    decreases remaining(s, q), 1nat, n,
{
    if n > 0 && 0 <= q < s.len() {
        lemma_item_end_bounds(s, q);
        match cbor_item_end(s, q) {
            Some(e) => if e > q {
                lemma_elements_end_bounds(s, e, (n - 1) as nat);
            },
            None => {},
        }
    }
}

/// The offset after a structure parsed from one CBOR data item is where the item ends: for an
/// item made of integers, strings, arrays, maps and simple values below 24, read at `p` in data
/// no longer than `usize::MAX` bytes, `next_offset` of the parsed structure is the end of the item.
/// In data that holds exactly one such item (`cbor_item_end(s, 0) == Some(s.len())`), it is the
/// length of the data.
pub proof fn law_next_offset_is_item_end(s: Seq<u8>, p: u64)
    requires
        s.len() <= usize::MAX,
        spec_parse_item(s, p) is Ok,
        cbor_item_end(s, p as int) is Some,
    ensures spec_next_offset(spec_parse_item(s, p)->Ok_0) == cbor_item_end(s, p as int),
    decreases remaining(s, p as int), 2nat, 0nat,
{
    let m = spec_read_header(s, p)->Ok_0;
    match recursive_of(m) {
        None => {},
        Some(r) => {
            lemma_recursive_header(s, p);
            lemma_recursive_item_end(s, p);
            if r.nbr_elements > 0 {
                lemma_elements_end(s, r.data_offset.unwrap(), r.nbr_elements as nat, p);
            }
        },
    }
}

/// The end of an array or map item is the end of its elements, which start at its data offset.
proof fn lemma_recursive_item_end(s: Seq<u8>, p: u64)
    requires
        s.len() <= usize::MAX,
        spec_read_header(s, p) is Ok,
        recursive_of(spec_read_header(s, p)->Ok_0) is Some,
        cbor_item_end(s, p as int) is Some,
    ensures ({
        let r = recursive_of(spec_read_header(s, p)->Ok_0).unwrap();
        &&& r.nbr_elements == 0 ==> cbor_item_end(s, p as int) == Some(p + 1)
        &&& r.nbr_elements > 0 ==> cbor_elements_end(s, r.data_offset.unwrap() as int, r.nbr_elements as nat) == cbor_item_end(s, p as int)
    }),
{
    let m = spec_read_header(s, p)->Ok_0;
    let r = recursive_of(m).unwrap();
    let first: u8 = byte_at(s, p as int);
    let major_type: u8 = first >> 5;
    let data_details: u8 = first & 0x1f;
    lemma_recursive_header(s, p);
    let n: nat = if data_details <= 23 { 0 } else { additional_bytes(data_details) };
    let arg: nat = if data_details <= 23 { data_details as nat } else { be_value(s, p + 1, n) };
    let body: int = p + 1 + n;
    lemma_item_end_bounds(s, p as int);
    if major_type == 4 {
        lemma_elements_end_bounds(s, body, arg);
    } else if major_type == 5 {
        lemma_elements_end_bounds(s, body, 2 * arg);
    }
    assert(arg <= usize::MAX);
    if r.nbr_elements == 0 {
        assert(data_details == 0);
    } else {
        let d = r.data_offset.unwrap();
        assert(d == body);
        if major_type == 4 {
            assert(r.nbr_elements == arg);
        } else {
            assert(major_type == 5);
            assert(r.nbr_elements == 2 * arg);
        }
    }
}

proof fn lemma_elements_end(s: Seq<u8>, q: u64, n: nat, parent: u64)
    requires
        s.len() <= usize::MAX,
        n > 0,
        spec_parse_elements(s, q, n, parent) is Ok,
        cbor_elements_end(s, q as int, n) is Some,
    ensures
        spec_parse_elements(s, q, n, parent)->Ok_0.len() == n,
        spec_next_offset(spec_parse_elements(s, q, n, parent)->Ok_0.last()) == cbor_elements_end(s, q as int, n),
    decreases remaining(s, parent as int), 1nat, n,
{
    let item = spec_parse_item(s, q)->Ok_0;
    law_next_offset_is_item_end(s, q);
    let next = spec_next_offset(item).unwrap();
    crate::major_type::lemma_next_offset_fits(item);
    lemma_parse_elements_positions(s, q, n, parent);
    let rest = spec_parse_elements(s, next as u64, (n - 1) as nat, parent)->Ok_0;
    let es = seq![item] + rest;
    if n > 1 {
        lemma_elements_end(s, next as u64, (n - 1) as nat, parent);
        assert(es.last() == rest.last());
    } else {
        assert(es.last() == item);
    }
}

/// The sizes of elements that lie one after the other, each of the size from its header to where
/// it ends, added to the distance from a header to the first of them, reach the end of the last one
/// without exceeding `usize::MAX` on the way.
proof fn lemma_sizes_sum_of_contiguous(h: int, acc: int, es: Seq<SpecMajorType>)
    requires
        es.len() >= 1,
        0 <= acc,
        h + acc == header_offset_of(es[0]),
        forall|i: int| 0 <= i < es.len() ==> (#[trigger] spec_next_offset(es[i])) is Some
            && spec_next_offset(es[i]).unwrap() > header_offset_of(es[i])
            && spec_details(es[i]) == Some((header_offset_of(es[i]), spec_next_offset(es[i]).unwrap() - header_offset_of(es[i]))),
        forall|i: int| 0 <= i < es.len() - 1 ==> header_offset_of(#[trigger] es[i + 1]) == spec_next_offset(es[i]).unwrap(),
        spec_next_offset(es.last()).unwrap() - h <= usize::MAX,
    ensures sizes_sum(acc, es) == Some(spec_next_offset(es.last()).unwrap() - h),
    decreases es.len(),
{
    let d = es.drop_last();
    let k = es.len() - 1;
    assert(spec_next_offset(es[k]) is Some);
    if es.len() == 1 {
        assert(d =~= Seq::<SpecMajorType>::empty());
    } else {
        assert forall|i: int| 0 <= i < d.len() implies (#[trigger] spec_next_offset(d[i])) is Some
            && spec_next_offset(d[i]).unwrap() > header_offset_of(d[i])
            && spec_details(d[i]) == Some((header_offset_of(d[i]), spec_next_offset(d[i]).unwrap() - header_offset_of(d[i]))) by {
            assert(d[i] == es[i]);
        }
        assert forall|i: int| 0 <= i < d.len() - 1 implies header_offset_of(#[trigger] d[i + 1]) == spec_next_offset(d[i]).unwrap() by {
            assert(d[i] == es[i]);
            assert(d[i + 1] == es[i + 1]);
        }
        assert(d[0] == es[0]);
        assert(d.last() == es[k - 1]);
        let j = k - 1;
        assert(header_offset_of(es[j + 1]) == spec_next_offset(es[j]).unwrap());
        lemma_sizes_sum_of_contiguous(h, acc, d);
    }
}

/// The details of a structure parsed from one CBOR data item span the item: they start at its
/// header and their size is the length of the item; its offsets all fit in a `usize`. This holds
/// for items of the kind [`cbor_item_end`] describes, read at `p` in data no longer than
/// `usize::MAX` bytes.
pub proof fn law_details_span_the_item(s: Seq<u8>, p: u64)
    requires
        s.len() <= usize::MAX,
        spec_parse_item(s, p) is Ok,
        cbor_item_end(s, p as int) is Some,
    ensures
        offsets_in_usize(spec_parse_item(s, p)->Ok_0),
        spec_details(spec_parse_item(s, p)->Ok_0) == Some((p, cbor_item_end(s, p as int).unwrap() - p)),
    decreases remaining(s, p as int), 2nat, 0nat,
{
    let m = spec_read_header(s, p)->Ok_0;
    let full = spec_parse_item(s, p)->Ok_0;
    let e = cbor_item_end(s, p as int).unwrap();
    law_next_offset_is_item_end(s, p);
    lemma_item_end_bounds(s, p as int);
    lemma_parse_item_positions(s, p);
    match recursive_of(m) {
        None => {},
        Some(r) => {
            lemma_recursive_header(s, p);
            if r.nbr_elements > 0 {
                let d = r.data_offset.unwrap();
                let n = r.nbr_elements as nat;
                let es = spec_parse_elements(s, d, n, p)->Ok_0;
                lemma_parse_elements_positions(s, d, n, p);
                lemma_parsed_elements_contiguous(s, d, n, p);
                lemma_recursive_item_end(s, p);
                lemma_elements_end(s, d, n, p);
                lemma_elements_details(s, d, n, p);
                let rf = recursive_of(full).unwrap();
                assert(rf.elements == es && rf.header_offset == p && rf.data_offset == Some(d) && rf.nbr_elements == r.nbr_elements);
                assert(d - p <= usize::MAX);
                let acc = ((d - p) as u64) as usize as int;
                assert(acc == d - p);
                lemma_sizes_sum_of_contiguous(p as int, acc, es);
                assert forall|i: int| 0 <= i < rf.elements.len() implies offsets_in_usize(#[trigger] rf.elements[i]) by {
                    assert(rf.elements[i] == es[i]);
                }
            }
        },
    }
}

proof fn lemma_elements_details(s: Seq<u8>, q: u64, n: nat, parent: u64)
    requires
        s.len() <= usize::MAX,
        spec_parse_elements(s, q, n, parent) is Ok,
        cbor_elements_end(s, q as int, n) is Some,
    ensures
        forall|i: int| 0 <= i < spec_parse_elements(s, q, n, parent)->Ok_0.len() ==> ({
            let x = #[trigger] spec_parse_elements(s, q, n, parent)->Ok_0[i];
            &&& offsets_in_usize(x)
            &&& spec_next_offset(x) is Some
            &&& spec_next_offset(x).unwrap() > header_offset_of(x)
            &&& spec_details(x) == Some((header_offset_of(x), spec_next_offset(x).unwrap() - header_offset_of(x)))
        }),
    decreases remaining(s, parent as int), 1nat, n,
{
    if n > 0 {
        let item = spec_parse_item(s, q)->Ok_0;
        law_details_span_the_item(s, q);
        law_next_offset_is_item_end(s, q);
        lemma_parse_item_positions(s, q);
        let next = spec_next_offset(item).unwrap();
        crate::major_type::lemma_next_offset_fits(item);
        let rest = spec_parse_elements(s, next as u64, (n - 1) as nat, parent)->Ok_0;
        lemma_elements_details(s, next as u64, (n - 1) as nat, parent);
        let es = seq![item] + rest;
        assert forall|i: int| 0 <= i < es.len() implies ({
            let x = #[trigger] es[i];
            &&& offsets_in_usize(x)
            &&& spec_next_offset(x) is Some
            &&& spec_next_offset(x).unwrap() > header_offset_of(x)
            &&& spec_details(x) == Some((header_offset_of(x), spec_next_offset(x).unwrap() - header_offset_of(x)))
        }) by {
            if i > 0 {
                assert(es[i] == rest[i - 1]);
            } else {
                assert(es[0] == item);
            }
        }
    }
}

/// Each parsed element's details end where it ends.
proof fn lemma_parsed_elements_end_at_next(s: Seq<u8>, p: u64, n: nat, parent: u64)
    requires spec_parse_elements(s, p, n, parent) is Ok,
    ensures forall|i: int| 0 <= i < spec_parse_elements(s, p, n, parent)->Ok_0.len()
        ==> details_end_at_next(#[trigger] spec_parse_elements(s, p, n, parent)->Ok_0[i]),
    decreases remaining(s, parent as int), 1nat, n,
{
    if n > 0 {
        let item = spec_parse_item(s, p)->Ok_0;
        law_parsed_details_end_at_next_offset(s, p);
        let next = spec_next_offset(item).unwrap();
        crate::major_type::lemma_next_offset_fits(item);
        lemma_parsed_elements_end_at_next(s, next as u64, (n - 1) as nat, parent);
        let rest = spec_parse_elements(s, next as u64, (n - 1) as nat, parent)->Ok_0;
        let es = seq![item] + rest;
        assert forall|i: int| 0 <= i < es.len() implies details_end_at_next(#[trigger] es[i]) by {
            if i > 0 { assert(es[i] == rest[i - 1]); }
        }
    }
}

/// Read the details of all elements of an array or a map, in order.
pub fn fetch_recursive_elements_detail(s: &[u8], recursive: &mut RecursiveType) -> (r: Result<(), ParseError>)
    requires
        old(recursive).elements@.len() == 0,
        old(recursive).nbr_elements > 0 ==> old(recursive).header_offset < s@.len()
            && old(recursive).data_offset is Some
            && old(recursive).data_offset.unwrap() > old(recursive).header_offset,
    ensures
        final(recursive).header_offset == old(recursive).header_offset,
        final(recursive).data_offset == old(recursive).data_offset,
        final(recursive).nbr_elements == old(recursive).nbr_elements,
        old(recursive).nbr_elements == 0 ==> r is Ok && final(recursive).elements@.len() == 0,
        old(recursive).nbr_elements > 0 ==> match spec_parse_elements(s@, old(recursive).data_offset.unwrap(),
            old(recursive).nbr_elements as nat, old(recursive).header_offset) {
            Ok(es) => r is Ok && view_seq(final(recursive).elements@) == es,
            Err(e) => r == Err::<(), ParseError>(e),
        },
    decreases remaining(s@, old(recursive).header_offset as int), 1nat,
{
    // if no elements are expected then return
    if recursive.nbr_elements == 0usize {
        return Ok(());
    }
    let h = recursive.header_offset;
    let n = recursive.nbr_elements;
    let d = recursive.data_offset.unwrap();
    let ghost full = spec_parse_elements(s@, d, n as nat, h);
    let mut pos: u64 = d;
    let mut i: usize = 0;
    proof {
        assert(view_seq(recursive.elements@) =~= Seq::empty());
        if spec_parse_elements(s@, pos, n as nat, h) is Ok {
            assert(Seq::<SpecMajorType>::empty() + spec_parse_elements(s@, pos, n as nat, h)->Ok_0
                =~= spec_parse_elements(s@, pos, n as nat, h)->Ok_0);
        }
    }
    while i < n
        invariant
            i <= n,
            n == recursive.nbr_elements,
            h == recursive.header_offset,
            h < s@.len(),
            pos > h,
            recursive.header_offset == old(recursive).header_offset,
            recursive.data_offset == old(recursive).data_offset,
            recursive.nbr_elements == old(recursive).nbr_elements,
            d == old(recursive).data_offset.unwrap(),
            full == spec_parse_elements(s@, d, n as nat, h),
            full == match spec_parse_elements(s@, pos, (n - i) as nat, h) {
                Err(e) => Err::<Seq<SpecMajorType>, ParseError>(e),
                Ok(rest) => Ok(view_seq(recursive.elements@) + rest),
            },
        decreases n - i,
    {
        // Get element details
        let element_major_type = parse_item(s, pos)?;
        proof { lemma_parse_item_positions(s@, pos); }
        let ghost prev = recursive.elements@;
        recursive.elements.push(element_major_type);
        proof { lemma_view_seq_push(prev, element_major_type); }
        // Set current position at next element offset
        let next_offset = match recursive.elements[recursive.elements.len() - 1].try_next_offset() {
            Some(o) => o,
            None => return Err(ParseError::OffsetOverflow),
        };
        proof {
            let rest = spec_parse_elements(s@, next_offset, (n - i - 1) as nat, h);
            if rest is Ok {
                assert(view_seq(prev) + (seq![element_major_type@] + rest->Ok_0)
                    =~= view_seq(recursive.elements@) + rest->Ok_0);
            }
        }
        pos = next_offset;
        i = i + 1;
    }
    proof {
        assert(view_seq(recursive.elements@) + Seq::<SpecMajorType>::empty() =~= view_seq(recursive.elements@));
    }
    Ok(())
}

/// Read the complete structure of the item whose header starts at `header_offset`.
pub fn parse_item(s: &[u8], header_offset: u64) -> (r: Result<MajorType, ParseError>)
    ensures
        match spec_parse_item(s@, header_offset) {
            Ok(m) => r is Ok && r->Ok_0@ == m,
            Err(e) => r == Err::<MajorType, ParseError>(e),
        },
    decreases remaining(s@, header_offset as int), 2nat,
{
    let major_type = read_header(s, header_offset)?;
    proof {
        if recursive_of(major_type@) is Some {
            lemma_recursive_header(s@, header_offset);
        }
    }
    match major_type {
        MajorType::Array(mut recursive) => {
            proof { lemma_view_seq(recursive.elements@); }
            fetch_recursive_elements_detail(s, &mut recursive)?;
            Ok(MajorType::Array(recursive))
        },
        MajorType::Mapping(mut recursive) => {
            proof { lemma_view_seq(recursive.elements@); }
            fetch_recursive_elements_detail(s, &mut recursive)?;
            Ok(MajorType::Mapping(recursive))
        },
        other => Ok(other),
    }
}

/// Give the entire description of a Holium CBOR serialized object, whose root must be an array.
pub fn complete_cbor_structure(s: &[u8]) -> (r: Result<MajorType, ParseError>)
    ensures
        match spec_complete_cbor_structure(s@) {
            Ok(m) => r is Ok && r->Ok_0@ == m,
            Err(e) => r == Err::<MajorType, ParseError>(e),
        },
{
    let major_type = read_header(s, 0)?;
    if !major_type.is_array() {
        return Err(ParseError::RootNotArray);
    }
    parse_item(s, 0)
}


/// The `size` bytes of `s` starting at `h`.
pub open spec fn spec_bytes_at(s: Seq<u8>, h: int, size: nat) -> Seq<u8> {
    Seq::new(size, |i: int| byte_at(s, h + i))
}

/// Whether the size of every described major type can be computed.
pub open spec fn retrieve_defined(sets: Seq<Seq<SpecMajorType>>) -> bool {
    forall|k: int, j: int| 0 <= k < sets.len() && 0 <= j < sets[k].len() ==> (#[trigger] spec_details(sets[k][j])) is Some
}

/// The bytes of each described major type, set by set.
pub open spec fn spec_retrieve(s: Seq<u8>, sets: Seq<Seq<SpecMajorType>>) -> Seq<Seq<Seq<u8>>> {
    Seq::new(sets.len(), |k: int| Seq::new(sets[k].len(), |j: int|
        spec_bytes_at(s, spec_details(sets[k][j]).unwrap().0 as int, spec_details(sets[k][j]).unwrap().1 as nat)))
}

/// Whether the bytes a described major type spans lie inside the data.
pub open spec fn item_readable(s: Seq<u8>, m: SpecMajorType) -> bool {
    spec_details(m).unwrap().0 + spec_details(m).unwrap().1 <= s.len()
}

/// The header offset of the first of the first `n` major types of a set whose bytes run past the
/// end of the data, if there is one.
pub open spec fn first_unreadable_in(s: Seq<u8>, set: Seq<SpecMajorType>, n: nat) -> Option<u64>
    decreases n,
{
    if n == 0 || n > set.len() {
        None
    } else {
        match first_unreadable_in(s, set, (n - 1) as nat) {
            Some(h) => Some(h),
            None => if !item_readable(s, set[n - 1]) { Some(spec_details(set[n - 1]).unwrap().0) } else { None },
        }
    }
}

/// The header offset of the first major type of the first `n` sets, in order, whose bytes run
/// past the end of the data, if there is one.
pub open spec fn first_unreadable(s: Seq<u8>, sets: Seq<Seq<SpecMajorType>>, n: nat) -> Option<u64>
    decreases n,
{
    if n == 0 || n > sets.len() {
        None
    } else {
        match first_unreadable(s, sets, (n - 1) as nat) {
            Some(h) => Some(h),
            None => first_unreadable_in(s, sets[n - 1], sets[n - 1].len()),
        }
    }
}

proof fn lemma_first_unreadable_in_stays(s: Seq<u8>, set: Seq<SpecMajorType>, k: nat, n: nat)
    requires k <= n <= set.len(), first_unreadable_in(s, set, k) is Some,
    ensures first_unreadable_in(s, set, n) == first_unreadable_in(s, set, k),
    decreases n,
{
    if k < n {
        lemma_first_unreadable_in_stays(s, set, k, (n - 1) as nat);
    }
}

proof fn lemma_first_unreadable_stays(s: Seq<u8>, sets: Seq<Seq<SpecMajorType>>, k: nat, n: nat)
    requires k <= n <= sets.len(), first_unreadable(s, sets, k) is Some,
    ensures first_unreadable(s, sets, n) == first_unreadable(s, sets, k),
    decreases n,
{
    if k < n {
        lemma_first_unreadable_stays(s, sets, k, (n - 1) as nat);
    }
}

/// The bytes of each described major type, set by set; the first one whose bytes run past the
/// end of the data cannot be read.
pub open spec fn spec_retrieve_result(s: Seq<u8>, sets: Seq<Seq<SpecMajorType>>) -> Result<Seq<Seq<Seq<u8>>>, CborError> {
    match first_unreadable(s, sets, sets.len()) {
        Some(h) => Err(CborError::Parse(ParseError::NonReadableByte(h))),
        None => Ok(spec_retrieve(s, sets)),
    }
}

/// Model of retrieved data sets.
pub open spec fn view_data_sets(v: Seq<Vec<Vec<u8>>>) -> Seq<Seq<Seq<u8>>> {
    Seq::new(v.len(), |k: int| Seq::new(v[k]@.len(), |j: int| v[k]@[j]@))
}

/// Copy the `size` bytes of `s` starting at `h`.
fn read_bytes_at(s: &[u8], h: u64, size: usize) -> (r: Vec<u8>)
    requires h + size <= s@.len(),
    ensures r@ == spec_bytes_at(s@, h as int, size as nat),
{
    let len = s.len();
    let start: usize = if h < len as u64 { h as usize } else { len };
    let available = len - start;
    let mut buffer: Vec<u8> = Vec::new();
    let mut i: usize = 0;
    while i < size
        invariant
            i <= size,
            start <= len == s@.len(),
            available == len - start,
            start == (if h < len { h as int } else { len as int }),
            buffer@ =~= spec_bytes_at(s@, h as int, size as nat).take(i as int),
        decreases size - i,
    {
        let byte = if i < available { s[start + i] } else { 0u8 };
        buffer.push(byte);
        i = i + 1;
    }
    proof { assert(spec_bytes_at(s@, h as int, size as nat).take(size as int) =~= spec_bytes_at(s@, h as int, size as nat)); }
    buffer
}

/// Fetch the cbor data described by sets of [`MajorType`]: for each major type, the bytes from
/// its header on, as many as its size.
pub fn retrieve_cbor_in_reader(s: &[u8], to_retrieve: &[Vec<MajorType>]) -> (r: Result<Vec<Vec<Vec<u8>>>, CborError>)
    requires retrieve_defined(crate::major_type::view_sets(to_retrieve@)),
    ensures
        match spec_retrieve_result(s@, crate::major_type::view_sets(to_retrieve@)) {
            Ok(data) => r is Ok && view_data_sets(r->Ok_0@) == data,
            Err(e) => r == Err::<Vec<Vec<Vec<u8>>>, CborError>(e),
        },
{
    let ghost sets = crate::major_type::view_sets(to_retrieve@);
    let mut retrieved_data: Vec<Vec<Vec<u8>>> = Vec::new();
    let mut k: usize = 0;
    while k < to_retrieve.len()
        invariant
            k <= to_retrieve.len(),
            sets == crate::major_type::view_sets(to_retrieve@),
            retrieve_defined(sets),
            retrieved_data@.len() == k,
            first_unreadable(s@, sets, k as nat) is None,
            forall|kk: int| 0 <= kk < k ==> view_data_sets(retrieved_data@)[kk] == #[trigger] spec_retrieve(s@, sets)[kk],
        decreases to_retrieve.len() - k,
    {
        let major_types_set = &to_retrieve[k];
        proof { lemma_view_seq(major_types_set@); }
        let mut data_set: Vec<Vec<u8>> = Vec::new();
        let mut j: usize = 0;
        while j < major_types_set.len()
            invariant
                k < to_retrieve.len(),
                *major_types_set == to_retrieve@[k as int],
                j <= major_types_set.len(),
                sets == crate::major_type::view_sets(to_retrieve@),
                retrieve_defined(sets),
                sets[k as int] == view_seq(major_types_set@),
                view_seq(major_types_set@).len() == major_types_set@.len(),
                forall|jj: int| 0 <= jj < major_types_set@.len() ==> #[trigger] view_seq(major_types_set@)[jj] == major_types_set@[jj]@,
                data_set@.len() == j,
                first_unreadable(s@, sets, k as nat) is None,
                first_unreadable_in(s@, sets[k as int], j as nat) is None,
                forall|jj: int| 0 <= jj < j ==> (#[trigger] data_set@[jj])@ == spec_retrieve(s@, sets)[k as int][jj],
            decreases major_types_set.len() - j,
        {
            assert(spec_details(sets[k as int][j as int]) is Some);
            let (header_offset, size) = major_types_set[j].details();
            if header_offset > s.len() as u64 || size as u64 > s.len() as u64 - header_offset {
                proof {
                    let set = sets[k as int];
                    assert(!item_readable(s@, set[j as int]));
                    assert(first_unreadable_in(s@, set, (j + 1) as nat) == Some(header_offset));
                    lemma_first_unreadable_in_stays(s@, set, (j + 1) as nat, set.len());
                    assert(first_unreadable(s@, sets, (k + 1) as nat) == Some(header_offset));
                    lemma_first_unreadable_stays(s@, sets, (k + 1) as nat, sets.len());
                }
                return Err(CborError::Parse(ParseError::NonReadableByte(header_offset)));
            }
            proof {
                assert(item_readable(s@, sets[k as int][j as int]));
            }
            let byte_buffer = read_bytes_at(s, header_offset, size);
            data_set.push(byte_buffer);
            j = j + 1;
        }
        proof { assert(first_unreadable(s@, sets, (k + 1) as nat) is None); }
        let ghost prev = retrieved_data@;
        retrieved_data.push(data_set);
        proof {
            assert(view_data_sets(retrieved_data@)[k as int] =~= spec_retrieve(s@, sets)[k as int]);
            assert forall|kk: int| 0 <= kk < k + 1 implies view_data_sets(retrieved_data@)[kk] == #[trigger] spec_retrieve(s@, sets)[kk] by {
                if kk < k {
                    assert(retrieved_data@[kk] == prev[kk]);
                    assert(view_data_sets(retrieved_data@)[kk] == view_data_sets(prev)[kk]);
                }
            }
        }
        k = k + 1;
    }
    proof { assert(view_data_sets(retrieved_data@) =~= spec_retrieve(s@, sets)); }
    Ok(retrieved_data)
}

/// The big-endian encoding of `n` on `width` bytes.
pub open spec fn be_bytes(n: u64, width: nat) -> Seq<u8> {
    Seq::new(width, |k: int| (n >> ((8 * (width - 1 - k)) as u64)) as u8)
}

/// The cbor header of an array of `size` elements.
pub open spec fn spec_array_header(size: u64) -> Seq<u8> {
    if size <= 23 {
        seq![(size as u8) | 128]
    } else if size <= 0xFF {
        seq![24u8 | 128].add(be_bytes(size, 1))
    } else if size <= 0xFFFF {
        seq![25u8 | 128].add(be_bytes(size, 2))
    } else if size <= 0xFFFF_FFFF {
        seq![26u8 | 128].add(be_bytes(size, 4))
    } else {
        seq![27u8 | 128].add(be_bytes(size, 8))
    }
}

/// Generate the cbor header of an array major type based on its number of elements.
pub fn generate_array_cbor_header(size: u64) -> (buff: Vec<u8>)
    ensures buff@ == spec_array_header(size),
{
    let (mut first_byte, shift): (u8, u64) = if size <= 23 {
        (size as u8, 0)
    } else if size <= 0xFF {
        (24, 1)
    } else if size <= 0xFFFF {
        (25, 2)
    } else if size <= 0xFFFF_FFFF {
        (26, 4)
    } else {
        (27, 8)
    };
    first_byte = first_byte | 128;
    let mut buff: Vec<u8> = Vec::new();
    buff.push(first_byte);
    let mut i: u64 = shift;
    while i > 0
        invariant
            i <= shift <= 8,
            buff@ =~= seq![first_byte].add(be_bytes(size, shift as nat).take(shift - i)),
        decreases i,
    {
        i = i - 1;
        let byte = (size >> (i * 8)) as u8;
        proof {
            assert(be_bytes(size, shift as nat)[shift - 1 - i] == byte);
            assert(be_bytes(size, shift as nat).take(shift - i) =~= be_bytes(size, shift as nat).take(shift - i - 1).push(byte));
        }
        buff.push(byte);
    }
    proof { assert(be_bytes(size, shift as nat).take(shift as int) =~= be_bytes(size, shift as nat)); }
    buff
}


proof fn lemma_be_value_of_be_bytes(s: Seq<u8>, p: int, n: u64, w: nat)
    requires
        w == 1 || w == 2 || w == 4 || w == 8,
        w == 1 ==> n <= 0xFF,
        w == 2 ==> n <= 0xFFFF,
        w == 4 ==> n <= 0xFFFF_FFFF,
        forall|i: int| 0 <= i < w ==> #[trigger] byte_at(s, p + i) == be_bytes(n, w)[i],
    ensures be_value(s, p, w) == n,
{
    reveal_with_fuel(be_value, 9);
    let b = be_bytes(n, w);
    assert(byte_at(s, p + 0) == b[0]);
    assert(p + 0 == p);
    if w >= 2 { assert(byte_at(s, p + 1) == b[1]); }
    if w >= 4 { assert(byte_at(s, p + 2) == b[2]); assert(byte_at(s, p + 3) == b[3]); }
    if w == 8 {
        assert(byte_at(s, p + 4) == b[4]); assert(byte_at(s, p + 5) == b[5]);
        assert(byte_at(s, p + 6) == b[6]); assert(byte_at(s, p + 7) == b[7]);
    }
    if w == 1 {
        assert(n == ((n >> 0u64) as u8) as u64) by (bit_vector) requires n <= 0xFF;
    } else if w == 2 {
        assert(n == ((n >> 8u64) as u8) as u64 * 256 + ((n >> 0u64) as u8) as u64) by (bit_vector) requires n <= 0xFFFF;
    } else if w == 4 {
        assert(n == ((((n >> 24u64) as u8) as u64 * 256 + ((n >> 16u64) as u8) as u64) * 256
            + ((n >> 8u64) as u8) as u64) * 256 + ((n >> 0u64) as u8) as u64) by (bit_vector) requires n <= 0xFFFF_FFFF;
    } else {
        assert(n as int == ((((((((n >> 56u64) as u8) as int * 256 + ((n >> 48u64) as u8) as int) * 256
            + ((n >> 40u64) as u8) as int) * 256 + ((n >> 32u64) as u8) as int) * 256
            + ((n >> 24u64) as u8) as int) * 256 + ((n >> 16u64) as u8) as int) * 256
            + ((n >> 8u64) as u8) as int) * 256 + ((n >> 0u64) as u8) as int) by (bit_vector);
    }
}

/// Reading the header that `generate_array_cbor_header` writes gives back an array of `size`
/// elements, whose elements start right after the header.
pub proof fn law_array_header_roundtrip(prefix: Seq<u8>, size: u64, rest: Seq<u8>)
    requires prefix.len() + 9 <= u64::MAX,
    ensures
        ({
            let header = spec_array_header(size);
            let h = prefix.len() as u64;
            spec_read_header(prefix + header + rest, h) == Ok::<SpecMajorType, ParseError>(SpecMajorType::Array(SpecRecursiveType {
                header_offset: h,
                data_offset: if size == 0 { None } else { Some((h + header.len()) as u64) },
                nbr_elements: size as usize,
                elements: Seq::empty(),
            }))
        }),
{
    let header = spec_array_header(size);
    let s = prefix + header + rest;
    let h = prefix.len() as u64;
    let first = header[0];
    assert(byte_at(s, h as int) == first);
    if size <= 23 {
        let v = size as u8;
        assert(((v | 128) >> 5) == 4 && ((v | 128) & 0x1f) == v) by (bit_vector) requires v <= 23;
    } else {
        let w: nat = if size <= 0xFF { 1 } else if size <= 0xFFFF { 2 } else if size <= 0xFFFF_FFFF { 4 } else { 8 };
        let dd: u8 = if w == 1 { 24 } else if w == 2 { 25 } else if w == 4 { 26 } else { 27 };
        assert(header =~= seq![dd | 128].add(be_bytes(size, w)));
        assert(((dd | 128) >> 5) == 4 && ((dd | 128) & 0x1f) == dd) by (bit_vector) requires 24 <= dd <= 27;
        assert(additional_bytes(dd) == w);
        assert forall|i: int| 0 <= i < w implies #[trigger] byte_at(s, h + 1 + i) == be_bytes(size, w)[i] by {
            assert(s[h + 1 + i] == header[1 + i]);
        }
        lemma_be_value_of_be_bytes(s, h + 1, size, w);
    }
}

} // verus!
