//! Errors raised while reading, selecting and writing Holium CBOR data.
use vstd::prelude::*;

verus! {

/// Errors raised while reading the structure of a Holium CBOR value.
#[derive(Clone, Copy, Debug, PartialEq, Eq, Structural)]
pub enum ParseError {
    NonExistingMajorType,
    NotHandlingMap,
    RootNotArray,
    NonReadableByte(u64),
    FailToSeekToOffset,
    FailToGetCursorPosition,
    UnhandledDataDetails,
    BadCborHeader,
    MajorTypeNonRecursive,
    /// An offset or a count computed from the headers does not fit in a machine integer.
    OffsetOverflow,
}

/// Errors raised while applying a selector.
#[derive(Clone, Copy, Debug, PartialEq, Eq, Structural)]
pub enum SelectorError {
    NonValidSelectorStructure,
    NoNodeFound,
    UnionOnlyAtRoot,
}

/// Errors raised while building new Holium CBOR data.
#[derive(Clone, Copy, Debug, PartialEq, Eq, Structural)]
pub enum WriteError {
    NonCompatibleSelectors,
    DifferentUnionLength,
    UnionOnlyAtRootLevel,
    IndexSelectionOnLeaf,
    RangeSelectionOnLeaf,
    IndexAlreadyTaken,
    DatasetLengthInequalRangeLength,
    NoDataInDataSet,
    NoNodeAtIndex,
    ExpectedChildrenForRecursiveType,
    ExpectedCborDataForRecursiveType,
    NoIndexOnChild,
    IndexNotAllocatedToOneChild,
}

/// Any error of the Holium CBOR module.
#[derive(Clone, Copy, Debug, PartialEq, Eq, Structural)]
pub enum CborError {
    Parse(ParseError),
    Selector(SelectorError),
    Write(WriteError),
}

/// The decimal digits of a number.
pub open spec fn decimal_text(n: nat) -> Seq<char>
    decreases n,
{
    if n < 10 {
        seq![(('0' as u32) + n) as char]
    } else {
        decimal_text(n / 10).push((('0' as u32) + n % 10) as char)
    }
}

/// The text of a decimal digit.
fn digit_text(d: u64) -> (r: String)
    requires d < 10,
    ensures r@ == seq![(('0' as u32) + d) as char],
{
    let t: &str = match d {
        0 => "0", 1 => "1", 2 => "2", 3 => "3", 4 => "4",
        5 => "5", 6 => "6", 7 => "7", 8 => "8", _ => "9",
    };
    proof {
        reveal_strlit("0"); reveal_strlit("1"); reveal_strlit("2"); reveal_strlit("3"); reveal_strlit("4");
        reveal_strlit("5"); reveal_strlit("6"); reveal_strlit("7"); reveal_strlit("8"); reveal_strlit("9");
    }
    String::from_str(t)
}

/// Write a number with its decimal digits.
pub fn decimal_string(n: u64) -> (r: String)
    ensures r@ == decimal_text(n as nat),
    decreases n,
{
    if n < 10 {
        digit_text(n)
    } else {
        let mut r = decimal_string(n / 10);
        let d = digit_text(n % 10);
        r.append(d.as_str());
        r
    }
}

/// Human readable description of a parse error.
pub open spec fn spec_parse_error_message(e: ParseError) -> Seq<char> {
    match e {
        ParseError::NonExistingMajorType => "non existing major type"@,
        ParseError::NotHandlingMap => "holium cbor does not handle maps"@,
        ParseError::RootNotArray => "holium cbor should have root of array type"@,
        ParseError::NonReadableByte(o) => "could not read byte at offset: "@ + decimal_text(o as nat),
        ParseError::FailToSeekToOffset => "could not seek to offset"@,
        ParseError::FailToGetCursorPosition => "could not retrieve cursor position"@,
        ParseError::UnhandledDataDetails => "unhandled data details, currently handling data up to 64 bits of length"@,
        ParseError::BadCborHeader => "data details in cbor header wrongly encoded"@,
        ParseError::MajorTypeNonRecursive => "major type is non recursive"@,
        ParseError::OffsetOverflow => "offset computed from cbor headers overflows"@,
    }
}

impl ParseError {
    /// Human readable description of the error.
    pub fn message(&self) -> (r: String)
        ensures r@ == spec_parse_error_message(*self),
    {
        match self {
            ParseError::NonExistingMajorType => String::from_str("non existing major type"),
            ParseError::NotHandlingMap => String::from_str("holium cbor does not handle maps"),
            ParseError::RootNotArray => String::from_str("holium cbor should have root of array type"),
            ParseError::NonReadableByte(o) => {
                let mut m = String::from_str("could not read byte at offset: ");
                let d = decimal_string(*o);
                m.append(d.as_str());
                m
            },
            ParseError::FailToSeekToOffset => String::from_str("could not seek to offset"),
            ParseError::FailToGetCursorPosition => String::from_str("could not retrieve cursor position"),
            ParseError::UnhandledDataDetails => String::from_str("unhandled data details, currently handling data up to 64 bits of length"),
            ParseError::BadCborHeader => String::from_str("data details in cbor header wrongly encoded"),
            ParseError::MajorTypeNonRecursive => String::from_str("major type is non recursive"),
            ParseError::OffsetOverflow => String::from_str("offset computed from cbor headers overflows"),
        }
    }
}

} // verus!
