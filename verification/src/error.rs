//! Error types of the asset layer.
//!
//! The two families mirror the two halves of the crate: [`Error`] is the
//! low-level serialization error, [`UnrealAssetError`] the asset-level
//! one. Both carry enough context to build a message without re-reading
//! the input; `message` renders that text.

use vstd::prelude::*;
use crate::text::dec_digits;
use crate::text::u32_to_decimal;

verus! {

/// The decimal rendering of a signed 32-bit value.
pub open spec fn dec_digits_i32(n: i32) -> Seq<char> {
    if n < 0 {
        seq!['-'] + dec_digits((-(n as int)) as nat)
    } else {
        dec_digits(n as nat)
    }
}

/// Formats a signed value in decimal.
pub fn i32_to_decimal(n: i32) -> (r: String)
    ensures
        r@ == dec_digits_i32(n),
{
    if n < 0 {
        let mut s = String::new();
        s.push('-');
        let mag = (-(n as i64)) as u32;
        let digits = u32_to_decimal(mag);
        s.append(digits.as_str());
        assert(s@ =~= dec_digits_i32(n));
        s
    } else {
        u32_to_decimal(n as u32)
    }
}

/// A low-level serialization error.
#[derive(Debug, Clone, PartialEq, Eq)]
pub enum Error {
    /// The input held no data where some was required.
    NoData,
    /// A package index was outside the table it addresses.
    InvalidIndex(i32),
    /// A section could not be decoded or encoded; the text says why.
    Serialization(String),
    /// A field held a value the format does not allow.
    InvalidData(String),
}

impl Error {
    /// The error for missing data.
    pub fn no_data() -> (r: Self)
        ensures
            r == Error::NoData,
    {
        Error::NoData
    }

    /// The error for a package index outside its table.
    pub fn invalid_package_index(index: i32) -> (r: Self)
        ensures
            r == Error::InvalidIndex(index),
    {
        Error::InvalidIndex(index)
    }

    /// The rendered message of this error.
    pub fn message(&self) -> (r: String)
        ensures
            r@ == error_message(self),
    {
        match self {
            Error::NoData => {
                let s = "No data available".to_owned();
                s
            },
            Error::InvalidIndex(i) => {
                let mut s = "Invalid package index: ".to_owned();
                let digits = i32_to_decimal(*i);
                s.append(digits.as_str());
                s
            },
            Error::Serialization(m) => {
                let mut s = "Serialization error: ".to_owned();
                s.append(m.as_str());
                s
            },
            Error::InvalidData(m) => {
                let mut s = "Invalid data: ".to_owned();
                s.append(m.as_str());
                s
            },
        }
    }
}

/// The message text of a low-level error.
pub open spec fn error_message(e: &Error) -> Seq<char> {
    match e {
        Error::NoData => "No data available"@,
        Error::InvalidIndex(i) => "Invalid package index: "@ + dec_digits_i32(*i),
        Error::Serialization(m) => "Serialization error: "@ + m@,
        Error::InvalidData(m) => "Invalid data: "@ + m@,
    }
}

/// An asset-level error.
#[derive(Debug, Clone, PartialEq, Eq)]
pub enum UnrealAssetError {
    /// The input could not be parsed; the text says why.
    Parse(String),
    /// A field held a value the format does not allow.
    InvalidData(String),
    /// The input asks for a version this codec does not support.
    UnsupportedVersion(String),
    /// An index was outside the table it addresses.
    InvalidIndex(String),
    /// Any other failure.
    Custom(String),
}

impl UnrealAssetError {
    /// A catch-all error with the given message.
    pub fn new(message: &str) -> (r: Self)
        ensures
            r matches UnrealAssetError::Custom(m) && m@ == message@,
    {
        UnrealAssetError::Custom(message.to_owned())
    }

    /// The rendered message of this error.
    pub fn message(&self) -> (r: String)
        ensures
            r@ == unreal_asset_error_message(self),
    {
        match self {
            UnrealAssetError::Parse(m) => {
                let mut s = "Parse error: ".to_owned();
                s.append(m.as_str());
                s
            },
            UnrealAssetError::InvalidData(m) => {
                let mut s = "Invalid data: ".to_owned();
                s.append(m.as_str());
                s
            },
            UnrealAssetError::UnsupportedVersion(m) => {
                let mut s = "Unsupported version: ".to_owned();
                s.append(m.as_str());
                s
            },
            UnrealAssetError::InvalidIndex(m) => {
                let mut s = "Invalid index: ".to_owned();
                s.append(m.as_str());
                s
            },
            UnrealAssetError::Custom(m) => {
                let s = m.clone();
                s
            },
        }
    }
}

/// The message text of an asset-level error.
pub open spec fn unreal_asset_error_message(e: &UnrealAssetError) -> Seq<char> {
    match e {
        UnrealAssetError::Parse(m) => "Parse error: "@ + m@,
        UnrealAssetError::InvalidData(m) => "Invalid data: "@ + m@,
        UnrealAssetError::UnsupportedVersion(m) => "Unsupported version: "@ + m@,
        UnrealAssetError::InvalidIndex(m) => "Invalid index: "@ + m@,
        UnrealAssetError::Custom(m) => m@,
    }
}

/// Turns a low-level error into an asset-level one, keeping its message.
pub fn lift_error(e: Error) -> (r: UnrealAssetError)
    ensures
        e matches Error::InvalidIndex(i) ==> (r matches UnrealAssetError::InvalidIndex(m)
            && m@ == dec_digits_i32(i)),
        !(e matches Error::InvalidIndex(_)) ==> (r matches UnrealAssetError::Parse(m) && m@
            == error_message(&e)),
{
    match e {
        Error::InvalidIndex(i) => UnrealAssetError::InvalidIndex(i32_to_decimal(i)),
        _ => UnrealAssetError::Parse(e.message()),
    }
}

} // verus!
