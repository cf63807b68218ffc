//! The failures that the library reports.

use std::array::TryFromSliceError;
use std::string::FromUtf8Error;
use vstd::prelude::*;
use vstd::std_specs::cmp::PartialEqSpecImpl;

verus! {

/// `std::array::TryFromSliceError`, carried through as an opaque value.
#[verifier::external_type_specification]
#[verifier::external_body]
pub struct ExTryFromSliceError(TryFromSliceError);

/// `std::string::FromUtf8Error`, carried through as an opaque value.
#[verifier::external_type_specification]
#[verifier::external_body]
pub struct ExFromUtf8Error(FromUtf8Error);

#[derive(Debug)]
pub enum Error {
    /// The image is shorter than the end of the checksum window.
    CrcNotEnoughData,
    /// Fewer bytes than one header were given to decode.
    HeaderNotEnoughData,
    /// The byte source failed.
    ReadError,
    /// The byte sink failed.
    WriteError,
    /// A fixed-width field reaches past the end of its input.
    TryFromSliceError(TryFromSliceError),
    /// The title bytes are not UTF-8.
    FromUtf8Error(FromUtf8Error),
}

impl Error {
    /// Whether `self` and `other` are the same payload-free variant. Errors
    /// that carry a cause never compare equal, not even to themselves.
    pub open spec fn same_plain_variant(&self, other: &Self) -> bool {
        match (*self, *other) {
            (Error::CrcNotEnoughData, Error::CrcNotEnoughData) => true,
            (Error::HeaderNotEnoughData, Error::HeaderNotEnoughData) => true,
            (Error::ReadError, Error::ReadError) => true,
            (Error::WriteError, Error::WriteError) => true,
            _ => false,
        }
    }
}

impl PartialEq for Error {
    fn eq(&self, other: &Self) -> (r: bool) {
        match (self, other) {
            (Error::CrcNotEnoughData, Error::CrcNotEnoughData) => true,
            (Error::HeaderNotEnoughData, Error::HeaderNotEnoughData) => true,
            (Error::ReadError, Error::ReadError) => true,
            (Error::WriteError, Error::WriteError) => true,
            _ => false,
        }
    }
}

impl PartialEqSpecImpl for Error {
    open spec fn obeys_eq_spec() -> bool {
        true
    }

    open spec fn eq_spec(&self, other: &Self) -> bool {
        self.same_plain_variant(other)
    }
}

} // verus!
