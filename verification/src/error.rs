//! The ways in which the conversion of one file can fail.

use vstd::prelude::*;

verus! {

/// The step of the conversion of one file at which something happened.
#[derive(Clone, Copy, Debug, PartialEq, Eq, Structural)]
pub enum Stage {
    /// Finding the capture time.
    Resolve,
    /// Finding a free file name.
    Allocate,
    /// Decoding the source, encoding it and writing the result.
    Encode,
    /// Deleting the source.
    Delete,
}

/// Why the metadata of a file gives no capture time.
#[derive(Clone, Copy, Debug, PartialEq, Eq, Structural)]
pub enum MetadataError {
    /// The bytes hold no metadata that can be read.
    Unparseable,
    /// The metadata holds no original capture time that parses as
    /// `YYYY:MM:DD HH:MM:SS`.
    CaptureTimeMissing,
    /// The local time zone has no single moment with the reading of the
    /// capture: the reading is skipped there, or occurs twice.
    LocalTimeNotUnique,
}

/// Why the conversion of a file failed.
#[derive(Clone, Copy, Debug, PartialEq, Eq, Structural)]
pub enum ConvertError {
    /// The path of the file names no directory in which the result could go.
    MissingDirectory,
    /// Neither the metadata nor the file system gave a usable time.
    TimestampUnavailable,
    /// The base name and all its ten thousand numbered variants are taken.
    NamingExhausted,
    /// The source could not be read or decoded as an image.
    DecodeFailure,
    /// The encoder did not produce an image.
    EncodeFailure,
    /// The encoded image could not be written.
    WriteFailure,
    /// The source could not be deleted after the result was written.
    DeleteFailure,
}

impl ConvertError {
    /// The stage at which an error of this kind arises.
    pub open spec fn spec_stage(self) -> Stage {
        match self {
            ConvertError::MissingDirectory => Stage::Resolve,
            ConvertError::TimestampUnavailable => Stage::Resolve,
            ConvertError::NamingExhausted => Stage::Allocate,
            ConvertError::DecodeFailure => Stage::Encode,
            ConvertError::EncodeFailure => Stage::Encode,
            ConvertError::WriteFailure => Stage::Encode,
            ConvertError::DeleteFailure => Stage::Delete,
        }
    }

    /// The stage at which an error of this kind arises.
    #[verifier::when_used_as_spec(spec_stage)]
    pub fn stage(self) -> (r: Stage)
        ensures
            r == self.spec_stage(),
    {
        match self {
            ConvertError::MissingDirectory => Stage::Resolve,
            ConvertError::TimestampUnavailable => Stage::Resolve,
            ConvertError::NamingExhausted => Stage::Allocate,
            ConvertError::DecodeFailure => Stage::Encode,
            ConvertError::EncodeFailure => Stage::Encode,
            ConvertError::WriteFailure => Stage::Encode,
            ConvertError::DeleteFailure => Stage::Delete,
        }
    }
}

} // verus!
