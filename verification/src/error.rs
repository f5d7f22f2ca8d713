//! The uniform error value threaded through every fallible operation of the
//! library: a numeric code out of a closed, historically fixed domain, plus a
//! human-readable message.

use vstd::prelude::*;

verus! {

use crate::MSErrorCode;

pub const MS_GENERROR: i32 = -1;
pub const MS_NOTSEED: i32 = -2;
pub const MS_WRONGLENGTH: i32 = -3;
pub const MS_OUTOFRANGE: i32 = -4;
pub const MS_UNKNOWNFORMAT: i32 = -5;
pub const MS_STBADCOMPFLAG: i32 = -6;
pub const MS_INVALIDCRC: i32 = -7;

/// A structure representing MiniSEED errors.
#[derive(Debug)]
pub struct MSError {
    code: i32,
    message: String,
}

/// The `MSErrorCode` variant that a raw numeric code stands for; every code
/// outside the closed domain falls back to `GenericError`.
pub open spec fn spec_code_of(code: i32) -> MSErrorCode {
    if code == MS_NOTSEED {
        MSErrorCode::NotSEED
    } else if code == MS_WRONGLENGTH {
        MSErrorCode::WrongLength
    } else if code == MS_OUTOFRANGE {
        MSErrorCode::OutOfRange
    } else if code == MS_UNKNOWNFORMAT {
        MSErrorCode::UnknownFormat
    } else if code == MS_STBADCOMPFLAG {
        MSErrorCode::SteimBadCompressionFlag
    } else if code == MS_INVALIDCRC {
        MSErrorCode::InvalidCRC
    } else {
        MSErrorCode::GenericError
    }
}

/// The raw code that a raw numeric code normalizes to: itself when inside the
/// closed domain, `MS_GENERROR` otherwise.
pub open spec fn spec_raw_of(code: i32) -> i32 {
    if code == MS_NOTSEED || code == MS_WRONGLENGTH || code == MS_OUTOFRANGE || code
        == MS_UNKNOWNFORMAT || code == MS_STBADCOMPFLAG || code == MS_INVALIDCRC {
        code
    } else {
        MS_GENERROR
    }
}

impl MSError {
    /// The raw numeric code this error was created with.
    pub closed spec fn spec_code(&self) -> i32 {
        self.code
    }

    /// The message this error carries.
    pub closed spec fn spec_message(&self) -> Seq<char> {
        self.message@
    }

    /// Create a new error from a given raw error code.
    pub(crate) fn from_raw(code: i32) -> (r: Self)
        ensures
            r.spec_code() == code,
    {
        let message = match code {
            MS_NOTSEED => "Data are not SEED",
            MS_WRONGLENGTH => "Length of data read was incorrect",
            MS_OUTOFRANGE => "SEED record length out of range",
            MS_UNKNOWNFORMAT => "Unknown data encoding format",
            MS_STBADCOMPFLAG => "Steim, invalid compression flag(s)",
            MS_INVALIDCRC => "Invalid CRC",
            _ => "Generic error",
        };
        Self { code, message: message.to_owned() }
    }

    /// Create a new error from the given string as the error.
    ///
    /// The error returned will have the code `MS_GENERROR`.
    pub fn from_str(s: &str) -> (r: Self)
        ensures
            r.spec_code() == MS_GENERROR,
            r.spec_message() == s@,
    {
        Self { code: MS_GENERROR, message: s.to_owned() }
    }

    /// Return the error code associated with this error.
    pub fn code(&self) -> (r: MSErrorCode)
        ensures
            r == spec_code_of(self.spec_code()),
    {
        match self.code {
            MS_NOTSEED => MSErrorCode::NotSEED,
            MS_WRONGLENGTH => MSErrorCode::WrongLength,
            MS_OUTOFRANGE => MSErrorCode::OutOfRange,
            MS_UNKNOWNFORMAT => MSErrorCode::UnknownFormat,
            MS_STBADCOMPFLAG => MSErrorCode::SteimBadCompressionFlag,
            MS_INVALIDCRC => MSErrorCode::InvalidCRC,
            _ => MSErrorCode::GenericError,
        }
    }

    /// Return the raw error code associated with this error.
    pub fn raw_code(&self) -> (r: i32)
        ensures
            r == spec_raw_of(self.spec_code()),
    {
        match self.code {
            MS_NOTSEED => MS_NOTSEED,
            MS_WRONGLENGTH => MS_WRONGLENGTH,
            MS_OUTOFRANGE => MS_OUTOFRANGE,
            MS_UNKNOWNFORMAT => MS_UNKNOWNFORMAT,
            MS_STBADCOMPFLAG => MS_STBADCOMPFLAG,
            MS_INVALIDCRC => MS_INVALIDCRC,
            _ => MS_GENERROR,
        }
    }

    /// Return the message associated with this error.
    pub fn message(&self) -> (r: &str)
        ensures
            r@ == self.spec_message(),
    {
        self.message.as_str()
    }
}

impl PartialEq for MSError {
    fn eq(&self, other: &Self) -> (r: bool) {
        self.code == other.code && self.message == other.message
    }
}

impl vstd::std_specs::cmp::PartialEqSpecImpl for MSError {
    open spec fn obeys_eq_spec() -> bool {
        true
    }

    closed spec fn eq_spec(&self, other: &Self) -> bool {
        self.code == other.code && self.message@ == other.message@
    }
}

} // verus!
