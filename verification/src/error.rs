//! The error taxonomy shared by the session, the serve tree and the relay.
//!
//! Every error carries a stable numeric code that is surfaced on the wire in
//! `SubscribeError`, `SubscribeDone`, `AnnounceError` and on session close.

use vstd::prelude::*;

verus! {

/// A transport error with an associated wire code.
///
/// `Done` is the benign marker produced by dropping the last writer or reader
/// of an entity; `Closed` is a clean, explicit termination. Per-track errors
/// close one track; per-session errors (`Read`, `Write`, `Decode`,
/// `RoleViolation`, `Version`, `RoleIncompatible`) tear down the session.
#[derive(Copy, Clone, Debug, PartialEq, Eq, Structural)]
pub enum Error {
    /// Clean termination.
    Closed,
    /// Publisher-initiated abort with a code.
    Reset(u32),
    /// Subscriber-initiated abort with a code.
    Stop(u32),
    /// The requested resource was not found.
    NotFound,
    /// A resource already exists with that id.
    Duplicate,
    /// A message arrived for a role that was not negotiated.
    RoleViolation,
    /// Both sides offered the same one-sided role.
    RoleIncompatible,
    /// No common protocol version.
    Version,
    /// A track-mode invariant breach: the cache left `Init` in one variant
    /// family and an operation of another family was attempted.
    Mode,
    /// A declared object size differs from the bytes written.
    Size,
    /// An object id within a group stream did not increase by one.
    OutOfOrder,
    /// The peer cancelled an announce.
    Cancel,
    /// Benign close produced by drop handlers.
    Done,
    /// The transport failed while reading.
    Read,
    /// The transport failed while writing.
    Write,
    /// Malformed wire bytes.
    Decode,
}

impl Error {
    /// The numeric code of each error kind, as carried on the wire.
    pub open spec fn spec_code(self) -> u32 {
        match self {
            Error::Closed => 0,
            Error::Done => 0,
            Error::Reset(code) => code,
            Error::Stop(code) => code,
            Error::Mode => 400,
            Error::Decode => 401,
            Error::NotFound => 404,
            Error::RoleViolation => 405,
            Error::RoleIncompatible => 405,
            Error::Version => 407,
            Error::Duplicate => 409,
            Error::Cancel => 410,
            Error::Size => 413,
            Error::OutOfOrder => 416,
            Error::Write => 501,
            Error::Read => 502,
        }
    }

    /// An integer code that is sent over the wire.
    pub fn code(&self) -> (c: u32)
        ensures
            c == self.spec_code(),
    {
        match self {
            Error::Closed => 0,
            Error::Done => 0,
            Error::Reset(code) => *code,
            Error::Stop(code) => *code,
            Error::Mode => 400,
            Error::Decode => 401,
            Error::NotFound => 404,
            Error::RoleViolation => 405,
            Error::RoleIncompatible => 405,
            Error::Version => 407,
            Error::Duplicate => 409,
            Error::Cancel => 410,
            Error::Size => 413,
            Error::OutOfOrder => 416,
            Error::Write => 501,
            Error::Read => 502,
        }
    }

    /// The reason text of each error kind.
    pub open spec fn spec_reason(self) -> Seq<char> {
        match self {
            Error::Closed => "closed"@,
            Error::Reset(_) => "reset"@,
            Error::Stop(_) => "stop"@,
            Error::NotFound => "not found"@,
            Error::Duplicate => "duplicate"@,
            Error::RoleViolation => "role violation"@,
            Error::RoleIncompatible => "role incompatible"@,
            Error::Version => "version"@,
            Error::Mode => "mode"@,
            Error::Size => "size"@,
            Error::OutOfOrder => "out of order"@,
            Error::Cancel => "cancel"@,
            Error::Done => "done"@,
            Error::Read => "read error"@,
            Error::Write => "write error"@,
            Error::Decode => "decode error"@,
        }
    }

    /// A human-readable reason that is sent over the wire.
    pub fn reason(&self) -> (r: String)
        ensures
            r@ == self.spec_reason(),
    {
        match self {
            Error::Closed => "closed".to_owned(),
            Error::Reset(_) => "reset".to_owned(),
            Error::Stop(_) => "stop".to_owned(),
            Error::NotFound => "not found".to_owned(),
            Error::Duplicate => "duplicate".to_owned(),
            Error::RoleViolation => "role violation".to_owned(),
            Error::RoleIncompatible => "role incompatible".to_owned(),
            Error::Version => "version".to_owned(),
            Error::Mode => "mode".to_owned(),
            Error::Size => "size".to_owned(),
            Error::OutOfOrder => "out of order".to_owned(),
            Error::Cancel => "cancel".to_owned(),
            Error::Done => "done".to_owned(),
            Error::Read => "read error".to_owned(),
            Error::Write => "write error".to_owned(),
            Error::Decode => "decode error".to_owned(),
        }
    }

    /// Whether an error tears down the whole session rather than one track.
    pub open spec fn spec_is_fatal(self) -> bool {
        match self {
            Error::Read | Error::Write | Error::Decode | Error::RoleViolation
                | Error::RoleIncompatible | Error::Version => true,
            _ => false,
        }
    }

    /// True for the per-session errors that tear down every track.
    pub fn is_fatal(&self) -> (b: bool)
        ensures
            b == self.spec_is_fatal(),
    {
        match self {
            Error::Read | Error::Write | Error::Decode | Error::RoleViolation
                | Error::RoleIncompatible | Error::Version => true,
            _ => false,
        }
    }
}

} // verus!
