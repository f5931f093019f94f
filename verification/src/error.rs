//! Classification of the engine's status codes.

use vstd::prelude::*;

verus! {

/// The engine's status code for success.
pub const ARES_SUCCESS: i32 = 0;
/// The query completed but the answer holds no records of the asked type.
pub const ARES_ENODATA: i32 = 1;
/// The server found the query malformed.
pub const ARES_EFORMERR: i32 = 2;
/// The server reported a general failure.
pub const ARES_ESERVFAIL: i32 = 3;
/// The name does not exist.
pub const ARES_ENOTFOUND: i32 = 4;
/// The server refused the query.
pub const ARES_EREFUSED: i32 = 6;
/// The response could not be understood.
pub const ARES_EBADRESP: i32 = 10;
/// No server accepted the connection.
pub const ARES_ECONNREFUSED: i32 = 11;
/// No server answered in time.
pub const ARES_ETIMEOUT: i32 = 12;
/// The engine ran out of memory.
pub const ARES_ENOMEM: i32 = 15;
/// The engine's global state was not initialised.
pub const ARES_ENOTINITIALIZED: i32 = 21;
/// A system library needed for initialisation could not be loaded.
pub const ARES_ELOADIPHLPAPI: i32 = 22;
/// The system's network parameters could not be found during initialisation.
pub const ARES_EADDRGETNETWORKPARAMS: i32 = 23;

/// Why a lookup that reached the engine failed.
#[derive(Clone, Copy, Debug, PartialEq, Eq, Structural)]
pub enum LookupFailure {
    NoData,
    NoSuchName,
    Timeout,
    ServerFailure,
    Refused,
    FormatError,
    ConnectionRefused,
    OutOfMemory,
    /// A status code with no kind of its own; the code is kept.
    Unknown(i32),
}

/// Every failure this library reports.
#[derive(Clone, Copy, Debug, PartialEq, Eq, Structural)]
pub enum AresError {
    /// The engine's global state could not be initialised.
    LibraryInitFailure,
    /// The engine could not build an instance for a channel.
    ChannelCreationFailure,
    /// A name was rejected before the engine was contacted.
    ValidationFailure,
    /// A response buffer was malformed.
    ParseFailure,
    /// A lookup failed.
    Lookup(LookupFailure),
}

/// The failure that a status code stands for.
pub open spec fn spec_ares_error(status: i32) -> AresError {
    if status == ARES_ENODATA {
        AresError::Lookup(LookupFailure::NoData)
    } else if status == ARES_EFORMERR {
        AresError::Lookup(LookupFailure::FormatError)
    } else if status == ARES_ESERVFAIL {
        AresError::Lookup(LookupFailure::ServerFailure)
    } else if status == ARES_ENOTFOUND {
        AresError::Lookup(LookupFailure::NoSuchName)
    } else if status == ARES_EREFUSED {
        AresError::Lookup(LookupFailure::Refused)
    } else if status == ARES_EBADRESP {
        AresError::ParseFailure
    } else if status == ARES_ECONNREFUSED {
        AresError::Lookup(LookupFailure::ConnectionRefused)
    } else if status == ARES_ETIMEOUT {
        AresError::Lookup(LookupFailure::Timeout)
    } else if status == ARES_ENOMEM {
        AresError::Lookup(LookupFailure::OutOfMemory)
    } else if status == ARES_ENOTINITIALIZED || status == ARES_ELOADIPHLPAPI || status
        == ARES_EADDRGETNETWORKPARAMS {
        AresError::LibraryInitFailure
    } else {
        AresError::Lookup(LookupFailure::Unknown(status))
    }
}

/// Translates a status code of the engine into a failure. Every code has an
/// answer: one without a kind of its own is kept as `Unknown`.
pub fn ares_error(status: i32) -> (e: AresError)
    ensures
        e == spec_ares_error(status),
{
    if status == ARES_ENODATA {
        AresError::Lookup(LookupFailure::NoData)
    } else if status == ARES_EFORMERR {
        AresError::Lookup(LookupFailure::FormatError)
    } else if status == ARES_ESERVFAIL {
        AresError::Lookup(LookupFailure::ServerFailure)
    } else if status == ARES_ENOTFOUND {
        AresError::Lookup(LookupFailure::NoSuchName)
    } else if status == ARES_EREFUSED {
        AresError::Lookup(LookupFailure::Refused)
    } else if status == ARES_EBADRESP {
        AresError::ParseFailure
    } else if status == ARES_ECONNREFUSED {
        AresError::Lookup(LookupFailure::ConnectionRefused)
    } else if status == ARES_ETIMEOUT {
        AresError::Lookup(LookupFailure::Timeout)
    } else if status == ARES_ENOMEM {
        AresError::Lookup(LookupFailure::OutOfMemory)
    } else if status == ARES_ENOTINITIALIZED || status == ARES_ELOADIPHLPAPI || status
        == ARES_EADDRGETNETWORKPARAMS {
        AresError::LibraryInitFailure
    } else {
        AresError::Lookup(LookupFailure::Unknown(status))
    }
}

/// The mapping never invents a failure that only this library can cause, and
/// an unknown code is handed on unchanged: two codes that both come out as
/// `Unknown` are told apart by the code they carry.
pub proof fn lemma_ares_error_total(status: i32, other: i32)
    ensures
        spec_ares_error(status) != AresError::ValidationFailure,
        spec_ares_error(status) != AresError::ChannelCreationFailure,
        spec_ares_error(status) matches AresError::Lookup(LookupFailure::Unknown(c)) ==> c
            == status,
        spec_ares_error(status) == spec_ares_error(other) && (spec_ares_error(
            status,
        ) matches AresError::Lookup(LookupFailure::Unknown(_))) ==> status == other,
{
}

} // verus!
