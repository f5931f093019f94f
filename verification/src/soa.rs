//! The result of a lookup of a zone's start of authority.

use vstd::prelude::*;
use crate::error::{ares_error, spec_ares_error, AresError, ARES_SUCCESS};
use vstd::string::StringExecFns;
use crate::text::{append_decimal, decimal_chars, spec_terminated_text, terminated_text};

verus! {

/// The length of the fixed header that every DNS message starts with.
pub const HEADER_LEN: usize = 12;

/// The greatest length of a DNS message, which is also the longest buffer
/// that the engine's parser reads.
pub const MAX_BUFFER_LEN: usize = 65535;

/// What the engine's parser filled in for a start-of-authority record. The
/// two names are the bytes that the engine holds for them; each ends at
/// its first zero byte.
#[derive(Debug)]
pub struct SoaReply {
    pub nsname: Vec<u8>,
    pub hostmaster: Vec<u8>,
    pub serial: u32,
    pub refresh: u32,
    pub retry: u32,
    pub expire: u32,
    pub minttl: u32,
}

/// What a start-of-authority result holds.
pub struct SoaRecord {
    pub name_server: Seq<char>,
    pub hostmaster: Seq<char>,
    pub serial: u32,
    pub refresh: u32,
    pub retry: u32,
    pub expire: u32,
    pub min_ttl: u32,
}

/// The result of a successful SOA lookup.
#[derive(Debug)]
pub struct SOAResult {
    name_server: String,
    hostmaster: String,
    serial: u32,
    refresh: u32,
    retry: u32,
    expire: u32,
    min_ttl: u32,
}

impl View for SOAResult {
    type V = SoaRecord;

    closed spec fn view(&self) -> SoaRecord {
        SoaRecord {
            name_server: self.name_server@,
            hostmaster: self.hostmaster@,
            serial: self.serial,
            refresh: self.refresh,
            retry: self.retry,
            expire: self.expire,
            min_ttl: self.min_ttl,
        }
    }
}

/// The text that describes a record: each field under its name, the
/// numbers in decimal.
pub open spec fn spec_text(record: SoaRecord) -> Seq<char> {
    "Name server: "@ + record.name_server + ", Hostmaster: "@ + record.hostmaster + ", Serial: "@
        + decimal_chars(record.serial as nat) + ", Refresh: "@ + decimal_chars(
        record.refresh as nat,
    ) + ", Retry: "@ + decimal_chars(record.retry as nat) + ", Expire: "@ + decimal_chars(
        record.expire as nat,
    ) + ", Minimum time-to-live: "@ + decimal_chars(record.min_ttl as nat)
}

/// Whether a buffer can hold a response at all: it is as long as a header
/// at least and no longer than a DNS message can be.
pub open spec fn plausible_response(data: Seq<u8>) -> bool {
    HEADER_LEN <= data.len() <= MAX_BUFFER_LEN
}

/// The record that the engine's parser gave, if it gave one that can be
/// read: the parser reported success, it filled a reply in, and both names
/// are well-formed UTF-8.
pub open spec fn spec_record(status: i32, reply: Option<SoaReply>) -> Option<SoaRecord> {
    if status != ARES_SUCCESS {
        None
    } else {
        match reply {
            None => None,
            Some(reply) => match (
                spec_terminated_text(reply.nsname@),
                spec_terminated_text(reply.hostmaster@),
            ) {
                (Some(name_server), Some(hostmaster)) => Some(
                    SoaRecord {
                        name_server,
                        hostmaster,
                        serial: reply.serial,
                        refresh: reply.refresh,
                        retry: reply.retry,
                        expire: reply.expire,
                        min_ttl: reply.minttl,
                    },
                ),
                _ => None,
            },
        }
    }
}

/// What `parse_from` gives: the record, for a buffer that can hold a
/// response and that the engine's parser read; a parse failure in every
/// other case, whatever the parser's complaint was.
pub open spec fn spec_parse_from(data: Seq<u8>, status: i32, reply: Option<SoaReply>) -> Result<
    SoaRecord,
    AresError,
> {
    if !plausible_response(data) {
        Err(AresError::ParseFailure)
    } else {
        match spec_record(status, reply) {
            Some(record) => Ok(record),
            None => Err(AresError::ParseFailure),
        }
    }
}

/// What `query_soa_callback` gives: the failure that the status of the
/// query stands for, or else what parsing the response gives.
pub open spec fn spec_query_soa(
    status: i32,
    data: Seq<u8>,
    parse_status: i32,
    reply: Option<SoaReply>,
) -> Result<SoaRecord, AresError> {
    if status != ARES_SUCCESS {
        Err(spec_ares_error(status))
    } else {
        spec_parse_from(data, parse_status, reply)
    }
}

impl SOAResult {
    /// Decides whether a response is handed to the engine's parser, and
    /// with what length. A buffer that is shorter than a header, an empty
    /// one among them, or longer than a DNS message can be, is a parse
    /// failure at once.
    pub fn parse_request(data: &[u8]) -> (r: Result<i32, AresError>)
        ensures
            plausible_response(data@) ==> r == Ok::<i32, AresError>(data@.len() as i32),
            !plausible_response(data@) ==> r == Err::<i32, AresError>(AresError::ParseFailure),
    {
        let len = data.len();
        if len < HEADER_LEN || len > MAX_BUFFER_LEN {
            Err(AresError::ParseFailure)
        } else {
            Ok(len as i32)
        }
    }

    /// Obtains an `SOAResult` from the response to an SOA lookup, given
    /// what the engine's parser made of it: the status it returned and the
    /// reply it filled in.
    ///
    /// There is one failure, `ParseFailure`, and every response that does
    /// not give a record ends in it: a buffer that cannot hold a response,
    /// a parser that did not report success, whatever its status, or that
    /// filled nothing in, a name that is not well-formed UTF-8.
    pub fn parse_from(data: &[u8], status: i32, reply: Option<SoaReply>) -> (r: Result<
        SOAResult,
        AresError,
    >)
        ensures
            match spec_parse_from(data@, status, reply) {
                Ok(record) => r is Ok && r->Ok_0@ == record,
                Err(error) => r is Err && r->Err_0 == error,
            },
    {
        if SOAResult::parse_request(data).is_err() {
            return Err(AresError::ParseFailure);
        }
        if status != ARES_SUCCESS {
            return Err(AresError::ParseFailure);
        }
        match reply {
            None => Err(AresError::ParseFailure),
            Some(reply) => SOAResult::new(&reply),
        }
    }

    /// Reads a reply that the engine's parser filled in.
    fn new(reply: &SoaReply) -> (r: Result<SOAResult, AresError>)
        ensures
            match spec_record(ARES_SUCCESS, Some(*reply)) {
                Some(record) => r is Ok && r->Ok_0@ == record,
                None => r is Err && r->Err_0 == AresError::ParseFailure,
            },
    {
        let name_server = match terminated_text(reply.nsname.as_slice()) {
            Some(text) => text,
            None => {
                return Err(AresError::ParseFailure);
            },
        };
        let hostmaster = match terminated_text(reply.hostmaster.as_slice()) {
            Some(text) => text,
            None => {
                return Err(AresError::ParseFailure);
            },
        };
        Ok(
            SOAResult {
                name_server,
                hostmaster,
                serial: reply.serial,
                refresh: reply.refresh,
                retry: reply.retry,
                expire: reply.expire,
                min_ttl: reply.minttl,
            },
        )
    }

    /// Returns the name server from this `SOAResult`.
    pub fn name_server(&self) -> (r: &str)
        ensures
            r@ == self@.name_server,
    {
        self.name_server.as_str()
    }

    /// Returns the hostmaster from this `SOAResult`.
    pub fn hostmaster(&self) -> (r: &str)
        ensures
            r@ == self@.hostmaster,
    {
        self.hostmaster.as_str()
    }

    /// Returns the serial number from this `SOAResult`.
    pub fn serial(&self) -> (r: u32)
        ensures
            r == self@.serial,
    {
        self.serial
    }

    /// Returns the refresh time from this `SOAResult`.
    pub fn refresh(&self) -> (r: u32)
        ensures
            r == self@.refresh,
    {
        self.refresh
    }

    /// Returns the retry time from this `SOAResult`.
    pub fn retry(&self) -> (r: u32)
        ensures
            r == self@.retry,
    {
        self.retry
    }

    /// Returns the expire time from this `SOAResult`.
    pub fn expire(&self) -> (r: u32)
        ensures
            r == self@.expire,
    {
        self.expire
    }

    /// Returns the minimum time-to-live from this `SOAResult`.
    pub fn min_ttl(&self) -> (r: u32)
        ensures
            r == self@.min_ttl,
    {
        self.min_ttl
    }

    /// Describes this `SOAResult` in one line of text.
    pub fn to_text(&self) -> (text: String)
        ensures
            text@ == spec_text(self@),
    {
        let mut text = String::from_str("Name server: ");
        text.append(self.name_server.as_str());
        text.append(", Hostmaster: ");
        text.append(self.hostmaster.as_str());
        text.append(", Serial: ");
        append_decimal(&mut text, self.serial);
        text.append(", Refresh: ");
        append_decimal(&mut text, self.refresh);
        text.append(", Retry: ");
        append_decimal(&mut text, self.retry);
        text.append(", Expire: ");
        append_decimal(&mut text, self.expire);
        text.append(", Minimum time-to-live: ");
        append_decimal(&mut text, self.min_ttl);
        text
    }
}

/// Turns the completion of an SOA query into its result: the failure that
/// the status stands for, or what parsing the response gives.
pub fn query_soa_callback(
    status: i32,
    data: &[u8],
    parse_status: i32,
    reply: Option<SoaReply>,
) -> (r: Result<SOAResult, AresError>)
    ensures
        match spec_query_soa(status, data@, parse_status, reply) {
            Ok(record) => r is Ok && r->Ok_0@ == record,
            Err(error) => r is Err && r->Err_0 == error,
        },
{
    if status != ARES_SUCCESS {
        Err(ares_error(status))
    } else {
        SOAResult::parse_from(data, parse_status, reply)
    }
}

/// A response gives a record or a parse failure and nothing else. It
/// gives the record exactly when the buffer can hold a response, the
/// engine's parser reported success and the reply it filled in can be
/// read. So a buffer that is empty, shorter than a header or longer than a
/// DNS message is a parse failure whatever the parser is said to have made
/// of it, and so is any buffer that the parser did not accept, whatever
/// status it gave.
pub proof fn lemma_malformed_is_parse_failure(data: Seq<u8>, status: i32, reply: Option<SoaReply>)
    ensures
        spec_parse_from(data, status, reply) is Err ==> spec_parse_from(data, status, reply)
            == Err::<SoaRecord, AresError>(AresError::ParseFailure),
        spec_parse_from(data, status, reply) is Ok <==> plausible_response(data) && status
            == ARES_SUCCESS && spec_record(ARES_SUCCESS, reply) is Some,
        data.len() < HEADER_LEN || data.len() > MAX_BUFFER_LEN || status != ARES_SUCCESS
            || reply is None ==> spec_parse_from(data, status, reply) == Err::<
            SoaRecord,
            AresError,
        >(AresError::ParseFailure),
{
}

} // verus!
