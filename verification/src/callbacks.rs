//! What the engine's callbacks are turned into.

use vstd::prelude::*;
use crate::channel::EngineEvent;
use crate::error::{ares_error, spec_ares_error, AresError, ARES_SUCCESS};
use crate::hostent::{holds_ipv4, holds_ipv6, read_ipv4_list, read_ipv6_list};
use crate::types::{AAAAResult, AResult};

verus! {

/// Turns a socket state report of the engine into an event for the
/// channel. The engine gives the two states as numbers, where anything but
/// zero means yes; the descriptor is handed on as it is.
pub fn socket_callback(socket_fd: i32, readable: i32, writable: i32) -> (event: EngineEvent)
    ensures
        event == (EngineEvent::SocketState {
            fd: socket_fd,
            readable: readable != 0,
            writable: writable != 0,
        }),
{
    EngineEvent::SocketState { fd: socket_fd, readable: readable != 0, writable: writable != 0 }
}

/// The failure that the completion of an address query gives, if it gives
/// one: the failure that the status of the query stands for, or else the
/// one that the status of the engine's parser stands for.
pub open spec fn spec_query_failure(status: i32, parse_status: i32) -> Option<AresError> {
    if status != ARES_SUCCESS {
        Some(spec_ares_error(status))
    } else if parse_status != ARES_SUCCESS {
        Some(spec_ares_error(parse_status))
    } else {
        None
    }
}

/// Turns the completion of an A query into its result. `addr_list` is the
/// address list that the engine's parser made of the response. On success
/// the result holds its addresses in the order of the list.
pub fn query_a_callback(status: i32, parse_status: i32, addr_list: &Vec<Vec<u8>>) -> (r: Result<
    AResult,
    AresError,
>)
    ensures
        match spec_query_failure(status, parse_status) {
            Some(error) => r is Err && r->Err_0 == error,
            None => r is Ok && holds_ipv4(addr_list@, r->Ok_0.ip_addrs@),
        },
{
    if status != ARES_SUCCESS {
        Err(ares_error(status))
    } else if parse_status != ARES_SUCCESS {
        Err(ares_error(parse_status))
    } else {
        Ok(AResult { ip_addrs: read_ipv4_list(addr_list) })
    }
}

/// Turns the completion of an AAAA query into its result. `addr_list` is
/// the address list that the engine's parser made of the response. On
/// success the result holds its addresses in the order of the list.
pub fn query_aaaa_callback(status: i32, parse_status: i32, addr_list: &Vec<Vec<u8>>) -> (r:
    Result<AAAAResult, AresError>)
    ensures
        match spec_query_failure(status, parse_status) {
            Some(error) => r is Err && r->Err_0 == error,
            None => r is Ok && holds_ipv6(addr_list@, r->Ok_0.ip_addrs@),
        },
{
    if status != ARES_SUCCESS {
        Err(ares_error(status))
    } else if parse_status != ARES_SUCCESS {
        Err(ares_error(parse_status))
    } else {
        Ok(AAAAResult { ip_addrs: read_ipv6_list(addr_list) })
    }
}

} // verus!
