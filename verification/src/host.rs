//! The result of a host lookup.

use vstd::prelude::*;
use crate::error::{ares_error, spec_ares_error, AresError, LookupFailure, ARES_SUCCESS};
use crate::hostent::{holds_addresses, read_addresses, Hostent};
use crate::text::{spec_terminated_text, terminated_text};
use crate::types::IpAddress;

verus! {

/// What a host result holds.
pub struct HostRecord {
    pub hostname: Seq<char>,
    pub addresses: Seq<IpAddress>,
    pub aliases: Seq<Seq<char>>,
}

/// The result of a successful host lookup.
#[derive(Debug)]
pub struct HostResults {
    hostname: String,
    addresses: Vec<IpAddress>,
    aliases: Vec<String>,
}

impl View for HostResults {
    type V = HostRecord;

    closed spec fn view(&self) -> HostRecord {
        HostRecord {
            hostname: self.hostname@,
            addresses: self.addresses@,
            aliases: Seq::new(self.aliases@.len(), |i: int| self.aliases@[i]@),
        }
    }
}

/// Whether every name of a host entry can be read as text.
pub open spec fn names_readable(hostent: Hostent) -> bool {
    &&& spec_terminated_text(hostent.name@) is Some
    &&& forall|i: int|
        0 <= i < hostent.aliases@.len() ==> spec_terminated_text(
            #[trigger] hostent.aliases@[i]@,
        ) is Some
}

/// Whether a record is what a host entry says: the name and the aliases
/// are the texts of the entry, the aliases in the order of the entry, and
/// the addresses are those that the address list holds for the family.
pub open spec fn describes(hostent: Hostent, record: HostRecord) -> bool {
    &&& Some(record.hostname) == spec_terminated_text(hostent.name@)
    &&& record.aliases.len() == hostent.aliases@.len()
    &&& forall|i: int|
        0 <= i < record.aliases.len() ==> Some(#[trigger] record.aliases[i])
            == spec_terminated_text(hostent.aliases@[i]@)
    &&& holds_addresses(hostent.family, hostent.addr_list@, record.addresses)
}

/// The failure that `get_host_callback` gives, if it gives one: the
/// failure that the status stands for; `NoData` for a success without a
/// host entry; a parse failure for an entry with a name that is not
/// well-formed UTF-8.
pub open spec fn spec_host_failure(status: i32, hostent: Option<Hostent>) -> Option<AresError> {
    if status != ARES_SUCCESS {
        Some(spec_ares_error(status))
    } else {
        match hostent {
            None => Some(AresError::Lookup(LookupFailure::NoData)),
            Some(hostent) => if names_readable(hostent) {
                None
            } else {
                Some(AresError::ParseFailure)
            },
        }
    }
}

impl HostResults {
    /// Reads a host entry.
    fn new(hostent: &Hostent) -> (r: Result<HostResults, AresError>)
        ensures
            names_readable(*hostent) ==> r is Ok && describes(*hostent, r->Ok_0@),
            !names_readable(*hostent) ==> r is Err && r->Err_0 == AresError::ParseFailure,
    {
        let hostname = match terminated_text(hostent.name.as_slice()) {
            Some(text) => text,
            None => {
                return Err(AresError::ParseFailure);
            },
        };
        let mut aliases: Vec<String> = Vec::new();
        let mut i: usize = 0;
        while i < hostent.aliases.len()
            invariant
                i <= hostent.aliases@.len(),
                aliases@.len() == i,
                forall|k: int|
                    0 <= k < i ==> Some((#[trigger] aliases@[k])@) == spec_terminated_text(
                        hostent.aliases@[k]@,
                    ),
            decreases hostent.aliases@.len() - i,
        {
            match terminated_text(hostent.aliases[i].as_slice()) {
                Some(text) => {
                    aliases.push(text);
                },
                None => {
                    assert(spec_terminated_text(hostent.aliases@[i as int]@) is None);
                    return Err(AresError::ParseFailure);
                },
            }
            i = i + 1;
        }
        let addresses = read_addresses(hostent.family, &hostent.addr_list);
        let results = HostResults { hostname, addresses, aliases };
        proof {
            assert forall|k: int| 0 <= k < hostent.aliases@.len() implies spec_terminated_text(
                #[trigger] hostent.aliases@[k]@,
            ) is Some by {
                assert(Some(aliases@[k]@) == spec_terminated_text(hostent.aliases@[k]@));
            }
            assert forall|k: int| 0 <= k < results@.aliases.len() implies Some(
                #[trigger] results@.aliases[k],
            ) == spec_terminated_text(hostent.aliases@[k]@) by {
                assert(Some(aliases@[k]@) == spec_terminated_text(hostent.aliases@[k]@));
            }
        }
        Ok(results)
    }

    /// Returns the hostname from this `HostResults`.
    pub fn hostname(&self) -> (r: &str)
        ensures
            r@ == self@.hostname,
    {
        self.hostname.as_str()
    }

    /// Returns the addresses in this `HostResults`, in the order the
    /// engine gave them.
    pub fn addresses(&self) -> (r: &[IpAddress])
        ensures
            r@ == self@.addresses,
    {
        self.addresses.as_slice()
    }

    /// Returns the host aliases in this `HostResults`, in the order the
    /// engine gave them.
    pub fn aliases(&self) -> (r: &[String])
        ensures
            r@.len() == self@.aliases.len(),
            forall|i: int| 0 <= i < r@.len() ==> (#[trigger] r@[i])@ == self@.aliases[i],
    {
        self.aliases.as_slice()
    }
}

/// Turns the completion of a host lookup into its result: the failure that
/// the status stands for, or else what the host entry says.
pub fn get_host_callback(status: i32, hostent: Option<Hostent>) -> (r: Result<
    HostResults,
    AresError,
>)
    ensures
        match spec_host_failure(status, hostent) {
            Some(error) => r is Err && r->Err_0 == error,
            None => r is Ok && describes(hostent->Some_0, r->Ok_0@),
        },
{
    if status != ARES_SUCCESS {
        return Err(ares_error(status));
    }
    match hostent {
        None => Err(AresError::Lookup(LookupFailure::NoData)),
        Some(hostent) => HostResults::new(&hostent),
    }
}

} // verus!
