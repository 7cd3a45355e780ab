//! Per-domain probe classification: turning the outcomes of the two DNS
//! lookups (nameserver records, address records) into a registration verdict.

use vstd::prelude::*;
use vstd::string::StringExecFns;

verus! {

/// Why a single DNS lookup produced no records.
pub enum LookupError {
    /// The resolver answered, but the name has no records of the queried
    /// type. Expected for unregistered domains; never surfaced as an error.
    NoRecordsFound,
    /// Any other failure (network, timeout, protocol), with its message.
    OtherFailure(String),
}

/// Registration verdict for one domain, derived from the outcomes of its
/// nameserver lookup and its address lookup.
pub struct DomainStatus {
    pub domain: String,
    pub registered: bool,
    pub has_dns: bool,
    pub has_ip: bool,
    pub nameservers: Vec<String>,
    pub ip_addresses: Vec<String>,
    pub error: Option<String>,
}

impl DomainStatus {
    /// A probe result is well formed when the verdict agrees with the two
    /// record flags, the record lists are empty for lookups that found
    /// nothing, and an error is carried only while the domain counts as
    /// unregistered.
    pub open spec fn wf(self) -> bool {
        &&& self.registered == (self.has_dns || self.has_ip)
        &&& !self.has_dns ==> self.nameservers@.len() == 0
        &&& !self.has_ip ==> self.ip_addresses@.len() == 0
        &&& self.error is Some ==> !self.registered
    }
}

/// The advisory message recorded when the nameserver lookup fails for a
/// reason other than "no records found".
pub open spec fn ns_error_message(msg: Seq<char>) -> Seq<char> {
    "NS lookup error: "@ + msg
}

/// The advisory message recorded when the address lookup fails for a reason
/// other than "no records found".
pub open spec fn ip_error_message(msg: Seq<char>) -> Seq<char> {
    "IP lookup error: "@ + msg
}

/// The error a probe ends with: the last failure other than "no records
/// found" observed while the domain was still unregistered, and nothing at
/// all once either lookup has succeeded.
pub open spec fn probe_error(
    ns_outcome: Result<Vec<String>, LookupError>,
    ip_outcome: Result<Vec<String>, LookupError>,
) -> Option<Seq<char>> {
    if ns_outcome is Ok || ip_outcome is Ok {
        None
    } else {
        match (ns_outcome, ip_outcome) {
            (_, Err(LookupError::OtherFailure(m))) => Some(ip_error_message(m@)),
            (Err(LookupError::OtherFailure(m)), _) => Some(ns_error_message(m@)),
            _ => None,
        }
    }
}

/// Classifies the two lookup outcomes for `domain` into its status record.
///
/// The record flags mirror the outcomes; a domain counts as registered
/// exactly when either lookup returned records. Record lists keep the
/// resolver-returned order. The error field follows the last-failure-while-
/// unregistered policy of `probe_error`: a benign "no records found" never
/// sets it, a later address failure overwrites a nameserver failure, and any
/// success leaves the final record error-free.
pub fn check_domain(
    domain: String,
    ns_outcome: Result<Vec<String>, LookupError>,
    ip_outcome: Result<Vec<String>, LookupError>,
) -> (status: DomainStatus)
    ensures
        status.wf(),
        status.domain == domain,
        status.has_dns == ns_outcome is Ok,
        status.has_ip == ip_outcome is Ok,
        status.registered == (ns_outcome is Ok || ip_outcome is Ok),
        ns_outcome matches Ok(records) ==> status.nameservers == records,
        ns_outcome is Err ==> status.nameservers@.len() == 0,
        ip_outcome matches Ok(records) ==> status.ip_addresses == records,
        ip_outcome is Err ==> status.ip_addresses@.len() == 0,
        match probe_error(ns_outcome, ip_outcome) {
            Some(msg) => status.error matches Some(e) && e@ == msg,
            None => status.error is None,
        },
{
    let mut status = DomainStatus {
        domain,
        registered: false,
        has_dns: false,
        has_ip: false,
        nameservers: Vec::new(),
        ip_addresses: Vec::new(),
        error: None,
    };

    match ns_outcome {
        Ok(records) => {
            status.has_dns = true;
            status.registered = true;
            status.nameservers = records;
        }
        Err(LookupError::NoRecordsFound) => {}
        Err(LookupError::OtherFailure(msg)) => {
            if !status.registered {
                status.error = Some("NS lookup error: ".to_owned().concat(msg.as_str()));
            }
        }
    }

    match ip_outcome {
        Ok(records) => {
            status.has_ip = true;
            status.registered = true;
            status.ip_addresses = records;
            status.error = None;
        }
        Err(LookupError::NoRecordsFound) => {}
        Err(LookupError::OtherFailure(msg)) => {
            if !status.registered {
                status.error = Some("IP lookup error: ".to_owned().concat(msg.as_str()));
            }
        }
    }

    status
}

} // verus!
