//! The one failure a host decode can report: a cause, with a fixed,
//! human-readable message for each.

use vstd::prelude::*;

verus! {

/// Why decoding a host record failed.
#[derive(Clone, Copy, Debug, PartialEq, Eq, Structural)]
pub enum Error {
    /// The `address` node has no `addr` attribute.
    MissingAddr,
    /// The `addr` attribute is not the text of an IP address.
    InvalidIpAddress,
    /// The `status` node has no `state` attribute.
    MissingStatusState,
    /// The `state` attribute names no recognized state.
    InvalidStatusState,
    /// The `status` node has no `reason` attribute.
    MissingStatusReason,
    /// The `status` node has no `reason_ttl` attribute.
    MissingStatusReasonTtl,
    /// The `reason_ttl` attribute is not a small unsigned integer.
    InvalidStatusReasonTtl,
    /// The `hostname` node has no `name` attribute.
    MissingHostnameName,
    /// The `hostname` node has no `type` attribute.
    MissingHostnameType,
    /// The `type` attribute names no recognized name source.
    InvalidHostnameType,
    /// The `script` node has no `id` attribute.
    MissingScriptId,
    /// The `script` node has no `output` attribute.
    MissingScriptOutput,
    /// The host's `starttime` attribute is not an integer.
    InvalidStartTime,
    /// The host's `endtime` attribute is not an integer.
    InvalidEndTime,
    /// The host node has no `status` child.
    MissingStatus,
}

/// The report of `e`, exactly as `Error::message` returns it.
pub open spec fn spec_message(e: Error) -> Seq<char> {
    match e {
        Error::MissingAddr => "error parsing Nmap XML output: expected `addr` attribute in `address` node"@,
        Error::InvalidIpAddress => "error parsing Nmap XML output: failed to parse IP address"@,
        Error::MissingStatusState => "error parsing Nmap XML output: expected `state` attribute in `hoststatus` node"@,
        Error::InvalidStatusState => "error parsing Nmap XML output: failed to parse `state` attribute in `hoststatus` node"@,
        Error::MissingStatusReason => "error parsing Nmap XML output: expected `reason` attribute in `hoststatus` node"@,
        Error::MissingStatusReasonTtl => "error parsing Nmap XML output: expected `reason_ttl` attribute in `hoststatus` node"@,
        Error::InvalidStatusReasonTtl => "error parsing Nmap XML output: failed to parse `reason_ttl` attribute in `hoststatus` node"@,
        Error::MissingHostnameName => "error parsing Nmap XML output: expected `name` attribute in `hostname` node"@,
        Error::MissingHostnameType => "error parsing Nmap XML output: expected `type` attribute in `hostname` node"@,
        Error::InvalidHostnameType => "error parsing Nmap XML output: failed to parse `type` attribute in `hostname` node"@,
        Error::MissingScriptId => "error parsing Nmap XML output: expected `id` attribute in `script` node"@,
        Error::MissingScriptOutput => "error parsing Nmap XML output: expected `output` attribute in `script` node"@,
        Error::InvalidStartTime => "error parsing Nmap XML output: failed to parse host start time"@,
        Error::InvalidEndTime => "error parsing Nmap XML output: failed to parse host end time"@,
        Error::MissingStatus => "error parsing Nmap XML output: expected `status` node for host"@,
    }
}

impl Error {
    /// The failure as text: a fixed context prefix, then the cause.
    pub fn message(&self) -> (r: String)
        ensures
            r@ == spec_message(*self),
    {
        match self {
            Error::MissingAddr => "error parsing Nmap XML output: expected `addr` attribute in `address` node".to_owned(),
            Error::InvalidIpAddress => "error parsing Nmap XML output: failed to parse IP address".to_owned(),
            Error::MissingStatusState => "error parsing Nmap XML output: expected `state` attribute in `hoststatus` node".to_owned(),
            Error::InvalidStatusState => "error parsing Nmap XML output: failed to parse `state` attribute in `hoststatus` node".to_owned(),
            Error::MissingStatusReason => "error parsing Nmap XML output: expected `reason` attribute in `hoststatus` node".to_owned(),
            Error::MissingStatusReasonTtl => "error parsing Nmap XML output: expected `reason_ttl` attribute in `hoststatus` node".to_owned(),
            Error::InvalidStatusReasonTtl => "error parsing Nmap XML output: failed to parse `reason_ttl` attribute in `hoststatus` node".to_owned(),
            Error::MissingHostnameName => "error parsing Nmap XML output: expected `name` attribute in `hostname` node".to_owned(),
            Error::MissingHostnameType => "error parsing Nmap XML output: expected `type` attribute in `hostname` node".to_owned(),
            Error::InvalidHostnameType => "error parsing Nmap XML output: failed to parse `type` attribute in `hostname` node".to_owned(),
            Error::MissingScriptId => "error parsing Nmap XML output: expected `id` attribute in `script` node".to_owned(),
            Error::MissingScriptOutput => "error parsing Nmap XML output: expected `output` attribute in `script` node".to_owned(),
            Error::InvalidStartTime => "error parsing Nmap XML output: failed to parse host start time".to_owned(),
            Error::InvalidEndTime => "error parsing Nmap XML output: failed to parse host end time".to_owned(),
            Error::MissingStatus => "error parsing Nmap XML output: expected `status` node for host".to_owned(),
        }
    }
}

} // verus!
