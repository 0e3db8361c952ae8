//! The session coordinator's decisions: how a resolve outcome and the
//! accumulated per-packet results become one closed `Report`. The raw
//! ICMP socket work is asynchronous I/O and stays outside the library.

use vstd::prelude::*;
use crate::ip::IpAddr;
use crate::resolver;

verus! {

/// Why a probe session could not run at all.
#[derive(Debug, Clone, Copy, PartialEq, Eq, Structural)]
pub enum Error {
    PingError,
    CreateResolverError,
}

/// The outcome of one probe session. Each entry of `pings` is the
/// round-trip time of one probe in whole milliseconds, or `None` where no
/// reply arrived within the per-packet timeout.
#[derive(Debug)]
pub enum Report {
    ResolveNotFound,
    ResolveTimedOut,
    ResolveOtherError,
    Success { resolve_time_ns: u64, addr: IpAddr, pings: Vec<Option<u64>> },
}

/// The report for a resolve step that produced no address: the inner
/// resolver error where there was one, and a timeout where the deadline
/// elapsed with no inner result.
pub fn resolve_failure_report(inner: Option<resolver::Error>) -> (r: Report)
    ensures
        inner == Some(resolver::Error::NotFound) ==> r is ResolveNotFound,
        inner == Some(resolver::Error::Error) ==> r is ResolveOtherError,
        inner is None ==> r is ResolveTimedOut,
{
    match inner {
        Some(resolver::Error::NotFound) => Report::ResolveNotFound,
        Some(resolver::Error::Error) => Report::ResolveOtherError,
        None => Report::ResolveTimedOut,
    }
}

/// The report for a session whose resolve step succeeded: the measured
/// resolve time, the address probed, and the accumulated outcomes, kept
/// in emission order and in full.
pub fn success_report(resolve_time_ns: u64, addr: IpAddr, pings: Vec<Option<u64>>) -> (r: Report)
    ensures
        r matches Report::Success { resolve_time_ns: rt, addr: a, pings: p } && rt
            == resolve_time_ns && a == addr && p@ == pings@,
{
    Report::Success { resolve_time_ns, addr, pings }
}

} // verus!
