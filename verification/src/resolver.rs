//! The decision logic of name resolution: the literal fast path and the
//! choice of one record out of a lookup answer. The lookup itself is
//! asynchronous I/O and stays outside the library.

use vstd::prelude::*;
use rand::seq::SliceRandom;
use crate::ip::IpAddr;
use crate::utils::NameOrIpAddr;

verus! {

/// Why a resolve step failed.
#[derive(Debug, Clone, Copy, PartialEq, Eq, Structural)]
pub enum Error {
    NotFound,
    Error,
}

/// What the literal fast path yields: an IP-address target resolves to
/// itself in zero nanoseconds; a name needs a lookup.
pub open spec fn spec_resolve_literal(target: (Option<IpAddr>, Seq<char>)) -> Option<(u64, IpAddr)> {
    match target.0 {
        Some(a) => Some((0u64, a)),
        None => None,
    }
}

/// A literal target resolves to itself at once: no time is spent and the
/// address probed is the target's own, whatever protocol was asked for.
pub proof fn lemma_literal_resolves_to_self(target: (Option<IpAddr>, Seq<char>), a: IpAddr)
    requires
        target.0 == Some(a),
    ensures
        spec_resolve_literal(target) == Some((0u64, a)),
{
}

/// Resolve a literal target without any lookup.
pub fn resolve_literal(target: &NameOrIpAddr) -> (r: Option<(u64, IpAddr)>)
    ensures
        r == spec_resolve_literal(target@),
{
    match target {
        NameOrIpAddr::IpAddr(a) => Some((0, *a)),
        NameOrIpAddr::Name(_) => None,
    }
}

/// Relies on rand's `SliceRandom::choose` (with `thread_rng`): it returns
/// some element of the slice, and `None` exactly when the slice is empty.
/// Which element comes back is left open.
#[verifier::external_body]
fn pick_addr(addrs: &Vec<IpAddr>) -> (r: Option<IpAddr>)
    ensures
        r is Some <==> addrs@.len() > 0,
        r matches Some(a) ==> exists|i: int| 0 <= i < addrs@.len() && addrs@[i] == a,
{
    addrs.as_slice().choose(&mut rand::thread_rng()).copied()
}

/// Choose one address out of a lookup answer, uniformly at random; an
/// empty answer is the not-found case.
pub fn select_addr(addrs: &Vec<IpAddr>) -> (r: Result<IpAddr, Error>)
    ensures
        r is Ok <==> addrs@.len() > 0,
        r matches Ok(a) ==> exists|i: int| 0 <= i < addrs@.len() && addrs@[i] == a,
        r matches Err(e) ==> e == Error::NotFound,
{
    match pick_addr(addrs) {
        Some(a) => Ok(a),
        None => Err(Error::NotFound),
    }
}

} // verus!
