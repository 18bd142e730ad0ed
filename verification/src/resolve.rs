//! Interval-gated address resolution: turns the configured remote strings
//! into socket addresses, tolerating unresolved entries, with a
//! deterministic pick when a name maps to several addresses.

use vstd::prelude::*;
use vstd::string::StringSliceAdditionalSpecFns;
use crate::addr::{IpAddress, SockAddr, is_ipv4_literal, ipv4_literal_value, min_ip, parse_ipv4};
use crate::wire::string_bytes;

verus! {

/// Seconds that must pass between two resolution attempts that run.
pub const DOMAIN_LOOKUP_INTERVAL: u64 = 180;

/// A resolution attempt at `now` runs only when the last one that ran lies
/// at least `DOMAIN_LOOKUP_INTERVAL` seconds back.
pub open spec fn lookup_due(last: u64, now: u64) -> bool {
    now >= last + DOMAIN_LOOKUP_INTERVAL
}

/// Decides `lookup_due` at run time.
pub fn lookup_due_exec(last: u64, now: u64) -> (r: bool)
    ensures
        r == lookup_due(last, now),
{
    match last.checked_add(DOMAIN_LOOKUP_INTERVAL) {
        Some(gate) => now >= gate,
        None => false,
    }
}

/// Gate law: once an attempt has run at `t1`, any attempt issued less than
/// the interval later does not run (it reuses the cached address set).
pub proof fn lemma_single_lookup_per_interval(last: u64, t1: u64, t2: u64)
    requires
        lookup_due(last, t1),
        t2 < t1 + DOMAIN_LOOKUP_INTERVAL,
    ensures
        !lookup_due(t1, t2),
{
}

/// Relies on dns_lookup::lookup_host: resolves a host name through the
/// system name service.  The outcome depends on the environment, so nothing
/// is promised of the returned addresses; failure comes back as `None`.
#[verifier::external_body]
fn lookup_host_ips(name: &str) -> (r: Option<Vec<IpAddress>>) {
    match dns_lookup::lookup_host(name) {
        Ok(ips) => Some(
            ips.map(|ip| match ip {
                core::net::IpAddr::V4(v4) => IpAddress::V4(u32::from(v4)),
                core::net::IpAddr::V6(v6) => IpAddress::V6(u128::from(v6)),
            }).collect(),
        ),
        Err(_) => None,
    }
}

/// The address an IPv4 literal resolves to.
pub open spec fn literal_sock(s: String, port: u16) -> SockAddr {
    SockAddr { ip: IpAddress::V4(ipv4_literal_value(string_bytes(s))), port }
}

/// `src_idx` maps each resolved entry back to the remote it came from:
/// strictly increasing positions in the current list — so the entries
/// follow the remote list's order, each comes from a distinct current
/// remote and none from anywhere else — and an entry whose remote is an
/// IPv4 literal is forced to be exactly that literal's address.
pub open spec fn provenance_of(
    addrs: Seq<SockAddr>,
    remotes: Seq<String>,
    port: u16,
    src_idx: Seq<int>,
) -> bool {
    &&& src_idx.len() == addrs.len()
    &&& forall|k: int| 0 <= k < src_idx.len() ==> 0 <= #[trigger] src_idx[k] < remotes.len()
    &&& forall|k1: int, k2: int|
        0 <= k1 < k2 < src_idx.len() ==> #[trigger] src_idx[k1] < #[trigger] src_idx[k2]
    &&& forall|k: int|
        0 <= k < src_idx.len() && is_ipv4_literal(string_bytes(remotes[#[trigger] src_idx[k]]))
            ==> addrs[k] == literal_sock(remotes[src_idx[k]], port)
}

/// What any resolution of `remotes` against `port` guarantees: no more
/// addresses than remotes, every address on the configured port, every IPv4
/// literal present as itself, each entry traceable to a distinct current
/// remote in list order (`provenance_of` — nothing stale survives), and,
/// when every remote is a literal, exactly the literal list in order.
pub open spec fn resolution_of(addrs: Seq<SockAddr>, remotes: Seq<String>, port: u16) -> bool {
    &&& addrs.len() <= remotes.len()
    &&& forall|k: int| 0 <= k < addrs.len() ==> (#[trigger] addrs[k]).port == port
    &&& forall|i: int|
        0 <= i < remotes.len() && is_ipv4_literal(string_bytes(#[trigger] remotes[i]))
            ==> addrs.contains(literal_sock(remotes[i], port))
    &&& exists|src_idx: Seq<int>| provenance_of(addrs, remotes, port, src_idx)
    &&& (forall|i: int| 0 <= i < remotes.len() ==> is_ipv4_literal(
        string_bytes(#[trigger] remotes[i]),
    )) ==> addrs =~= remotes.map(|i: int, s: String| literal_sock(s, port))
}

/// Resolves every remote: a parseable IPv4 literal (`is_ipv4_literal`, the
/// dotted quad) is used directly with `port`; any other string — host
/// names and IPv6 literals alike — is handed to the name service, which
/// resolves numeric strings to themselves, and when it yields addresses
/// the smallest one is kept; a remote that fails to resolve contributes
/// nothing and aborts nothing.
#[verifier::rlimit(60)]
pub fn resolve_remotes(remotes: &Vec<String>, port: u16) -> (r: Vec<SockAddr>)
    ensures
        resolution_of(r@, remotes@, port),
{
    let mut out: Vec<SockAddr> = Vec::new();
    let ghost mut src_idx: Seq<int> = Seq::empty();
    let mut i: usize = 0;
    while i < remotes.len()
        invariant
            i <= remotes@.len(),
            out@.len() <= i,
            src_idx.len() == out@.len(),
            forall|k: int| 0 <= k < src_idx.len() ==> 0 <= #[trigger] src_idx[k] < i,
            forall|k1: int, k2: int|
                0 <= k1 < k2 < src_idx.len() ==> #[trigger] src_idx[k1] < #[trigger] src_idx[k2],
            forall|k: int|
                0 <= k < src_idx.len() && is_ipv4_literal(
                    string_bytes(remotes@[#[trigger] src_idx[k]]),
                ) ==> out@[k] == literal_sock(remotes@[src_idx[k]], port),
            forall|k: int| 0 <= k < out@.len() ==> (#[trigger] out@[k]).port == port,
            forall|j: int|
                0 <= j < i && is_ipv4_literal(string_bytes(#[trigger] remotes@[j]))
                    ==> out@.contains(literal_sock(remotes@[j], port)),
            (forall|j: int| 0 <= j < i ==> is_ipv4_literal(string_bytes(#[trigger] remotes@[j])))
                ==> out@ =~= remotes@.subrange(0, i as int).map(
                |j: int, s: String| literal_sock(s, port),
            ),
        decreases remotes@.len() - i,
    {
        let ghost pre = out@;
        let rstr = remotes[i].as_str();
        match parse_ipv4(rstr) {
            Some(ip) => {
                proof {
                    assert(rstr.spec_bytes() == string_bytes(remotes@[i as int]));
                }
                out.push(SockAddr { ip: IpAddress::V4(ip), port });
                proof {
                    src_idx = src_idx.push(i as int);
                    assert(out@[pre.len() as int] == literal_sock(remotes@[i as int], port));
                    assert(out@.contains(literal_sock(remotes@[i as int], port)));
                }
            },
            None => {
                // not a literal; ask the name service, keep the smallest
                match lookup_host_ips(rstr) {
                    Some(ips) => {
                        if ips.len() > 0 {
                            let best = min_ip(&ips);
                            out.push(SockAddr { ip: best, port });
                            proof {
                                src_idx = src_idx.push(i as int);
                            }
                        }
                    },
                    None => {},
                }
            },
        }
        proof {
            assert forall|y: SockAddr| pre.contains(y) implies out@.contains(y) by {
                let w = choose|w: int| 0 <= w < pre.len() && pre[w] == y;
                assert(out@[w] == y);
            }
            if forall|j: int|
                0 <= j < i + 1 ==> is_ipv4_literal(string_bytes(#[trigger] remotes@[j])) {
                let m = remotes@.subrange(0, i + 1).map(|j: int, s: String| literal_sock(s, port));
                assert forall|k: int| 0 <= k < m.len() implies out@[k] == m[k] by {
                    assert(m[k] == literal_sock(remotes@.subrange(0, i + 1)[k], port));
                    if k < i {
                        assert(pre =~= remotes@.subrange(0, i as int).map(
                            |j: int, s: String| literal_sock(s, port),
                        ));
                        assert(pre[k] == literal_sock(remotes@[k], port));
                    }
                }
                assert(out@ =~= m);
            }
        }
        i = i + 1;
    }
    proof {
        assert(remotes@.subrange(0, remotes@.len() as int) =~= remotes@);
        assert(provenance_of(out@, remotes@, port, src_idx));
    }
    out
}

} // verus!
