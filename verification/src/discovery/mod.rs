//! Host discovery: which targets ARP covers, how each host is checked (ICMP
//! ping, then TCP connect probes), and the list of live hosts.

pub mod arp;

use vstd::prelude::*;
use crate::config::ScanConfig;
use crate::ip::{IpAddress, ip_le, ip_lt, ip_less, ip_text, ip_to_string};
use crate::scanners::ConnectOutcome;

verus! {

broadcast use vstd::seq_lib::group_to_multiset_ensures;

/// The IPv4 targets, in order (the ones ARP can resolve).
pub open spec fn v4_targets(ts: Seq<IpAddress>) -> Seq<u32>
    decreases ts.len(),
{
    if ts.len() == 0 {
        Seq::empty()
    } else {
        let r = v4_targets(ts.drop_last());
        match ts.last() {
            IpAddress::V4(a) => r.push(a),
            IpAddress::V6(_) => r,
        }
    }
}

/// The IPv4 targets among `targets`.
pub fn ipv4_targets(targets: &Vec<IpAddress>) -> (r: Vec<u32>)
    ensures
        r@ == v4_targets(targets@),
{
    let mut out: Vec<u32> = Vec::new();
    let mut i: usize = 0;
    while i < targets.len()
        invariant
            i <= targets@.len(),
            out@ == v4_targets(targets@.take(i as int)),
        decreases targets@.len() - i,
    {
        assert(targets@.take(i + 1).drop_last() =~= targets@.take(i as int));
        match targets[i] {
            IpAddress::V4(a) => out.push(a),
            IpAddress::V6(_) => {},
        }
        i += 1;
    }
    assert(targets@.take(targets@.len() as int) =~= targets@);
    out
}

/// The targets ARP did not find, in order: every IPv6 target and every IPv4
/// target absent from `found`.
pub open spec fn not_found(ts: Seq<IpAddress>, found: Seq<u32>) -> Seq<IpAddress>
    decreases ts.len(),
{
    if ts.len() == 0 {
        Seq::empty()
    } else {
        let r = not_found(ts.drop_last(), found);
        match ts.last() {
            IpAddress::V4(a) => if found.contains(a) {
                r
            } else {
                r.push(ts.last())
            },
            IpAddress::V6(_) => r.push(ts.last()),
        }
    }
}

fn contains_u32(v: &Vec<u32>, x: u32) -> (b: bool)
    ensures
        b == v@.contains(x),
{
    let mut i: usize = 0;
    while i < v.len()
        invariant
            i <= v@.len(),
            forall|k: int| 0 <= k < i ==> v@[k] != x,
        decreases v@.len() - i,
    {
        if v[i] == x {
            return true;
        }
        i += 1;
    }
    false
}

/// The targets left for ping discovery after ARP found `found`.
pub fn remaining_after_arp(targets: &Vec<IpAddress>, found: &Vec<u32>) -> (r: Vec<IpAddress>)
    ensures
        r@ == not_found(targets@, found@),
{
    let mut out: Vec<IpAddress> = Vec::new();
    let mut i: usize = 0;
    while i < targets.len()
        invariant
            i <= targets@.len(),
            out@ == not_found(targets@.take(i as int), found@),
        decreases targets@.len() - i,
    {
        assert(targets@.take(i + 1).drop_last() =~= targets@.take(i as int));
        let t = targets[i];
        match t {
            IpAddress::V4(a) => {
                if !contains_u32(found, a) {
                    out.push(t);
                }
            },
            IpAddress::V6(_) => out.push(t),
        }
        i += 1;
    }
    assert(targets@.take(targets@.len() as int) =~= targets@);
    out
}

/// The arguments of the system `ping` for one echo request with a one-second
/// wait: `-6` first for an IPv6 address.
pub open spec fn ping_arg_texts(ip: IpAddress) -> Seq<Seq<char>> {
    let common = seq!["-c"@, "1"@, "-W"@, "1"@, ip_text(ip)];
    match ip {
        IpAddress::V4(_) => common,
        IpAddress::V6(_) => seq!["-6"@] + common,
    }
}

/// The arguments handed to `ping` for `ip`.
pub fn ping_args(ip: IpAddress) -> (r: Vec<String>)
    ensures
        r@.map_values(|s: String| s@) == ping_arg_texts(ip),
{
    let mut r: Vec<String> = Vec::new();
    match ip {
        IpAddress::V6(_) => r.push("-6".to_owned()),
        IpAddress::V4(_) => {},
    }
    r.push("-c".to_owned());
    r.push("1".to_owned());
    r.push("-W".to_owned());
    r.push("1".to_owned());
    r.push(ip_to_string(ip));
    assert(r@.map_values(|s: String| s@) =~= ping_arg_texts(ip));
    r
}

/// A TCP probe shows the host alive when the connection was accepted or refused
/// (a reset comes from a live host).
pub fn tcp_probe_alive(outcome: ConnectOutcome) -> (b: bool)
    ensures
        b == (outcome == ConnectOutcome::Connected || outcome == ConnectOutcome::Refused),
{
    match outcome {
        ConnectOutcome::Connected => true,
        ConnectOutcome::Refused => true,
        _ => false,
    }
}

/// The next step in checking whether a host is alive.
#[derive(Debug, Clone, Copy, PartialEq, Eq, Structural)]
pub enum AliveStep {
    /// Send an ICMP echo request.
    Ping,
    /// Try TCP connections to the configured ports.
    TcpPing,
    /// The host is alive.
    Alive,
    /// The host did not answer.
    Dead,
}

/// After ping (or without it): TCP probes when ports are configured.
pub open spec fn tcp_or_dead(config: ScanConfig) -> AliveStep {
    if config.tcp_ping_ports@.len() > 0 {
        AliveStep::TcpPing
    } else {
        AliveStep::Dead
    }
}

/// The first step: ping when ICMP discovery is enabled, else the TCP probes.
pub fn first_alive_step(config: &ScanConfig) -> (s: AliveStep)
    ensures
        s == if config.ping_discovery {
            AliveStep::Ping
        } else {
            tcp_or_dead(*config)
        },
{
    if config.ping_discovery {
        AliveStep::Ping
    } else if config.tcp_ping_ports.len() > 0 {
        AliveStep::TcpPing
    } else {
        AliveStep::Dead
    }
}

/// The step after a ping: alive when it was answered, else the TCP probes.
pub fn after_ping(config: &ScanConfig, answered: bool) -> (s: AliveStep)
    ensures
        s == if answered {
            AliveStep::Alive
        } else {
            tcp_or_dead(*config)
        },
{
    if answered {
        AliveStep::Alive
    } else if config.tcp_ping_ports.len() > 0 {
        AliveStep::TcpPing
    } else {
        AliveStep::Dead
    }
}

/// The step after the TCP probes: alive when one of them showed the host.
pub fn after_tcp_ping(any_alive: bool) -> (s: AliveStep)
    ensures
        s == if any_alive {
            AliveStep::Alive
        } else {
            AliveStep::Dead
        },
{
    if any_alive {
        AliveStep::Alive
    } else {
        AliveStep::Dead
    }
}

/// Addresses in ascending order (repeats allowed).
pub open spec fn ips_sorted(s: Seq<IpAddress>) -> bool {
    forall|i: int, j: int| 0 <= i < j < s.len() ==> ip_le(s[i], s[j])
}

/// The ARP-found addresses as IPv4 addresses.
pub open spec fn v4_addresses(found: Seq<u32>) -> Seq<IpAddress> {
    found.map_values(|a: u32| IpAddress::V4(a))
}

proof fn lemma_insert_sorted(s: Seq<IpAddress>, j: int, x: IpAddress)
    requires
        ips_sorted(s),
        0 <= j <= s.len(),
        forall|m: int| 0 <= m < j ==> ip_le(s[m], x),
        forall|m: int| j <= m < s.len() ==> ip_lt(x, s[m]),
    ensures
        ips_sorted(s.insert(j, x)),
        s.insert(j, x).to_multiset() == s.to_multiset().insert(x),
{
    let t = s.insert(j, x);
    assert forall|a: int, b: int| 0 <= a < b < t.len() implies ip_le(t[a], t[b]) by {
        if b < j {
        } else if b == j {
            assert(t[a] == s[a]);
        } else if a < j {
            assert(t[b] == s[b - 1]);
        } else if a == j {
            assert(t[b] == s[b - 1]);
        } else {
            assert(t[a] == s[a - 1]);
            assert(t[b] == s[b - 1]);
        }
    }
    assert(t.remove(j) =~= s);
    assert(t[j] == x);
    assert(t.to_multiset() =~= s.to_multiset().insert(x));
}

/// The live hosts: those ARP found and those ping discovery found, ascending.
pub fn discovered_hosts(arp_found: &Vec<u32>, alive: &Vec<IpAddress>) -> (r: Vec<IpAddress>)
    ensures
        ips_sorted(r@),
        r@.to_multiset() == (v4_addresses(arp_found@) + alive@).to_multiset(),
{
    let ghost all = v4_addresses(arp_found@) + alive@;
    let mut all_v: Vec<IpAddress> = Vec::new();
    let mut i: usize = 0;
    while i < arp_found.len()
        invariant
            i <= arp_found@.len(),
            all_v@ == v4_addresses(arp_found@).take(i as int),
        decreases arp_found@.len() - i,
    {
        all_v.push(IpAddress::V4(arp_found[i]));
        assert(all_v@ =~= v4_addresses(arp_found@).take(i + 1));
        i += 1;
    }
    let mut k: usize = 0;
    while k < alive.len()
        invariant
            k <= alive@.len(),
            all_v@ == v4_addresses(arp_found@) + alive@.take(k as int),
        decreases alive@.len() - k,
    {
        all_v.push(alive[k]);
        assert(all_v@ =~= v4_addresses(arp_found@) + alive@.take(k + 1));
        k += 1;
    }
    assert(all_v@ =~= all);
    let mut out: Vec<IpAddress> = Vec::new();
    let mut n: usize = 0;
    while n < all_v.len()
        invariant
            n <= all_v@.len(),
            all_v@ == all,
            ips_sorted(out@),
            out@.to_multiset() == all.take(n as int).to_multiset(),
        decreases all_v@.len() - n,
    {
        let x = all_v[n];
        let mut j: usize = out.len();
        while j > 0 && ip_less(x, out[j - 1])
            invariant
                j <= out@.len(),
                forall|m: int| j <= m < out@.len() ==> ip_lt(x, out@[m]),
            decreases j,
        {
            j -= 1;
        }
        proof {
            assert forall|m: int| 0 <= m < j implies ip_le(out@[m], x) by {
                assert(ip_le(out@[m], out@[j - 1]) || m == j - 1);
            }
            lemma_insert_sorted(out@, j as int, x);
            assert(all.take(n + 1) =~= all.take(n as int).push(x));
        }
        out.insert(j, x);
        n += 1;
    }
    assert(all.take(all_v@.len() as int) =~= all);
    out
}

} // verus!
