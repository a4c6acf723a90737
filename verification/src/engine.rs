//! Assembling the probe results of a scan into per-host results.
//!
//! The probing itself runs concurrently and hands back one `(address, port,
//! status)` triple per probe, in whatever order the probes finish.

use vstd::prelude::*;
use crate::ip::{IpAddress, ip_lt, ip_less};
use crate::model::{
    PortStatus, TransportProtocol, PortResult, PortView, HostResult, HostView, HostStatus,
    ScanResultSummary, port_views, host_views,
};

verus! {

broadcast use vstd::seq_lib::group_to_multiset_ensures;

/// What one probe found: the address probed, the port, and its status.
pub type Probe = (IpAddress, u16, PortStatus);

/// The (port, status) pairs found for `ip`, in the order the probes finished.
pub open spec fn probes_of(rs: Seq<Probe>, ip: IpAddress) -> Seq<(u16, PortStatus)>
    decreases rs.len(),
{
    if rs.len() == 0 {
        Seq::empty()
    } else {
        let r = probes_of(rs.drop_last(), ip);
        if rs.last().0 == ip {
            r.push((rs.last().1, rs.last().2))
        } else {
            r
        }
    }
}

/// The (port, status) pair of each port result.
pub open spec fn port_entries(ps: Seq<PortView>) -> Seq<(u16, PortStatus)> {
    ps.map_values(|p: PortView| (p.port, p.status))
}

/// Port results in ascending port order.
pub open spec fn ascending_ports(ps: Seq<PortView>) -> bool {
    forall|i: int, j: int| 0 <= i < j < ps.len() ==> ps[i].port <= ps[j].port
}

/// A port result as a probe leaves it: the scanner's protocol and nothing
/// identified yet.
pub open spec fn bare_port(p: PortView, protocol: TransportProtocol) -> bool {
    &&& p.protocol == protocol
    &&& p.service is None
    &&& p.banner is None
    &&& p.confidence is None
    &&& p.confidence_source is None
    &&& p.cpe.len() == 0
}

/// Some port has a status other than filtered (open, closed, or open|filtered):
/// the host counts as up.
pub open spec fn answered(ps: Seq<PortView>) -> bool {
    exists|i: int| 0 <= i < ps.len() && ps[i].status != PortStatus::Filtered
}

/// Addresses in strictly ascending order (so each occurs once).
pub open spec fn ips_ascending(ips: Seq<IpAddress>) -> bool {
    forall|i: int, j: int| 0 <= i < j < ips.len() ==> ip_lt(ips[i], ips[j])
}

/// The number of hosts that are up.
pub open spec fn count_up(hs: Seq<HostView>) -> nat
    decreases hs.len(),
{
    if hs.len() == 0 {
        0
    } else {
        count_up(hs.drop_last()) + if hs.last().status == HostStatus::Up {
            1nat
        } else {
            0nat
        }
    }
}

/// The address of each host.
pub open spec fn host_ips(hs: Seq<HostView>) -> Seq<IpAddress> {
    hs.map_values(|h: HostView| h.ip)
}

/// The distinct addresses of `hosts`, ascending.
pub fn sorted_distinct_ips(hosts: &Vec<IpAddress>) -> (r: Vec<IpAddress>)
    ensures
        ips_ascending(r@),
        forall|x: IpAddress| r@.contains(x) <==> hosts@.contains(x),
{
    let mut out: Vec<IpAddress> = Vec::new();
    let mut k: usize = 0;
    while k < hosts.len()
        invariant
            k <= hosts@.len(),
            ips_ascending(out@),
            forall|x: IpAddress| out@.contains(x) <==> hosts@.take(k as int).contains(x),
        decreases hosts@.len() - k,
    {
        let x = hosts[k];
        let mut j: usize = out.len();
        while j > 0 && ip_less(x, out[j - 1])
            invariant
                j <= out@.len(),
                forall|m: int| j <= m < out@.len() ==> ip_lt(x, out@[m]),
            decreases j,
        {
            j -= 1;
        }
        assert(hosts@.take(k + 1) =~= hosts@.take(k as int).push(x));
        if j > 0 && out[j - 1] == x {
            assert(out@[j - 1] == x);
            assert forall|y: IpAddress| out@.contains(y) <==> hosts@.take(k + 1).contains(y) by {
                if y == x {
                    assert(hosts@.take(k + 1)[k as int] == x);
                }
            }
        } else {
            let ghost before = out@;
            assert(j > 0 ==> ip_lt(before[j - 1], x));
            out.insert(j, x);
            assert(forall|m: int| 0 <= m < j ==> out@[m] == before[m]);
            assert(forall|m: int| j < m < out@.len() ==> out@[m] == before[m - 1]);
            assert forall|y: IpAddress| out@.contains(y) <==> before.contains(y) || y == x by {
                if before.contains(y) {
                    let m = choose|m: int| 0 <= m < before.len() && before[m] == y;
                    if m < j {
                        assert(out@[m] == y);
                    } else {
                        assert(out@[m + 1] == y);
                    }
                }
                if out@.contains(y) && y != x {
                    let m = choose|m: int| 0 <= m < out@.len() && out@[m] == y;
                    if m < j {
                        assert(before[m] == y);
                    } else {
                        assert(before[m - 1] == y);
                    }
                }
                if y == x {
                    assert(out@[j as int] == x);
                }
            }
            assert forall|y: IpAddress| out@.contains(y) <==> hosts@.take(k + 1).contains(y) by {
                let t = hosts@.take(k as int);
                assert(out@.contains(y) <==> before.contains(y) || y == x);
                assert(before.contains(y) <==> t.contains(y));
                if y == x {
                    assert(hosts@.take(k + 1)[k as int] == x);
                }
                if t.contains(y) {
                    let m = choose|m: int| 0 <= m < t.len() && t[m] == y;
                    assert(hosts@.take(k + 1)[m] == y);
                }
                if hosts@.take(k + 1).contains(y) && y != x {
                    let m = choose|m: int| 0 <= m < k + 1 && #[trigger] hosts@.take(k + 1)[m] == y;
                    assert(hosts@.take(k + 1)[k as int] == x);
                    assert(t[m] == y);
                }
            }
            assert forall|a: int, b: int| 0 <= a < b < out@.len() implies ip_lt(out@[a], out@[b]) by {
                if b < j {
                } else if a < j && b == j {
                    assert(ip_lt(before[a], before[j - 1]) || a == j - 1);
                } else if a < j {
                    assert(out@[b] == before[b - 1]);
                } else if a == j {
                    assert(out@[b] == before[b - 1]);
                } else {
                    assert(out@[a] == before[a - 1]);
                    assert(out@[b] == before[b - 1]);
                }
            }
        }
        k += 1;
    }
    assert(hosts@.take(hosts@.len() as int) =~= hosts@);
    out
}

/// Where `ip` stands in `ips`, by binary search.
fn find_ip(ips: &Vec<IpAddress>, ip: IpAddress) -> (r: Option<usize>)
    requires
        ips_ascending(ips@),
    ensures
        match r {
            Some(i) => i < ips@.len() && ips@[i as int] == ip,
            None => !ips@.contains(ip),
        },
{
    let mut lo: usize = 0;
    let mut hi: usize = ips.len();
    while lo < hi
        invariant
            lo <= hi <= ips@.len(),
            ips_ascending(ips@),
            forall|m: int| 0 <= m < lo ==> ip_lt(ips@[m], ip),
            forall|m: int| hi <= m < ips@.len() ==> ip_lt(ip, ips@[m]),
        decreases hi - lo,
    {
        let mid = lo + (hi - lo) / 2;
        let v = ips[mid];
        if v == ip {
            return Some(mid);
        } else if ip_less(v, ip) {
            assert forall|m: int| 0 <= m <= mid implies ip_lt(ips@[m], ip) by {
                if m < mid {
                    assert(ip_lt(ips@[m], ips@[mid as int]));
                }
            }
            lo = mid + 1;
        } else {
            assert forall|m: int| mid <= m < ips@.len() implies ip_lt(ip, ips@[m]) by {
                if m > mid {
                    assert(ip_lt(ips@[mid as int], ips@[m]));
                }
            }
            hi = mid;
        }
    }
    assert forall|m: int| 0 <= m < ips@.len() implies ips@[m] != ip by {
        if m < lo {
            assert(ip_lt(ips@[m], ip));
        } else {
            assert(ip_lt(ip, ips@[m]));
        }
    }
    None
}

/// What holds of every host result while probes are being added to it.
pub open spec fn host_in_progress(h: HostView, protocol: TransportProtocol) -> bool {
    &&& ascending_ports(h.ports)
    &&& forall|j: int| 0 <= j < h.ports.len() ==> bare_port(#[trigger] h.ports[j], protocol)
    &&& (h.status == HostStatus::Up) == answered(h.ports)
    &&& h.os is None
}

proof fn lemma_insert_ascending(s: Seq<PortView>, j: int, pv: PortView)
    requires
        ascending_ports(s),
        0 <= j <= s.len(),
        forall|m: int| 0 <= m < j ==> s[m].port <= pv.port,
        forall|m: int| j <= m < s.len() ==> s[m].port > pv.port,
    ensures
        ascending_ports(s.insert(j, pv)),
{
    let t = s.insert(j, pv);
    assert forall|a: int, b: int| 0 <= a < b < t.len() implies t[a].port <= t[b].port by {
        if b < j {
        } else if b == j {
            assert(t[a] == s[a]);
        } else if a < j {
            assert(t[b] == s[b - 1]);
        } else if a == j {
            assert(t[b] == s[b - 1]);
        } else {
            assert(t[a] == s[a - 1]);
            assert(t[b] == s[b - 1]);
        }
    }
}

proof fn lemma_insert_bare(s: Seq<PortView>, j: int, pv: PortView, protocol: TransportProtocol)
    requires
        0 <= j <= s.len(),
        forall|m: int| 0 <= m < s.len() ==> bare_port(#[trigger] s[m], protocol),
        bare_port(pv, protocol),
    ensures
        forall|m: int| 0 <= m < s.len() + 1 ==> bare_port(#[trigger] s.insert(j, pv)[m], protocol),
{
    let t = s.insert(j, pv);
    assert forall|m: int| 0 <= m < t.len() implies bare_port(#[trigger] t[m], protocol) by {
        if m < j {
            assert(t[m] == s[m]);
        } else if m > j {
            assert(t[m] == s[m - 1]);
        }
    }
}

proof fn lemma_insert_answered(s: Seq<PortView>, j: int, pv: PortView)
    requires
        0 <= j <= s.len(),
    ensures
        answered(s.insert(j, pv)) == (answered(s) || pv.status != PortStatus::Filtered),
{
    let t = s.insert(j, pv);
    if answered(s) {
        let m = choose|m: int| 0 <= m < s.len() && s[m].status != PortStatus::Filtered;
        if m < j {
            assert(t[m] == s[m]);
        } else {
            assert(t[m + 1] == s[m]);
        }
    }
    if pv.status != PortStatus::Filtered {
        assert(t[j] == pv);
    }
    if answered(t) {
        let m = choose|m: int| 0 <= m < t.len() && t[m].status != PortStatus::Filtered;
        if m < j {
            assert(t[m] == s[m]);
        } else if m > j {
            assert(t[m] == s[m - 1]);
        }
    }
}

proof fn lemma_insert_entries(s: Seq<PortView>, j: int, pv: PortView)
    requires
        0 <= j <= s.len(),
    ensures
        port_entries(s.insert(j, pv)).to_multiset() == port_entries(s).to_multiset().insert(
            (pv.port, pv.status),
        ),
{
    let t = s.insert(j, pv);
    let e = (pv.port, pv.status);
    assert(port_entries(t) =~= port_entries(s).insert(j, e));
    assert(port_entries(t).remove(j) =~= port_entries(s));
    assert(port_entries(t)[j] == e);
    assert(port_entries(t).to_multiset() =~= port_entries(s).to_multiset().insert(e));
}

/// Files one probe result under its host: the port goes in port order, and the
/// host is up once some port answered.
fn add_probe(h: &mut HostResult, port: u16, status: PortStatus, protocol: TransportProtocol)
    requires
        host_in_progress(old(h)@, protocol),
    ensures
        host_in_progress(final(h)@, protocol),
        final(h).ip == old(h).ip,
        port_entries(final(h)@.ports).to_multiset() == port_entries(old(h)@.ports).to_multiset().insert(
            (port, status),
        ),
{
    let ghost s = port_views(h.ports@);
    assert(ascending_ports(s));
    let mut j: usize = h.ports.len();
    while j > 0 && h.ports[j - 1].port > port
        invariant
            j <= h.ports@.len(),
            s == port_views(h.ports@),
            forall|m: int| j <= m < s.len() ==> s[m].port > port,
        decreases j,
    {
        j -= 1;
    }
    let p = PortResult {
        port,
        status,
        protocol,
        service: None,
        banner: None,
        confidence: None,
        confidence_source: None,
        cpe: Vec::new(),
    };
    assert(p@.cpe =~= Seq::<Seq<char>>::empty());
    let ghost pv = p@;
    proof {
        assert forall|m: int| 0 <= m < j implies s[m].port <= port by {
            assert(s[m].port <= s[j - 1].port);
        }
        lemma_insert_ascending(s, j as int, pv);
        lemma_insert_bare(s, j as int, pv, protocol);
        lemma_insert_answered(s, j as int, pv);
        lemma_insert_entries(s, j as int, pv);
    }
    h.ports.insert(j, p);
    assert(port_views(h.ports@) =~= s.insert(j as int, pv));
    if status != PortStatus::Filtered {
        h.status = HostStatus::Up;
    }
}

/// The summary of a scan of `hosts`, from the probe results in the order they
/// finished and the time the scan took. Each address gets one host result,
/// ascending by address; its ports are the probes of that address in port order,
/// as the scanner's protocol found them and with nothing identified yet; it is up
/// when some port's status is other than filtered (open, closed, or
/// open|filtered). Probes of addresses not among
/// `hosts` are left out. `targets_scanned` counts the targets given, repeats
/// included.
pub fn build_summary(
    hosts: &Vec<IpAddress>,
    probes: &Vec<Probe>,
    protocol: TransportProtocol,
    duration_ms: u64,
) -> (s: ScanResultSummary)
    ensures
        ({
            let hv = host_views(s.hosts@);
            &&& ips_ascending(host_ips(hv))
            &&& forall|x: IpAddress| host_ips(hv).contains(x) <==> hosts@.contains(x)
            &&& forall|i: int|
                0 <= i < hv.len() ==> {
                    &&& host_in_progress(#[trigger] hv[i], protocol)
                    &&& port_entries(hv[i].ports).to_multiset() == probes_of(
                        probes@,
                        hv[i].ip,
                    ).to_multiset()
                }
            &&& s.hosts_up == count_up(hv)
        }),
        s.targets_scanned == hosts@.len(),
        s.duration_ms == duration_ms,
        s.findings@.len() == 0,
{
    let ips = sorted_distinct_ips(hosts);
    let mut results: Vec<HostResult> = Vec::new();
    let mut i: usize = 0;
    while i < ips.len()
        invariant
            i <= ips@.len(),
            results@.len() == i,
            forall|m: int|
                0 <= m < i ==> {
                    &&& host_in_progress(#[trigger] results@[m]@, protocol)
                    &&& results@[m].ip == ips@[m]
                    &&& results@[m]@.ports.len() == 0
                },
        decreases ips@.len() - i,
    {
        let h = HostResult { ip: ips[i], status: HostStatus::Down, ports: Vec::new(), os: None };
        assert(h@.ports =~= Seq::<PortView>::empty());
        results.push(h);
        i += 1;
    }
    let mut k: usize = 0;
    while k < probes.len()
        invariant
            k <= probes@.len(),
            ips_ascending(ips@),
            results@.len() == ips@.len(),
            forall|m: int|
                0 <= m < ips@.len() ==> {
                    &&& host_in_progress(#[trigger] results@[m]@, protocol)
                    &&& results@[m].ip == ips@[m]
                    &&& port_entries(results@[m]@.ports).to_multiset() == probes_of(
                        probes@.take(k as int),
                        ips@[m],
                    ).to_multiset()
                },
        decreases probes@.len() - k,
    {
        let (ip, port, status) = probes[k];
        assert(probes@.take(k + 1).drop_last() =~= probes@.take(k as int));
        assert(probes@.take(k + 1).last() == probes@[k as int]);
        let ghost before = results@;
        match find_ip(&ips, ip) {
            Some(idx) => {
                add_probe(&mut results[idx], port, status, protocol);
                assert forall|m: int| 0 <= m < ips@.len() && m != idx implies results@[m] == before[m] by {}
                assert forall|m: int|
                    0 <= m < ips@.len() implies #[trigger] probes_of(probes@.take(k + 1), ips@[m])
                        == if m == idx {
                        probes_of(probes@.take(k as int), ips@[m]).push((port, status))
                    } else {
                        probes_of(probes@.take(k as int), ips@[m])
                    } by {
                    if m != idx {
                        assert(ip_lt(ips@[m], ips@[idx as int]) || ip_lt(ips@[idx as int], ips@[m]));
                        assert(ips@[m] != ip);
                    }
                }
            },
            None => {
                assert forall|m: int|
                    0 <= m < ips@.len() implies #[trigger] probes_of(probes@.take(k + 1), ips@[m])
                        == probes_of(probes@.take(k as int), ips@[m]) by {
                    assert(ips@[m] != ip);
                }
            },
        }
        k += 1;
    }
    assert(probes@.take(probes@.len() as int) =~= probes@);
    let ghost hv = host_views(results@);
    assert(host_ips(hv) =~= ips@);
    let mut up: usize = 0;
    let mut j: usize = 0;
    while j < results.len()
        invariant
            j <= results@.len(),
            hv == host_views(results@),
            up == count_up(hv.take(j as int)),
            up <= j,
        decreases results@.len() - j,
    {
        assert(hv.take(j + 1).drop_last() =~= hv.take(j as int));
        if results[j].status == HostStatus::Up {
            up += 1;
        }
        j += 1;
    }
    assert(hv.take(results@.len() as int) =~= hv);
    ScanResultSummary {
        targets_scanned: hosts.len(),
        hosts_up: up,
        duration_ms,
        hosts: results,
        findings: Vec::new(),
    }
}

} // verus!
