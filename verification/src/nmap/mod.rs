//! Nmap enrichment: the command line it is run with, and how its XML report is
//! merged back into the native scan results.

pub mod command;
pub mod xml;

use vstd::prelude::*;
use crate::capabilities::Capabilities;
use crate::ip::{IpAddress, parse_ip, parsed_ip};
use crate::model::{
    HostResult, HostStatus, HostView, OsInfo, PortResult, PortStatus, PortView, ScanResultSummary,
    ServiceSource, TransportProtocol, host_views, opt_text, port_views, texts,
};
use crate::text::{
    chars_of, first_index_from, last_index_below, lemma_first_index_bounds, lemma_last_index_bounds,
    push_chars, push_str, str_eq, string_from_chars, trim, trim_chars,
};
use self::command::{NmapCommandBuilder, auto_select_scripts, joined_path, nmap_args, scripts_for};
use self::xml::{Address, Host, NmapRun, OsMatch, Port, Script, Service};

verus! {

pub struct NmapEnricher {
    pub custom_nse_dir: String,
}

impl NmapEnricher {
    pub fn new(custom_nse_dir: String) -> (e: Self)
        ensures
            e.custom_nse_dir == custom_nse_dir,
    {
        NmapEnricher { custom_nse_dir }
    }

    /// Enrichment runs only where the Nmap binary was found.
    pub fn available(&self, caps: &Capabilities) -> (b: bool)
        ensures
            b == caps.nmap_present,
    {
        caps.nmap_present
    }
}

// ---------------------------------------------------------------------------
// Merging Nmap's report into the scan results
// ---------------------------------------------------------------------------

/// Nmap's 0-10 match confidence on the 0-100 scale (70 when Nmap gives none).
pub open spec fn nmap_confidence(conf: Option<u8>) -> u8 {
    match conf {
        Some(c) => if c >= 10 {
            100
        } else {
            (c * 10) as u8
        },
        None => 70,
    }
}

pub open spec fn text_or_empty(o: Option<Seq<char>>) -> Seq<char> {
    match o {
        Some(t) => t,
        None => Seq::empty(),
    }
}

/// The banner after Nmap's version information: the existing banner, then
/// ` | product` (just `product` when there was no banner), ` version` and
/// ` (extra info)`, each part present only when Nmap reports it; no banner when
/// all of that is empty.
pub open spec fn service_banner(old: Option<Seq<char>>, svc: Service) -> Option<Seq<char>> {
    let b3 = with_extra_info(with_version(with_product(text_or_empty(old), svc), svc), svc);
    if b3.len() > 0 {
        Some(b3)
    } else {
        None
    }
}

pub open spec fn with_product(b0: Seq<char>, svc: Service) -> Seq<char> {
    match svc.product {
        Some(p) => (if b0.len() > 0 {
            b0 + seq![' ', '|', ' ']
        } else {
            b0
        }) + p@,
        None => b0,
    }
}

pub open spec fn with_version(b1: Seq<char>, svc: Service) -> Seq<char> {
    match svc.version {
        Some(v) => (if b1.len() > 0 {
            b1 + seq![' ']
        } else {
            b1
        }) + v@,
        None => b1,
    }
}

pub open spec fn with_extra_info(b2: Seq<char>, svc: Service) -> Seq<char> {
    match svc.extra_info {
        Some(e) => (if b2.len() > 0 {
            b2 + seq![' ']
        } else {
            b2
        }) + seq!['('] + e@ + seq![')'],
        None => b2,
    }
}

/// The banner after one NSE script: `id: output` (output trimmed) appended with
/// ` | ` when the banner is not empty; unchanged when the script wrote nothing.
pub open spec fn script_note(b: Option<Seq<char>>, s: Script) -> Option<Seq<char>> {
    match s.output {
        Some(o) => {
            let cur = text_or_empty(b);
            Some(
                (if cur.len() > 0 {
                    cur + seq![' ', '|', ' ']
                } else {
                    cur
                }) + s.id@ + seq![':', ' '] + trim(o@),
            )
        },
        None => b,
    }
}

pub open spec fn script_notes(b: Option<Seq<char>>, scripts: Seq<Script>) -> Option<Seq<char>>
    decreases scripts.len(),
{
    if scripts.len() == 0 {
        b
    } else {
        script_note(script_notes(b, scripts.drop_last()), scripts.last())
    }
}

/// A port after Nmap's record of it: the service name (with its confidence and
/// the Nmap source) when Nmap names one, the version information, then the
/// script outputs, added to the banner.
pub open spec fn merged_port(p: PortView, np: Port) -> PortView {
    let named = match np.service {
        Some(svc) => match svc.name {
            Some(n) => PortView {
                service: Some(n@),
                confidence: Some(nmap_confidence(svc.conf)),
                confidence_source: Some(ServiceSource::NmapProbe),
                ..p
            },
            None => p,
        },
        None => p,
    };
    let versioned = match np.service {
        Some(svc) => PortView { banner: service_banner(named.banner, svc), ..named },
        None => named,
    };
    PortView { banner: script_notes(versioned.banner, np.scripts@), ..versioned }
}

/// Each of Nmap's port records, in order, merged into the first scanned port
/// with its number (records for ports that were not scanned are ignored).
pub open spec fn merge_ports(ps: Seq<PortView>, nps: Seq<Port>) -> Seq<PortView>
    decreases nps.len(),
{
    if nps.len() == 0 {
        ps
    } else {
        let before = merge_ports(ps, nps.drop_last());
        let np = nps.last();
        let i = first_index_from(0, before.len() as int, |j: int| before[j].port == np.port_id);
        if i < before.len() {
            before.update(i, merged_port(before[i], np))
        } else {
            before
        }
    }
}

/// The last of the OS matches with the highest accuracy.
pub open spec fn best_os(ms: Seq<OsMatch>) -> int {
    last_index_below(
        ms.len() as int,
        |k: int| forall|j: int| 0 <= j < ms.len() ==> ms[j].accuracy <= ms[k].accuracy,
    )
}

/// A host after Nmap's record of it: the best OS match when Nmap reports any, and
/// its port records merged.
pub open spec fn merged_host(h: HostView, nh: Host) -> HostView {
    let os = match nh.os {
        Some(o) => if o.matches@.len() > 0 {
            Some((o.matches@[best_os(o.matches@)].name@, o.matches@[best_os(o.matches@)].accuracy))
        } else {
            h.os
        },
        None => h.os,
    };
    let ports = match nh.ports_container {
        Some(c) => merge_ports(h.ports, c.ports@),
        None => h.ports,
    };
    HostView { os, ports, ..h }
}

/// An address record usable to identify the host: IPv4 or IPv6 by type, with
/// address text that parses.
pub open spec fn address_ok(a: Address) -> bool {
    (a.addr_type@ == "ipv4"@ || a.addr_type@ == "ipv6"@) && parsed_ip(a.addr@) is Some
}

/// The address of the first usable address record of a host record.
pub open spec fn host_address(nh: Host) -> Option<IpAddress> {
    let n = nh.addresses@.len();
    let i = first_index_from(0, n as int, |k: int| address_ok(nh.addresses@[k]));
    if i < n {
        parsed_ip(nh.addresses@[i].addr@)
    } else {
        None
    }
}

/// Each of Nmap's host records, in order, merged into the first scanned host with
/// its address (records without a usable address, or for hosts that were not
/// scanned, are ignored).
pub open spec fn merge_hosts(hs: Seq<HostView>, nhs: Seq<Host>) -> Seq<HostView>
    decreases nhs.len(),
{
    if nhs.len() == 0 {
        hs
    } else {
        let before = merge_hosts(hs, nhs.drop_last());
        let nh = nhs.last();
        match host_address(nh) {
            None => before,
            Some(ip) => {
                let i = first_index_from(0, before.len() as int, |j: int| before[j].ip == ip);
                if i < before.len() {
                    before.update(i, merged_host(before[i], nh))
                } else {
                    before
                }
            },
        }
    }
}

fn opt_chars(o: &Option<String>) -> (v: Vec<char>)
    ensures
        v@ == text_or_empty(opt_text(*o)),
{
    match o {
        Some(s) => chars_of(s.as_str()),
        None => Vec::new(),
    }
}

fn banner_with_version_info(old: &Option<String>, svc: &Service) -> (r: Option<String>)
    ensures
        opt_text(r) == service_banner(opt_text(*old), *svc),
{
    let mut b = opt_chars(old);
    let ghost b0 = b@;
    if let Some(product) = &svc.product {
        if b.len() > 0 {
            push_str(&mut b, " | ");
            proof {
                reveal_strlit(" | ");
            }
        }
        push_str(&mut b, product.as_str());
    }
    assert(b@ =~= with_product(b0, *svc));
    let ghost b1 = b@;
    if let Some(version) = &svc.version {
        if b.len() > 0 {
            b.push(' ');
        }
        push_str(&mut b, version.as_str());
    }
    assert(b@ =~= with_version(b1, *svc));
    let ghost b2 = b@;
    if let Some(extra) = &svc.extra_info {
        if b.len() > 0 {
            b.push(' ');
        }
        b.push('(');
        push_str(&mut b, extra.as_str());
        b.push(')');
    }
    assert(b@ =~= with_extra_info(b2, *svc));
    if b.len() > 0 {
        Some(string_from_chars(&b))
    } else {
        None
    }
}

fn apply_service(p: &mut PortResult, svc: &Service)
    ensures
        ({
            let named = match svc.name {
                Some(n) => PortView {
                    service: Some(n@),
                    confidence: Some(nmap_confidence(svc.conf)),
                    confidence_source: Some(ServiceSource::NmapProbe),
                    ..old(p)@
                },
                None => old(p)@,
            };
            final(p)@ == PortView { banner: service_banner(named.banner, *svc), ..named }
        }),
{
    if let Some(name) = &svc.name {
        p.service = Some(name.clone());
        let conf: u8 = match svc.conf {
            Some(c) => if c >= 10 {
                100
            } else {
                c * 10
            },
            None => 70,
        };
        p.confidence = Some(conf);
        p.confidence_source = Some(ServiceSource::NmapProbe);
    }
    let nb = banner_with_version_info(&p.banner, svc);
    p.banner = nb;
}

fn apply_scripts(p: &mut PortResult, scripts: &Vec<Script>)
    ensures
        final(p)@ == (PortView { banner: script_notes(old(p)@.banner, scripts@), ..old(p)@ }),
{
    let ghost start = p@;
    let mut k: usize = 0;
    while k < scripts.len()
        invariant
            k <= scripts@.len(),
            p@ == (PortView { banner: script_notes(start.banner, scripts@.take(k as int)), ..start }),
        decreases scripts@.len() - k,
    {
        let s = &scripts[k];
        assert(scripts@.take(k + 1).drop_last() =~= scripts@.take(k as int));
        if let Some(out) = &s.output {
            let mut cur = opt_chars(&p.banner);
            if cur.len() > 0 {
                push_str(&mut cur, " | ");
                proof {
                    reveal_strlit(" | ");
                }
            }
            push_str(&mut cur, s.id.as_str());
            cur.push(':');
            cur.push(' ');
            let o = chars_of(out.as_str());
            let t = trim_chars(&o);
            push_chars(&mut cur, &t);
            let ghost prev = text_or_empty(p@.banner);
            assert(cur@ =~= (if prev.len() > 0 {
                prev + seq![' ', '|', ' ']
            } else {
                prev
            }) + s.id@ + seq![':', ' '] + trim(out@));
            p.banner = Some(string_from_chars(&cur));
        }
        k += 1;
    }
    assert(scripts@.take(scripts@.len() as int) =~= scripts@);
}

fn merge_port(p: &mut PortResult, np: &Port)
    ensures
        final(p)@ == merged_port(old(p)@, *np),
{
    if let Some(svc) = &np.service {
        apply_service(p, svc);
    }
    apply_scripts(p, &np.scripts);
}

fn merge_ports_into(ports: &mut Vec<PortResult>, nps: &Vec<Port>)
    ensures
        port_views(final(ports)@) == merge_ports(port_views(old(ports)@), nps@),
{
    let ghost start = port_views(ports@);
    let mut k: usize = 0;
    while k < nps.len()
        invariant
            k <= nps@.len(),
            port_views(ports@) == merge_ports(start, nps@.take(k as int)),
        decreases nps@.len() - k,
    {
        let np = &nps[k];
        let ghost before = port_views(ports@);
        assert(nps@.take(k + 1).drop_last() =~= nps@.take(k as int));
        let ghost pred = |j: int| before[j].port == np.port_id;
        let mut i: usize = 0;
        while i < ports.len() && ports[i].port != np.port_id
            invariant
                i <= ports@.len(),
                before == port_views(ports@),
                pred == (|j: int| before[j].port == np.port_id),
                first_index_from(0, ports@.len() as int, pred) == first_index_from(
                    i as int,
                    ports@.len() as int,
                    pred,
                ),
            decreases ports@.len() - i,
        {
            i += 1;
        }
        if i < ports.len() {
            let mut p = ports.remove(i);
            merge_port(&mut p, np);
            ports.insert(i, p);
            assert(port_views(ports@) =~= before.update(i as int, merged_port(before[i as int], *np)));
        }
        k += 1;
    }
    assert(nps@.take(nps@.len() as int) =~= nps@);
}

fn best_os_index(ms: &Vec<OsMatch>) -> (r: usize)
    requires
        ms@.len() > 0,
    ensures
        r as int == best_os(ms@),
        r < ms@.len(),
{
    let mut m: u8 = 0;
    let mut k: usize = 0;
    while k < ms.len()
        invariant
            k <= ms@.len(),
            forall|j: int| 0 <= j < k ==> ms@[j].accuracy <= m,
            k > 0 ==> exists|j: int| 0 <= j < k && ms@[j].accuracy == m,
            k == 0 ==> m == 0,
        decreases ms@.len() - k,
    {
        if ms[k].accuracy > m || k == 0 {
            m = ms[k].accuracy;
        }
        k += 1;
    }
    let ghost pred = |kk: int|
        forall|j: int| 0 <= j < ms@.len() ==> ms@[j].accuracy <= ms@[kk].accuracy;
    let mut i: usize = ms.len();
    while i > 0 && ms[i - 1].accuracy != m
        invariant
            i <= ms@.len(),
            forall|j: int| 0 <= j < ms@.len() ==> ms@[j].accuracy <= m,
            exists|j: int| 0 <= j < i && ms@[j].accuracy == m,
            pred == (|kk: int|
                forall|j: int| 0 <= j < ms@.len() ==> ms@[j].accuracy <= ms@[kk].accuracy),
            last_index_below(ms@.len() as int, pred) == last_index_below(i as int, pred),
        decreases i,
    {
        assert(!pred(i - 1)) by {
            let j = choose|j: int| 0 <= j < i && ms@[j].accuracy == m;
            assert(ms@[j].accuracy > ms@[i - 1].accuracy);
        }
        i -= 1;
    }
    assert(pred(i - 1));
    i - 1
}

fn merge_host(h: &mut HostResult, nh: &Host)
    ensures
        final(h)@ == merged_host(old(h)@, *nh),
{
    if let Some(os) = &nh.os {
        if os.matches.len() > 0 {
            let b = best_os_index(&os.matches);
            h.os = Some(OsInfo { name: os.matches[b].name.clone(), accuracy: os.matches[b].accuracy });
        }
    }
    if let Some(c) = &nh.ports_container {
        merge_ports_into(&mut h.ports, &c.ports);
    }
}

fn nmap_host_address(nh: &Host) -> (r: Option<IpAddress>)
    ensures
        r == host_address(*nh),
{
    let n = nh.addresses.len();
    let ghost pred = |k: int| address_ok(nh.addresses@[k]);
    let mut i: usize = 0;
    while i < n
        invariant
            i <= n == nh.addresses@.len(),
            pred == (|k: int| address_ok(nh.addresses@[k])),
            first_index_from(0, n as int, pred) == first_index_from(i as int, n as int, pred),
        decreases n - i,
    {
        let a = &nh.addresses[i];
        if str_eq(a.addr_type.as_str(), "ipv4") || str_eq(a.addr_type.as_str(), "ipv6") {
            if let Some(ip) = parse_ip(a.addr.as_str()) {
                assert(pred(i as int));
                return Some(ip);
            }
        }
        i += 1;
    }
    None
}

/// Merges Nmap's report into the scan results: for each host record, in order,
/// the first scanned host with the record's address gets the best OS match and
/// the record's service names, confidences, version information and script
/// outputs for its scanned ports. Nothing else changes.
#[verifier::spinoff_prover]
#[verifier::rlimit(40)]
pub fn merge_nmap_run(summary: &mut ScanResultSummary, run: &NmapRun)
    ensures
        host_views(final(summary).hosts@) == merge_hosts(host_views(old(summary).hosts@), run.hosts@),
        final(summary).targets_scanned == old(summary).targets_scanned,
        final(summary).hosts_up == old(summary).hosts_up,
        final(summary).duration_ms == old(summary).duration_ms,
        final(summary).findings == old(summary).findings,
{
    let ghost start = host_views(summary.hosts@);
    let mut k: usize = 0;
    while k < run.hosts.len()
        invariant
            k <= run.hosts@.len(),
            host_views(summary.hosts@) == merge_hosts(start, run.hosts@.take(k as int)),
            summary.targets_scanned == old(summary).targets_scanned,
            summary.hosts_up == old(summary).hosts_up,
            summary.duration_ms == old(summary).duration_ms,
            summary.findings == old(summary).findings,
        decreases run.hosts@.len() - k,
    {
        let nh = &run.hosts[k];
        let ghost before = host_views(summary.hosts@);
        assert(run.hosts@.take(k + 1).drop_last() =~= run.hosts@.take(k as int));
        match nmap_host_address(nh) {
            None => {},
            Some(ip) => {
                let ghost pred = |j: int| before[j].ip == ip;
                let mut i: usize = 0;
                while i < summary.hosts.len() && summary.hosts[i].ip != ip
                    invariant
                        i <= summary.hosts@.len(),
                        before == host_views(summary.hosts@),
                        pred == (|j: int| before[j].ip == ip),
                        first_index_from(0, summary.hosts@.len() as int, pred) == first_index_from(
                            i as int,
                            summary.hosts@.len() as int,
                            pred,
                        ),
                    decreases summary.hosts@.len() - i,
                {
                    i += 1;
                }
                if i < summary.hosts.len() {
                    let mut h = summary.hosts.remove(i);
                    merge_host(&mut h, nh);
                    summary.hosts.insert(i, h);
                    assert(host_views(summary.hosts@) =~= before.update(
                        i as int,
                        merged_host(before[i as int], *nh),
                    ));
                }
            },
        }
        k += 1;
    }
    assert(run.hosts@.take(run.hosts@.len() as int) =~= run.hosts@);
}


// ---------------------------------------------------------------------------
// Planning the Nmap run
// ---------------------------------------------------------------------------

/// The ports of `ports` below `q`, ascending, each once.
pub open spec fn ports_below(q: int, ports: Seq<u16>) -> Seq<u16>
    decreases q,
{
    if q <= 0 {
        Seq::empty()
    } else {
        let r = ports_below(q - 1, ports);
        if ports.contains((q - 1) as u16) {
            r.push((q - 1) as u16)
        } else {
            r
        }
    }
}

/// The ports of `ports`, ascending, each once.
pub open spec fn sorted_distinct(ports: Seq<u16>) -> Seq<u16> {
    ports_below(65536, ports)
}

/// Sorts and de-duplicates a port list.
pub fn sort_unique_ports(ports: &Vec<u16>) -> (r: Vec<u16>)
    ensures
        r@ == sorted_distinct(ports@),
{
    let mut present: Vec<bool> = Vec::new();
    while present.len() < 65536
        invariant
            present@.len() <= 65536,
            forall|q: int| 0 <= q < present@.len() ==> !present@[q],
        decreases 65536 - present@.len(),
    {
        present.push(false);
    }
    let mut i: usize = 0;
    while i < ports.len()
        invariant
            i <= ports@.len(),
            present@.len() == 65536,
            forall|q: int| 0 <= q < 65536 ==> present@[q] == exists|j: int| 0 <= j < i && ports@[j] == q,
        decreases ports@.len() - i,
    {
        present.set(ports[i] as usize, true);
        i += 1;
    }
    let mut v: Vec<u16> = Vec::new();
    let mut q: u32 = 0;
    while q < 65536
        invariant
            q <= 65536,
            present@.len() == 65536,
            forall|x: int| 0 <= x < 65536 ==> present@[x] == ports@.contains(x as u16),
            v@ == ports_below(q as int, ports@),
        decreases 65536 - q,
    {
        if present[q as usize] {
            v.push(q as u16);
        }
        q += 1;
    }
    v
}

/// The open or open|filtered ports among `ps`, in order.
pub open spec fn open_ports_of_host(ps: Seq<PortView>) -> Seq<PortView>
    decreases ps.len(),
{
    if ps.len() == 0 {
        Seq::empty()
    } else {
        let r = open_ports_of_host(ps.drop_last());
        if ps.last().status == PortStatus::Open || ps.last().status == PortStatus::OpenFiltered {
            r.push(ps.last())
        } else {
            r
        }
    }
}

/// The open or open|filtered ports of the hosts that are up, host by host.
pub open spec fn open_ports_of(hs: Seq<HostView>) -> Seq<PortView>
    decreases hs.len(),
{
    if hs.len() == 0 {
        Seq::empty()
    } else {
        let r = open_ports_of(hs.drop_last());
        if hs.last().status == HostStatus::Up {
            r + open_ports_of_host(hs.last().ports)
        } else {
            r
        }
    }
}

/// The addresses of the hosts that are up, in order.
pub open spec fn live_ips(hs: Seq<HostView>) -> Seq<IpAddress>
    decreases hs.len(),
{
    if hs.len() == 0 {
        Seq::empty()
    } else {
        let r = live_ips(hs.drop_last());
        if hs.last().status == HostStatus::Up {
            r.push(hs.last().ip)
        } else {
            r
        }
    }
}

/// The protocol Nmap scans with: that of the last open port (every port of one
/// run shares a protocol), TCP when there is none.
pub open spec fn enrich_protocol(open: Seq<PortView>) -> TransportProtocol {
    if open.len() > 0 {
        open.last().protocol
    } else {
        TransportProtocol::Tcp
    }
}

fn collect_targets(hosts: &Vec<HostResult>) -> (r: (Vec<IpAddress>, Vec<u16>, TransportProtocol))
    ensures
        r.0@ == live_ips(host_views(hosts@)),
        r.1@ == open_ports_of(host_views(hosts@)).map_values(|p: PortView| p.port),
        r.2 == enrich_protocol(open_ports_of(host_views(hosts@))),
{
    let ghost hv = host_views(hosts@);
    let mut live: Vec<IpAddress> = Vec::new();
    let mut open: Vec<u16> = Vec::new();
    let mut protocol = TransportProtocol::Tcp;
    let mut k: usize = 0;
    while k < hosts.len()
        invariant
            k <= hosts@.len(),
            hv == host_views(hosts@),
            live@ == live_ips(hv.take(k as int)),
            open@ == open_ports_of(hv.take(k as int)).map_values(|p: PortView| p.port),
            protocol == enrich_protocol(open_ports_of(hv.take(k as int))),
        decreases hosts@.len() - k,
    {
        assert(hv.take(k + 1).drop_last() =~= hv.take(k as int));
        let h = &hosts[k];
        assert(hv.take(k + 1).last() == h@);
        if h.status == HostStatus::Up {
            live.push(h.ip);
            let ghost before = open_ports_of(hv.take(k as int));
            let ghost pv = port_views(h.ports@);
            let mut j: usize = 0;
            while j < h.ports.len()
                invariant
                    j <= h.ports@.len(),
                    pv == port_views(h.ports@),
                    open@ == (before + open_ports_of_host(pv.take(j as int))).map_values(
                        |p: PortView| p.port,
                    ),
                    protocol == enrich_protocol(before + open_ports_of_host(pv.take(j as int))),
                decreases h.ports@.len() - j,
            {
                assert(pv.take(j + 1).drop_last() =~= pv.take(j as int));
                let p = &h.ports[j];
                assert(pv.take(j + 1).last() == p@);
                if p.status == PortStatus::Open || p.status == PortStatus::OpenFiltered {
                    open.push(p.port);
                    protocol = p.protocol;
                    assert((before + open_ports_of_host(pv.take(j + 1))) =~= (before
                        + open_ports_of_host(pv.take(j as int))).push(p@));
                }
                j += 1;
            }
            assert(pv.take(h.ports@.len() as int) =~= pv);
            assert(open_ports_of(hv.take(k + 1)) =~= before + open_ports_of_host(h@.ports));
        }
        k += 1;
    }
    assert(hv.take(hosts@.len() as int) =~= hv);
    (live, open, protocol)
}

impl NmapEnricher {
    /// The Nmap command line for enriching a scan: an error when Nmap is not
    /// available; nothing to run when no host is up or no port is open (or
    /// open|filtered); otherwise a scan of the live hosts on their open ports
    /// (ascending, each once) in the scan's protocol, with version detection, OS
    /// detection when raw sockets are available, and the scripts chosen for those
    /// ports (the etcd script looked up on disk under `custom_nse_dir`).
    pub fn enrichment_args(&self, summary: &ScanResultSummary, caps: &Capabilities) -> (r: Result<
        Option<Vec<String>>,
        String,
    >)
        ensures
            ({
                let hv = host_views(summary.hosts@);
                let live = live_ips(hv);
                let open = open_ports_of(hv);
                let ports = sorted_distinct(open.map_values(|p: PortView| p.port));
                if !caps.nmap_present {
                    r matches Err(m) && m@ == "Nmap is not present on the system PATH."@
                } else if live.len() == 0 || open.len() == 0 {
                    r matches Ok(None)
                } else {
                    r matches Ok(Some(a)) && exists|present: bool|
                        texts(a@) == nmap_args(
                            live,
                            ports,
                            enrich_protocol(open),
                            true,
                            caps.has_raw_socket,
                            scripts_for(
                                ports,
                                joined_path(self.custom_nse_dir@, "etcd-info.nse"@),
                                present,
                            ),
                        )
                }
            }),
    {
        if !self.available(caps) {
            return Err("Nmap is not present on the system PATH.".to_owned());
        }
        let (targets, open_ports, protocol) = collect_targets(&summary.hosts);
        if targets.len() == 0 || open_ports.len() == 0 {
            return Ok(None);
        }
        let ports = sort_unique_ports(&open_ports);
        let scripts = auto_select_scripts(ports.as_slice(), self.custom_nse_dir.as_str());
        let ghost ports_view = ports@;
        assert(texts(scripts@).len() == scripts@.len());
        let mut builder = NmapCommandBuilder::new(targets, ports).with_protocol(protocol).with_version_detection(
            true,
        ).with_os_detection(caps.has_raw_socket);
        let mut i: usize = 0;
        while i < scripts.len()
            invariant
                i <= scripts@.len(),
                builder.targets@ == live_ips(host_views(summary.hosts@)),
                builder.ports@ == ports_view,
                builder.protocol == protocol,
                builder.version_detection,
                builder.os_detection == caps.has_raw_socket,
                scripts@.len() <= 1,
                texts(builder.scripts@) == texts(scripts@.take(i as int)),
            decreases scripts@.len() - i,
        {
            let s = scripts[i].clone();
            builder = builder.with_script(s);
            assert(texts(scripts@.take(i as int)).len() == 0);
            assert(texts(scripts@.take(i + 1)) =~= texts(scripts@.take(i as int)).push(scripts@[i as int]@));
            i += 1;
        }
        assert(scripts@.take(scripts@.len() as int) =~= scripts@);
        let args = builder.build_args();
        Ok(Some(args))
    }
}

/// Nmap's confidence is carried over on the 0-100 scale: a service that Nmap
/// names with confidence `c` (0-10) gets `10 * c`, anything Nmap rates 10 or
/// more gets 100, and a name without a confidence gets 70. The port's service
/// becomes Nmap's name, from the Nmap probe, and its number, status and
/// protocol stay as they were.
pub proof fn lemma_merged_confidence(p: PortView, np: Port, svc: Service, name: String)
    requires
        np.service == Some(svc),
        svc.name == Some(name),
    ensures
        merged_port(p, np).service == Some(name@),
        merged_port(p, np).confidence_source == Some(ServiceSource::NmapProbe),
        match svc.conf {
            None => merged_port(p, np).confidence == Some(70u8),
            Some(c) => merged_port(p, np).confidence is Some && merged_port(p, np).confidence->0 as int == (
            if c < 10 {
                10 * c
            } else {
                100
            }),
        },
        merged_port(p, np).port == p.port,
        merged_port(p, np).status == p.status,
        merged_port(p, np).protocol == p.protocol,
{
}

} // verus!
