//! The console report: the results table of each live host and the findings
//! list, line by line.

use vstd::prelude::*;
use crate::ip::{ip_text, push_ip};
use crate::model::{
    Finding, HostResult, HostStatus, PortResult, PortStatus, PortView, ServiceSource, Severity,
    TransportProtocol, port_views, texts,
};
use crate::text::{dec_text, join_strings, join_with, push_chars, push_decimal, push_str, string_from_chars};

verus! {

/// `s` padded with spaces on the right to at least `w` characters (`{:<w}`).
pub open spec fn pad_right(s: Seq<char>, w: nat) -> Seq<char> {
    if s.len() >= w {
        s
    } else {
        s + Seq::new((w - s.len()) as nat, |i: int| ' ')
    }
}

fn push_padded(out: &mut Vec<char>, s: &Vec<char>, w: usize)
    ensures
        final(out)@ == old(out)@ + pad_right(s@, w as nat),
{
    push_chars(out, s);
    let mut n: usize = s.len();
    let ghost start = old(out)@ + s@;
    while n < w
        invariant
            s@.len() <= n <= w || (n == s@.len() && n >= w),
            out@ == start + Seq::new((n - s@.len()) as nat, |i: int| ' '),
        decreases w - n,
    {
        out.push(' ');
        assert(out@ =~= start + Seq::new((n + 1 - s@.len()) as nat, |i: int| ' '));
        n += 1;
    }
    assert(out@ =~= old(out)@ + pad_right(s@, w as nat));
}

/// The transport protocol as shown in the table.
pub open spec fn protocol_label(p: TransportProtocol) -> Seq<char> {
    match p {
        TransportProtocol::Tcp => "tcp"@,
        TransportProtocol::Udp => "udp"@,
    }
}

/// The state shown for a port the table lists (open or open|filtered).
pub open spec fn state_label(s: PortStatus) -> Option<Seq<char>> {
    match s {
        PortStatus::Open => Some("open"@),
        PortStatus::OpenFiltered => Some("open|filtered"@),
        _ => None,
    }
}

/// The confidence column: the percentage and where it came from, or `-`.
pub open spec fn confidence_label(c: Option<u8>, src: Option<ServiceSource>) -> Seq<char> {
    match (c, src) {
        (Some(n), Some(ServiceSource::NmapProbe)) => dec_text(n as nat) + "% (nmap)"@,
        (Some(n), Some(ServiceSource::NativeBanner)) => dec_text(n as nat) + "% (banner)"@,
        _ => "-"@,
    }
}

/// The last column: the banner, then the CPE identifiers (after ` | ` when there
/// is a banner), comma-separated.
pub open spec fn banner_column(banner: Option<Seq<char>>, cpe: Seq<Seq<char>>) -> Seq<char> {
    let b = match banner {
        Some(t) => t,
        None => Seq::empty(),
    };
    if cpe.len() > 0 {
        (if b.len() > 0 {
            b + " | "@
        } else {
            b
        }) + join_with(cpe, ", "@)
    } else {
        b
    }
}

/// The table line of a port, for the open and open|filtered ones: port,
/// protocol, state, service (`unknown` when none), confidence, each padded,
/// then the banner column when it is not empty.
pub open spec fn port_line(p: PortView) -> Option<Seq<char>> {
    match state_label(p.status) {
        None => None,
        Some(st) => {
            let svc = match p.service {
                Some(s) => s,
                None => "unknown"@,
            };
            let base = pad_right(dec_text(p.port as nat), 9) + " "@ + pad_right(protocol_label(p.protocol), 5)
                + " "@ + pad_right(st, 14) + " "@ + pad_right(svc, 12) + " "@ + pad_right(
                confidence_label(p.confidence, p.confidence_source),
                15,
            );
            let bc = banner_column(p.banner, p.cpe);
            if bc.len() == 0 {
                Some(base)
            } else {
                Some(base + " "@ + bc)
            }
        },
    }
}

fn str_chars(s: &str) -> (v: Vec<char>)
    ensures
        v@ == s@,
{
    crate::text::chars_of(s)
}

/// Formats the table line of a port (`None` for ports the table leaves out).
pub fn format_port_line(p: &PortResult) -> (r: Option<String>)
    ensures
        match (r, port_line(p@)) {
            (Some(l), Some(m)) => l@ == m,
            (None, None) => true,
            _ => false,
        },
{
    let st: &str = match p.status {
        PortStatus::Open => "open",
        PortStatus::OpenFiltered => "open|filtered",
        _ => return None,
    };
    let proto: &str = match p.protocol {
        TransportProtocol::Tcp => "tcp",
        TransportProtocol::Udp => "udp",
    };
    let svc: Vec<char> = match &p.service {
        Some(s) => str_chars(s.as_str()),
        None => str_chars("unknown"),
    };
    let mut conf: Vec<char> = Vec::new();
    match (p.confidence, p.confidence_source) {
        (Some(n), Some(ServiceSource::NmapProbe)) => {
            push_decimal(&mut conf, n as u64);
            push_str(&mut conf, "% (nmap)");
        },
        (Some(n), Some(ServiceSource::NativeBanner)) => {
            push_decimal(&mut conf, n as u64);
            push_str(&mut conf, "% (banner)");
        },
        _ => {
            push_str(&mut conf, "-");
        },
    }
    assert(conf@ =~= confidence_label(p.confidence, p.confidence_source));
    let mut port_txt: Vec<char> = Vec::new();
    push_decimal(&mut port_txt, p.port as u64);
    assert(port_txt@ =~= dec_text(p.port as nat));
    let mut line: Vec<char> = Vec::new();
    push_padded(&mut line, &port_txt, 9);
    push_str(&mut line, " ");
    push_padded(&mut line, &str_chars(proto), 5);
    push_str(&mut line, " ");
    push_padded(&mut line, &str_chars(st), 14);
    push_str(&mut line, " ");
    push_padded(&mut line, &svc, 12);
    push_str(&mut line, " ");
    push_padded(&mut line, &conf, 15);
    let mut bc: Vec<char> = Vec::new();
    match &p.banner {
        Some(b) => push_str(&mut bc, b.as_str()),
        None => {},
    }
    let ghost b0 = bc@;
    if p.cpe.len() > 0 {
        if bc.len() > 0 {
            push_str(&mut bc, " | ");
        }
        let joined = join_strings(&p.cpe, ", ");
        push_str(&mut bc, joined.as_str());
    }
    assert(bc@ =~= banner_column(p@.banner, p@.cpe));
    if bc.len() > 0 {
        push_str(&mut line, " ");
        push_chars(&mut line, &bc);
    }
    let ghost m = port_line(p@);
    assert(line@ =~= m->0);
    Some(string_from_chars(&line))
}

/// The lines of the console report for a host that is up: a heading, the OS
/// guess when there is one, a line per open (or open|filtered) port, a note
/// when there is none, and an empty line; nothing for a host that is down.
pub open spec fn host_lines(h: HostResult) -> Seq<Seq<char>> {
    if h.status != HostStatus::Up {
        Seq::empty()
    } else {
        let head = seq!["Results for "@ + ip_text(h.ip) + ":"@];
        let os = match h.os {
            Some(o) => head.push("OS: "@ + o.name@ + " ("@ + dec_text(o.accuracy as nat) + "% accuracy)"@),
            None => head,
        };
        let ports = open_lines(port_views(h.ports@));
        if ports.len() == 0 {
            os.push("(No open ports found)"@).push(Seq::empty())
        } else {
            (os + ports).push(Seq::empty())
        }
    }
}

/// The table lines of the ports the table lists, in order.
pub open spec fn open_lines(ps: Seq<PortView>) -> Seq<Seq<char>>
    decreases ps.len(),
{
    if ps.len() == 0 {
        Seq::empty()
    } else {
        let r = open_lines(ps.drop_last());
        match port_line(ps.last()) {
            Some(l) => r.push(l),
            None => r,
        }
    }
}

fn format_port_lines(ports: &Vec<PortResult>) -> (r: Vec<String>)
    ensures
        texts(r@) == open_lines(port_views(ports@)),
{
    let ghost pv = port_views(ports@);
    let mut out: Vec<String> = Vec::new();
    let mut i: usize = 0;
    assert(texts(out@) =~= open_lines(pv.take(0)));
    while i < ports.len()
        invariant
            i <= ports@.len(),
            pv == port_views(ports@),
            texts(out@) == open_lines(pv.take(i as int)),
        decreases ports@.len() - i,
    {
        assert(pv.take(i + 1).drop_last() =~= pv.take(i as int));
        assert(pv.take(i + 1).last() == ports@[i as int]@);
        match format_port_line(&ports[i]) {
            Some(l) => {
                let ghost before = texts(out@);
                let ghost lv = l@;
                out.push(l);
                assert(texts(out@) =~= before.push(lv));
            },
            None => {},
        }
        i += 1;
    }
    assert(pv.take(ports@.len() as int) =~= pv);
    out
}

/// Formats the report lines of one host.
pub fn format_host(h: &HostResult) -> (r: Vec<String>)
    ensures
        texts(r@) == host_lines(*h),
{
    let mut out: Vec<String> = Vec::new();
    if h.status != HostStatus::Up {
        assert(texts(out@) =~= Seq::<Seq<char>>::empty());
        return out;
    }
    let mut head: Vec<char> = Vec::new();
    push_str(&mut head, "Results for ");
    push_ip(&mut head, h.ip);
    push_str(&mut head, ":");
    out.push(string_from_chars(&head));
    let ghost hd = seq!["Results for "@ + ip_text(h.ip) + ":"@];
    assert(texts(out@) =~= hd);
    match &h.os {
        Some(o) => {
            let mut l: Vec<char> = Vec::new();
            push_str(&mut l, "OS: ");
            push_str(&mut l, o.name.as_str());
            push_str(&mut l, " (");
            push_decimal(&mut l, o.accuracy as u64);
            push_str(&mut l, "% accuracy)");
            out.push(string_from_chars(&l));
            assert(texts(out@) =~= hd.push(
                "OS: "@ + o.name@ + " ("@ + dec_text(o.accuracy as nat) + "% accuracy)"@,
            ));
        },
        None => {},
    }
    let ghost os = texts(out@);
    let lines = format_port_lines(&h.ports);
    let none = lines.len() == 0;
    let mut k: usize = 0;
    while k < lines.len()
        invariant
            k <= lines@.len(),
            texts(out@) == os + texts(lines@).take(k as int),
        decreases lines@.len() - k,
    {
        let ghost before = texts(out@);
        let l = lines[k].clone();
        assert(l@ == lines@[k as int]@);
        assert(texts(lines@)[k as int] == lines@[k as int]@);
        out.push(l);
        assert(texts(out@) =~= before.push(lines@[k as int]@));
        assert(texts(lines@).take(k + 1) =~= texts(lines@).take(k as int).push(texts(lines@)[k as int]));
        assert(texts(out@) =~= os + texts(lines@).take(k + 1));
        k += 1;
    }
    assert(texts(lines@).take(lines@.len() as int) =~= texts(lines@));
    assert(texts(lines@).len() == lines@.len());
    assert(texts(out@) == os + open_lines(port_views(h.ports@)));
    if none {
        out.push("(No open ports found)".to_owned());
        assert(texts(out@) =~= os.push("(No open ports found)"@));
    }
    let ghost before_last = texts(out@);
    out.push(String::new());
    assert(texts(out@) =~= before_last.push(Seq::empty()));
    assert(texts(out@) =~= host_lines(*h));
    out
}

/// A severity as the findings list shows it.
pub open spec fn severity_label(s: Severity) -> Seq<char> {
    match s {
        Severity::Info => "INFO"@,
        Severity::Low => "LOW"@,
        Severity::Medium => "MEDIUM"@,
        Severity::High => "HIGH"@,
        Severity::Critical => "CRITICAL"@,
    }
}

/// The lines of one finding: `[SEVERITY] id - evidence`, then the
/// recommendation (indented, after an arrow) when there is one.
pub open spec fn finding_lines(f: Finding) -> Seq<Seq<char>> {
    let first = seq!["["@ + severity_label(f.severity) + "] "@ + f.id@ + " - "@ + f.evidence@];
    if f.recommendation@.len() > 0 {
        first.push("    -> "@ + f.recommendation@)
    } else {
        first
    }
}

/// Formats the lines of one finding.
pub fn format_finding(f: &Finding) -> (r: Vec<String>)
    ensures
        texts(r@) == finding_lines(*f),
{
    let sev: &str = match f.severity {
        Severity::Info => "INFO",
        Severity::Low => "LOW",
        Severity::Medium => "MEDIUM",
        Severity::High => "HIGH",
        Severity::Critical => "CRITICAL",
    };
    let mut l: Vec<char> = Vec::new();
    push_str(&mut l, "[");
    push_str(&mut l, sev);
    push_str(&mut l, "] ");
    push_str(&mut l, f.id.as_str());
    push_str(&mut l, " - ");
    push_str(&mut l, f.evidence.as_str());
    let mut out: Vec<String> = Vec::new();
    out.push(string_from_chars(&l));
    let rec = str_chars(f.recommendation.as_str());
    if rec.len() > 0 {
        let mut m: Vec<char> = Vec::new();
        push_str(&mut m, "    -> ");
        push_chars(&mut m, &rec);
        out.push(string_from_chars(&m));
    }
    assert(texts(out@) =~= finding_lines(*f));
    out
}

} // verus!
