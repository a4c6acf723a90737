//! Scan results: ports, hosts, findings, and the addresses they refer to.

use vstd::prelude::*;
use crate::text::{dec_text, push_decimal, push_str, string_from_chars};
use crate::ip::{IpAddress, ip_text, push_ip};
use vstd::std_specs::cmp::PartialOrdSpecImpl;

verus! {

#[derive(Debug, Clone, Copy, PartialEq, Eq, Structural)]
pub enum PortStatus {
    Open,
    Closed,
    Filtered,
    /// No response was received (common for UDP probes): the port may be open
    /// behind a firewall, or genuinely open but silent for the probe sent.
    OpenFiltered,
}

#[derive(Debug, Clone, Copy, PartialEq, Eq, Structural)]
pub enum TransportProtocol {
    Tcp,
    Udp,
}

/// How a `PortResult`'s `service` name was determined.
#[derive(Debug, Clone, Copy, PartialEq, Eq, Structural)]
pub enum ServiceSource {
    /// Identified via Nmap's `-sV` probe/signature matching.
    NmapProbe,
    /// Identified from a live response via content-based signature matching.
    NativeBanner,
}

#[derive(Debug, Clone)]
pub struct PortResult {
    pub port: u16,
    pub status: PortStatus,
    pub protocol: TransportProtocol,
    pub service: Option<String>,
    pub banner: Option<String>,
    /// Confidence in `service`, on a 0-100 scale. Absent when `service` is absent.
    pub confidence: Option<u8>,
    pub confidence_source: Option<ServiceSource>,
    /// CPE identifiers for the identified service.
    pub cpe: Vec<String>,
}

/// What a port result states, with its texts as character sequences.
pub struct PortView {
    pub port: u16,
    pub status: PortStatus,
    pub protocol: TransportProtocol,
    pub service: Option<Seq<char>>,
    pub banner: Option<Seq<char>>,
    pub confidence: Option<u8>,
    pub confidence_source: Option<ServiceSource>,
    pub cpe: Seq<Seq<char>>,
}

/// The characters of an optional text.
pub open spec fn opt_text(o: Option<String>) -> Option<Seq<char>> {
    match o {
        Some(s) => Some(s@),
        None => None,
    }
}

/// The characters of each text of a list.
pub open spec fn texts(v: Seq<String>) -> Seq<Seq<char>> {
    v.map_values(|s: String| s@)
}

impl View for PortResult {
    type V = PortView;

    open spec fn view(&self) -> PortView {
        PortView {
            port: self.port,
            status: self.status,
            protocol: self.protocol,
            service: opt_text(self.service),
            banner: opt_text(self.banner),
            confidence: self.confidence,
            confidence_source: self.confidence_source,
            cpe: texts(self.cpe@),
        }
    }
}

/// Best-guess OS identification for a host.
#[derive(Debug, Clone)]
pub struct OsInfo {
    pub name: String,
    /// Match accuracy, 0-100.
    pub accuracy: u8,
}

#[derive(Debug, Clone, Copy, PartialEq, Eq, Structural)]
pub enum HostStatus {
    Up,
    Down,
}

#[derive(Debug, Clone)]
pub struct HostResult {
    pub ip: IpAddress,
    pub status: HostStatus,
    pub ports: Vec<PortResult>,
    pub os: Option<OsInfo>,
}

/// What a host result states, with its texts as character sequences.
pub struct HostView {
    pub ip: IpAddress,
    pub status: HostStatus,
    pub ports: Seq<PortView>,
    pub os: Option<(Seq<char>, u8)>,
}

impl View for HostResult {
    type V = HostView;

    open spec fn view(&self) -> HostView {
        HostView {
            ip: self.ip,
            status: self.status,
            ports: port_views(self.ports@),
            os: match self.os {
                Some(o) => Some((o.name@, o.accuracy)),
                None => None,
            },
        }
    }
}

pub open spec fn port_views(ps: Seq<PortResult>) -> Seq<PortView> {
    ps.map_values(|p: PortResult| p@)
}

pub open spec fn host_views(hs: Seq<HostResult>) -> Seq<HostView> {
    hs.map_values(|h: HostResult| h@)
}

#[derive(Debug, Clone)]
pub struct ScanResultSummary {
    pub targets_scanned: usize,
    pub hosts_up: usize,
    pub duration_ms: u64,
    pub hosts: Vec<HostResult>,
    /// Enumeration findings gathered by protocol-specific modules.
    pub findings: Vec<Finding>,
}

/// How severe a `Finding` is, in increasing order of urgency: severities
/// compare in declaration order, so `Severity::Critical > Severity::Info`.
#[derive(Debug, Clone, Copy, PartialEq, Eq, Structural, Ord)]
pub enum Severity {
    Info,
    Low,
    Medium,
    High,
    Critical,
}

/// The position of a severity in the order `Info < Low < Medium < High < Critical`.
pub open spec fn severity_rank(s: Severity) -> int {
    match s {
        Severity::Info => 0,
        Severity::Low => 1,
        Severity::Medium => 2,
        Severity::High => 3,
        Severity::Critical => 4,
    }
}

/// The position of a severity in declaration order.
pub fn severity_index(s: Severity) -> (r: u8)
    ensures
        r == severity_rank(s),
{
    match s {
        Severity::Info => 0,
        Severity::Low => 1,
        Severity::Medium => 2,
        Severity::High => 3,
        Severity::Critical => 4,
    }
}

impl PartialOrd for Severity {
    fn partial_cmp(&self, other: &Severity) -> (r: Option<core::cmp::Ordering>) {
        let a = severity_index(*self);
        let b = severity_index(*other);
        if a < b {
            Some(core::cmp::Ordering::Less)
        } else if a == b {
            Some(core::cmp::Ordering::Equal)
        } else {
            Some(core::cmp::Ordering::Greater)
        }
    }
}

impl PartialOrdSpecImpl for Severity {
    open spec fn obeys_partial_cmp_spec() -> bool {
        true
    }

    open spec fn partial_cmp_spec(&self, other: &Severity) -> Option<core::cmp::Ordering> {
        if severity_rank(*self) < severity_rank(*other) {
            Some(core::cmp::Ordering::Less)
        } else if severity_rank(*self) == severity_rank(*other) {
            Some(core::cmp::Ordering::Equal)
        } else {
            Some(core::cmp::Ordering::Greater)
        }
    }
}

/// Severities compare in declaration order (`Info < Low < Medium < High <
/// Critical`): one is below another exactly when it is declared before it, and
/// they are equal in the order only when they are the same severity.
pub proof fn lemma_severity_declaration_order(a: Severity, b: Severity)
    ensures
        (vstd::std_specs::cmp::PartialOrdSpec::partial_cmp_spec(&a, &b) == Some(core::cmp::Ordering::Less)) <==> severity_rank(a) < severity_rank(b),
        (vstd::std_specs::cmp::PartialOrdSpec::partial_cmp_spec(&a, &b) == Some(core::cmp::Ordering::Greater)) <==> severity_rank(b) < severity_rank(a),
        (vstd::std_specs::cmp::PartialOrdSpec::partial_cmp_spec(&a, &b) == Some(core::cmp::Ordering::Equal)) <==> a == b,
{
}

/// The enumeration module that produced a `Finding`.
#[derive(Debug, Clone, Copy, PartialEq, Eq, Structural)]
pub enum FindingProtocol {
    Dns,
    Smb,
    Snmp,
    Http,
    Tls,
    Ftp,
}

/// A single piece of enumeration output. `id` is a stable, human-readable
/// identifier chosen by the producing module, so that the same finding gets the
/// same id across repeated scans of the same target.
#[derive(Debug, Clone)]
pub struct Finding {
    pub id: String,
    pub host: IpAddress,
    pub port: Option<u16>,
    pub protocol: FindingProtocol,
    pub severity: Severity,
    /// Confidence that this finding is a true positive, 0-100.
    pub confidence: u8,
    /// Raw response snippet or other evidence backing this finding.
    pub evidence: String,
    /// Suggested defensive/hardening action.
    pub recommendation: String,
    /// External references (e.g. CWE identifiers).
    pub references: Vec<String>,
    /// Unix timestamp (seconds) when the finding was recorded.
    pub timestamp: u64,
}

/// Everything a finding states apart from the moment it was recorded.
pub struct FindingContent {
    pub id: Seq<char>,
    pub host: IpAddress,
    pub port: Option<u16>,
    pub protocol: FindingProtocol,
    pub severity: Severity,
    pub confidence: u8,
    pub evidence: Seq<char>,
    pub recommendation: Seq<char>,
    pub references: Seq<Seq<char>>,
}

impl Finding {
    pub open spec fn content(self) -> FindingContent {
        FindingContent {
            id: self.id@,
            host: self.host,
            port: self.port,
            protocol: self.protocol,
            severity: self.severity,
            confidence: self.confidence,
            evidence: self.evidence@,
            recommendation: self.recommendation@,
            references: self.references@.map_values(|r: String| r@),
        }
    }

    /// Seconds since the Unix epoch (0 if the clock reads earlier), for stamping a
    /// `Finding` at creation time. Reads the system clock, so nothing is stated of it.
    #[verifier::external_body]
    pub fn now_ts() -> u64 {
        std::time::SystemTime::now().duration_since(std::time::UNIX_EPOCH).map(|d| d.as_secs()).unwrap_or(0)
    }
}

/// The contents of a list of findings, in order.
pub open spec fn contents(fs: Seq<Finding>) -> Seq<FindingContent> {
    fs.map_values(|f: Finding| f.content())
}

/// The id `<module>:<kind>:<host>:<port>` used by the per-port enumeration modules.
pub open spec fn port_finding_id(module: Seq<char>, kind: Seq<char>, host: IpAddress, port: u16) -> Seq<char> {
    module + seq![':'] + kind + seq![':'] + ip_text(host) + seq![':'] + dec_text(port as nat)
}

/// The content of a finding produced for one port by a per-port module: full
/// confidence and no references.
pub open spec fn port_finding(
    module: Seq<char>,
    protocol: FindingProtocol,
    kind: Seq<char>,
    host: IpAddress,
    port: u16,
    severity: Severity,
    evidence: Seq<char>,
    recommendation: Seq<char>,
) -> FindingContent {
    FindingContent {
        id: port_finding_id(module, kind, host, port),
        host,
        port: Some(port),
        protocol,
        severity,
        confidence: 100,
        evidence,
        recommendation,
        references: Seq::empty(),
    }
}

/// Builds a per-port finding stamped with the current time.
pub fn make_port_finding(
    module: &str,
    protocol: FindingProtocol,
    kind: &str,
    host: IpAddress,
    port: u16,
    severity: Severity,
    evidence: String,
    recommendation: String,
) -> (f: Finding)
    ensures
        f.content() == port_finding(
            module@,
            protocol,
            kind@,
            host,
            port,
            severity,
            evidence@,
            recommendation@,
        ),
{
    let mut id: Vec<char> = Vec::new();
    push_str(&mut id, module);
    id.push(':');
    push_str(&mut id, kind);
    id.push(':');
    push_ip(&mut id, host);
    id.push(':');
    push_decimal(&mut id, port as u64);
    assert(id@ =~= port_finding_id(module@, kind@, host, port));
    let f = Finding {
        id: string_from_chars(&id),
        host,
        port: Some(port),
        protocol,
        severity,
        confidence: 100,
        evidence,
        recommendation,
        references: Vec::new(),
        timestamp: Finding::now_ts(),
    };
    assert(f.content().references =~= Seq::<Seq<char>>::empty());
    f
}

} // verus!
