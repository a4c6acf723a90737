//! TLS certificate inspection: which ports speak TLS, and what a server's leaf
//! certificate reveals (issuer, subject, DNS names, expiry).

use vstd::prelude::*;
use crate::enumeration::{lower_service, ports_where, service_mentions};
use crate::ip::IpAddress;
use crate::model::{
    Finding, FindingContent, FindingProtocol, HostResult, PortResult, PortStatus, PortView, Severity,
    TransportProtocol, contents, make_port_finding, port_finding, port_views,
};
use crate::text::{contains_str, dec_text, join_strings, join_with, push_decimal, push_str, string_from_chars};

verus! {

/// The ports TLS is expected on whatever the service label says.
pub open spec fn tls_port(port: u16) -> bool {
    port == 443 || port == 8443 || port == 993 || port == 995 || port == 465 || port == 636 || port
        == 8883
}

/// Does the port look like it speaks TLS: a well-known TLS port, or a service
/// name mentioning "ssl", "tls" or "https"?
pub fn looks_like_tls(port_res: &PortResult) -> (b: bool)
    ensures
        b == (tls_port(port_res.port) || service_mentions(port_res@.service, "ssl"@)
            || service_mentions(port_res@.service, "tls"@) || service_mentions(
            port_res@.service,
            "https"@,
        )),
{
    let p = port_res.port;
    if p == 443 || p == 8443 || p == 993 || p == 995 || p == 465 || p == 636 || p == 8883 {
        return true;
    }
    match lower_service(port_res) {
        Some(s) => contains_str(s.as_str(), "ssl") || contains_str(s.as_str(), "tls")
            || contains_str(s.as_str(), "https"),
        None => false,
    }
}

/// An open TCP port that looks like it speaks TLS.
pub open spec fn tls_candidate(p: PortView) -> bool {
    &&& p.status == PortStatus::Open
    &&& p.protocol == TransportProtocol::Tcp
    &&& (tls_port(p.port) || service_mentions(p.service, "ssl"@) || service_mentions(p.service, "tls"@)
        || service_mentions(p.service, "https"@))
}

/// The ports of a host whose certificate is inspected, in order.
pub fn tls_ports(host: &HostResult) -> (r: Vec<u16>)
    ensures
        r@ == ports_where(host@.ports, |p: PortView| tls_candidate(p)),
{
    let ghost pv = port_views(host.ports@);
    let ghost pred = |p: PortView| tls_candidate(p);
    let mut out: Vec<u16> = Vec::new();
    let mut i: usize = 0;
    while i < host.ports.len()
        invariant
            i <= host.ports@.len(),
            pv == port_views(host.ports@),
            pred == (|p: PortView| tls_candidate(p)),
            out@ == ports_where(pv.take(i as int), pred),
        decreases host.ports@.len() - i,
    {
        assert(pv.take(i + 1).drop_last() =~= pv.take(i as int));
        let p = &host.ports[i];
        assert(pv.take(i + 1).last() == p@);
        if p.status == PortStatus::Open && p.protocol == TransportProtocol::Tcp && looks_like_tls(p) {
            out.push(p.port);
        }
        i += 1;
    }
    assert(pv.take(host.ports@.len() as int) =~= pv);
    out
}

/// One entry of a certificate's subject alternative names.
#[derive(Debug, Clone)]
pub enum SanName {
    /// A DNS name.
    Dns(String),
    /// Any other kind of name (address, e-mail, URI, ...).
    Other,
}

/// What the inspection reads from a certificate.
#[derive(Debug, Clone)]
pub struct CertFields {
    /// The issuer's distinguished name, as x509-parser displays it.
    pub issuer: String,
    /// The subject's distinguished name, as x509-parser displays it.
    pub subject: String,
    /// The subject alternative names; `None` without a readable extension.
    pub san: Option<Vec<SanName>>,
    /// The end of the validity period, in nanoseconds since the Unix epoch.
    pub not_after_ns: i128,
    /// The end of the validity period, as x509-parser displays it.
    pub not_after_text: String,
}

/// A subject alternative name as characters: `Some` for a DNS name.
pub open spec fn san_view(n: SanName) -> Option<Seq<char>> {
    match n {
        SanName::Dns(s) => Some(s@),
        SanName::Other => None,
    }
}

/// What a certificate's fields state.
pub struct CertView {
    pub issuer: Seq<char>,
    pub subject: Seq<char>,
    pub san: Option<Seq<Option<Seq<char>>>>,
    pub not_after_ns: i128,
    pub not_after_text: Seq<char>,
}

pub open spec fn cert_view(c: CertFields) -> CertView {
    CertView {
        issuer: c.issuer@,
        subject: c.subject@,
        san: match c.san {
            Some(v) => Some(v@.map_values(|n: SanName| san_view(n))),
            None => None,
        },
        not_after_ns: c.not_after_ns,
        not_after_text: c.not_after_text@,
    }
}

/// An instant the `time` crate can represent (years within ±999,999, so well
/// inside ±10^23 nanoseconds of the epoch).
pub open spec fn representable_instant(ns: int) -> bool {
    -100_000_000_000_000_000_000_000 <= ns <= 100_000_000_000_000_000_000_000
}

/// What x509-parser reads from a DER certificate: its fields, or `None` when the
/// bytes are not a certificate.
pub uninterp spec fn certificate_fields(der: Seq<u8>) -> Option<CertView>;

/// Parses a DER certificate with `x509_parser::parse_x509_certificate` and reads
/// the issuer and subject (their `Display` text), the DNS names among the
/// subject alternative names (`None` when the extension is absent or
/// unreadable), and the end of validity (as Unix nanoseconds and as text). Which
/// bytes parse, and the texts, are left to the name `certificate_fields`; the
/// contract adds only that the instant lies in the `time` crate's range.
#[verifier::external_body]
fn parse_certificate(der: &[u8]) -> (r: Option<CertFields>)
    ensures
        match r {
            Some(c) => certificate_fields(der@) == Some(cert_view(c)) && representable_instant(
                c.not_after_ns as int,
            ),
            None => certificate_fields(der@) is None,
        },
{
    let (_, c) = x509_parser::parse_x509_certificate(der).ok()?;
    let na = c.validity().not_after;
    Some(CertFields {
        issuer: c.issuer().to_string(),
        subject: c.subject().to_string(),
        san: c.subject_alternative_name().ok().flatten().map(|e| e.value.general_names.iter().map(
            |g| match g {
                x509_parser::extensions::GeneralName::DNSName(d) => SanName::Dns(d.to_string()),
                _ => SanName::Other,
            }).collect()),
        not_after_ns: na.to_datetime().unix_timestamp_nanos(),
        not_after_text: na.to_string(),
    })
}

/// The current time (`ASN1Time::now`) in nanoseconds since the Unix epoch. It
/// reads the system clock, so only the range of the `time` crate is stated.
#[verifier::external_body]
fn now_nanos() -> (r: i128)
    ensures
        representable_instant(r as int),
{
    x509_parser::time::ASN1Time::now().to_datetime().unix_timestamp_nanos()
}

/// The DNS names among subject alternative names, in order.
pub open spec fn dns_names(ns: Seq<Option<Seq<char>>>) -> Seq<Seq<char>>
    decreases ns.len(),
{
    if ns.len() == 0 {
        Seq::empty()
    } else {
        let r = dns_names(ns.drop_last());
        match ns.last() {
            Some(d) => r.push(d),
            None => r,
        }
    }
}

/// A finding of the TLS module about one port.
pub open spec fn tls_finding(
    kind: Seq<char>,
    host: IpAddress,
    port: u16,
    severity: Severity,
    evidence: Seq<char>,
    recommendation: Seq<char>,
) -> FindingContent {
    port_finding("tls"@, FindingProtocol::Tls, kind, host, port, severity, evidence, recommendation)
}

/// Nanoseconds in a day.
pub open spec fn nanos_per_day() -> int {
    86_400_000_000_000
}

/// The findings about a certificate, given the current time: issuer and subject;
/// the DNS names, when there are any; then its validity — expired when it ended
/// before now, expiring soon when at most 30 whole days remain, valid otherwise
/// (nothing when it ends exactly now).
pub open spec fn cert_findings(host: IpAddress, port: u16, c: CertView, now: int) -> Seq<
    FindingContent,
> {
    let base = seq![
        tls_finding("issuer"@, host, port, Severity::Info, "Issuer: "@ + c.issuer, Seq::empty()),
        tls_finding("subject"@, host, port, Severity::Info, "Subject: "@ + c.subject, Seq::empty()),
    ];
    let names = match c.san {
        Some(s) => dns_names(s),
        None => Seq::empty(),
    };
    let named = if names.len() > 0 {
        base.push(
            tls_finding(
                "san"@,
                host,
                port,
                Severity::Info,
                "SAN: "@ + join_with(names, ", "@),
                Seq::empty(),
            ),
        )
    } else {
        base
    };
    let na = c.not_after_ns as int;
    if na < now {
        named.push(
            tls_finding(
                "expired"@,
                host,
                port,
                Severity::High,
                "Certificate expired on "@ + c.not_after_text,
                "Renew the TLS certificate immediately -- clients may already be rejecting connections."@,
            ),
        )
    } else if na > now {
        let days = (na - now) / nanos_per_day();
        if days <= 30 {
            named.push(
                tls_finding(
                    "expiring_soon"@,
                    host,
                    port,
                    Severity::Medium,
                    "Certificate expires on "@ + c.not_after_text + " ("@ + dec_text(days as nat)
                        + " day(s) remaining)"@,
                    "Renew the TLS certificate before it expires."@,
                ),
            )
        } else {
            named.push(
                tls_finding(
                    "validity"@,
                    host,
                    port,
                    Severity::Info,
                    "Certificate valid until "@ + c.not_after_text,
                    Seq::empty(),
                ),
            )
        }
    } else {
        named
    }
}

fn text_after(prefix: &str, s: &str) -> (r: String)
    ensures
        r@ == prefix@ + s@,
{
    let mut v: Vec<char> = Vec::new();
    push_str(&mut v, prefix);
    push_str(&mut v, s);
    string_from_chars(&v)
}

fn dns_name_list(san: &Vec<SanName>) -> (r: Vec<String>)
    ensures
        r@.map_values(|s: String| s@) == dns_names(san@.map_values(|n: SanName| san_view(n))),
{
    let ghost sv = san@.map_values(|n: SanName| san_view(n));
    let mut out: Vec<String> = Vec::new();
    let mut i: usize = 0;
    while i < san.len()
        invariant
            i <= san@.len(),
            sv == san@.map_values(|n: SanName| san_view(n)),
            out@.map_values(|s: String| s@) == dns_names(sv.take(i as int)),
        decreases san@.len() - i,
    {
        assert(sv.take(i + 1).drop_last() =~= sv.take(i as int));
        assert(sv.take(i + 1).last() == san_view(san@[i as int]));
        match &san[i] {
            SanName::Dns(d) => {
                let ghost before = out@;
                let c = d.clone();
                out.push(c);
                assert(out@.map_values(|s: String| s@) =~= before.map_values(|s: String| s@).push(
                    d@,
                ));
            },
            SanName::Other => {},
        }
        i += 1;
    }
    assert(sv.take(san@.len() as int) =~= sv);
    out
}

/// The findings about a parsed certificate at time `now_ns` (nanoseconds since
/// the Unix epoch).
pub fn inspect_fields(host: IpAddress, port: u16, cert: &CertFields, now_ns: i128) -> (r: Vec<
    Finding,
>)
    requires
        representable_instant(cert.not_after_ns as int),
        representable_instant(now_ns as int),
    ensures
        contents(r@) == cert_findings(host, port, cert_view(*cert), now_ns as int),
{
    let ghost cv = cert_view(*cert);
    let mut out: Vec<Finding> = Vec::new();
    out.push(
        make_port_finding(
            "tls",
            FindingProtocol::Tls,
            "issuer",
            host,
            port,
            Severity::Info,
            text_after("Issuer: ", cert.issuer.as_str()),
            String::new(),
        ),
    );
    out.push(
        make_port_finding(
            "tls",
            FindingProtocol::Tls,
            "subject",
            host,
            port,
            Severity::Info,
            text_after("Subject: ", cert.subject.as_str()),
            String::new(),
        ),
    );
    let ghost base = seq![
        tls_finding("issuer"@, host, port, Severity::Info, "Issuer: "@ + cv.issuer, Seq::empty()),
        tls_finding("subject"@, host, port, Severity::Info, "Subject: "@ + cv.subject, Seq::empty()),
    ];
    assert(contents(out@) =~= base);
    let names: Vec<String> = match &cert.san {
        Some(v) => dns_name_list(v),
        None => Vec::new(),
    };
    let ghost nv = match cv.san {
        Some(s) => dns_names(s),
        None => Seq::<Seq<char>>::empty(),
    };
    assert(names@.map_values(|s: String| s@) =~= nv);
    if names.len() > 0 {
        let joined = join_strings(&names, ", ");
        let ghost before = contents(out@);
        out.push(
            make_port_finding(
                "tls",
                FindingProtocol::Tls,
                "san",
                host,
                port,
                Severity::Info,
                text_after("SAN: ", joined.as_str()),
                String::new(),
            ),
        );
        assert(contents(out@) =~= before.push(
            tls_finding("san"@, host, port, Severity::Info, "SAN: "@ + join_with(nv, ", "@), Seq::empty()),
        ));
    }
    let ghost named = contents(out@);
    let na = cert.not_after_ns;
    if na < now_ns {
        out.push(
            make_port_finding(
                "tls",
                FindingProtocol::Tls,
                "expired",
                host,
                port,
                Severity::High,
                text_after("Certificate expired on ", cert.not_after_text.as_str()),
                "Renew the TLS certificate immediately -- clients may already be rejecting connections.".to_owned(),
            ),
        );
        assert(contents(out@) =~= cert_findings(host, port, cv, now_ns as int));
    } else if na > now_ns {
        let days_i: i128 = (na - now_ns) / 86_400_000_000_000i128;
        assert(days_i <= 3_000_000_000);
        let days: u64 = days_i as u64;
        if days <= 30 {
            let mut ev: Vec<char> = Vec::new();
            push_str(&mut ev, "Certificate expires on ");
            push_str(&mut ev, cert.not_after_text.as_str());
            push_str(&mut ev, " (");
            push_decimal(&mut ev, days);
            push_str(&mut ev, " day(s) remaining)");
            out.push(
                make_port_finding(
                    "tls",
                    FindingProtocol::Tls,
                    "expiring_soon",
                    host,
                    port,
                    Severity::Medium,
                    string_from_chars(&ev),
                    "Renew the TLS certificate before it expires.".to_owned(),
                ),
            );
            assert(contents(out@) =~= cert_findings(host, port, cv, now_ns as int));
        } else {
            out.push(
                make_port_finding(
                    "tls",
                    FindingProtocol::Tls,
                    "validity",
                    host,
                    port,
                    Severity::Info,
                    text_after("Certificate valid until ", cert.not_after_text.as_str()),
                    String::new(),
                ),
            );
            assert(contents(out@) =~= cert_findings(host, port, cv, now_ns as int));
        }
    }
    out
}

/// Inspects a server's leaf certificate (DER bytes) on `host:port`: no findings
/// when the bytes are not a certificate; otherwise those of `inspect_fields` at
/// the current time.
pub fn inspect_cert(host: IpAddress, port: u16, der: &[u8]) -> (r: Vec<Finding>)
    ensures
        certificate_fields(der@) is None ==> r@.len() == 0,
        certificate_fields(der@) matches Some(c) ==> exists|now: int|
            representable_instant(now) && contents(r@) == cert_findings(host, port, c, now),
{
    match parse_certificate(der) {
        Some(c) => {
            let now = now_nanos();
            let r = inspect_fields(host, port, &c, now);
            assert(representable_instant(now as int) && contents(r@) == cert_findings(
                host,
                port,
                cert_view(c),
                now as int,
            ));
            r
        },
        None => Vec::new(),
    }
}

} // verus!
