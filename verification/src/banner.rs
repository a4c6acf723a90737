//! Native banner grabbing: which ports get a banner, the probe sent to silent
//! services, how a raw response becomes a banner line, and what the banner
//! identifies.

use vstd::prelude::*;
use crate::ip::{IpAddress, ip_text, push_ip};
use crate::model::{
    HostResult, HostStatus, PortResult, PortStatus, PortView, ServiceSource, TransportProtocol,
};
use crate::text::{
    clean_line, contains_str, lemma_clean_line_idempotent, lossy_text, push_str, sanitize_line, seq_contains, starts_with,
    starts_with_str, string_from_chars, to_uppercase, upper_text, utf8_lossy,
};

verus! {

/// The longest banner kept, in characters.
pub const MAX_BANNER_LEN: usize = 100;

/// How long to wait for a service to speak first, in milliseconds.
pub const IMMEDIATE_READ_TIMEOUT_MS: u64 = 600;

/// The service a banner identifies, with a confidence, by its standardized
/// opening: SSH, HTTP (the answer to our own request), VNC, POP3, IMAP; a "220"
/// greeting only when it names FTP or SMTP (a bare 220 is ambiguous).
pub open spec fn banner_service(b: Seq<char>) -> Option<(Seq<char>, u8)> {
    if starts_with(b, "SSH-"@) {
        Some(("ssh"@, 90u8))
    } else if starts_with(b, "HTTP/"@) {
        Some(("http"@, 85u8))
    } else if starts_with(b, "RFB 0"@) {
        Some(("vnc"@, 90u8))
    } else if starts_with(b, "+OK"@) {
        Some(("pop3"@, 80u8))
    } else if starts_with(b, "* OK"@) || starts_with(b, "* PREAUTH"@) {
        Some(("imap"@, 80u8))
    } else if starts_with(b, "220"@) && seq_contains(upper_text(b), "FTP"@) {
        Some(("ftp"@, 80u8))
    } else if starts_with(b, "220"@) && seq_contains(upper_text(b), "SMTP"@) {
        Some(("smtp"@, 80u8))
    } else {
        None
    }
}

/// Identifies a service from the content it sent back, independent of the port
/// it came from.
pub fn identify_banner(banner: &str) -> (r: Option<(&'static str, u8)>)
    ensures
        match (r, banner_service(banner@)) {
            (Some((n, c)), Some((m, d))) => n@ == m && c == d,
            (None, None) => true,
            _ => false,
        },
{
    if starts_with_str(banner, "SSH-") {
        return Some(("ssh", 90));
    }
    if starts_with_str(banner, "HTTP/") {
        return Some(("http", 85));
    }
    if starts_with_str(banner, "RFB 0") {
        return Some(("vnc", 90));
    }
    if starts_with_str(banner, "+OK") {
        return Some(("pop3", 80));
    }
    if starts_with_str(banner, "* OK") || starts_with_str(banner, "* PREAUTH") {
        return Some(("imap", 80));
    }
    if starts_with_str(banner, "220") {
        let upper = to_uppercase(banner);
        if contains_str(upper.as_str(), "FTP") {
            return Some(("ftp", 80));
        }
        if contains_str(upper.as_str(), "SMTP") {
            return Some(("smtp", 80));
        }
    }
    None
}

/// Reduces a raw response to a single printable line safe for a table: the
/// first line holding anything, control characters (terminal escapes included)
/// neutralized, at most 100 characters.
pub fn clean_banner(raw: &str) -> (r: String)
    ensures
        r@ == clean_line(raw@, 100),
{
    sanitize_line(raw, MAX_BANNER_LEN)
}

/// The banner line of a raw response: decoded (lossily) as UTF-8, then cleaned.
pub fn banner_from_bytes(raw: &[u8]) -> (r: String)
    ensures
        r@ == clean_line(lossy_text(raw@), 100),
{
    let text = utf8_lossy(raw);
    clean_banner(text.as_str())
}

/// The generic request sent to a service that does not speak first.
pub open spec fn banner_probe_text(ip: IpAddress) -> Seq<char> {
    "GET / HTTP/1.0\r\nHost: "@ + ip_text(ip) + "\r\nConnection: close\r\n\r\n"@
}

/// Builds the generic HTTP/1.0 request for a silent service on `ip`.
pub fn banner_probe_request(ip: IpAddress) -> (r: String)
    ensures
        r@ == banner_probe_text(ip),
{
    let mut v: Vec<char> = Vec::new();
    push_str(&mut v, "GET / HTTP/1.0\r\nHost: ");
    push_ip(&mut v, ip);
    push_str(&mut v, "\r\nConnection: close\r\n\r\n");
    string_from_chars(&v)
}

/// A banner is grabbed for an open TCP port of a host that is up, when the port
/// has no banner yet.
pub open spec fn wants_banner_spec(host: HostStatus, p: PortView) -> bool {
    &&& host == HostStatus::Up
    &&& p.status == PortStatus::Open
    &&& p.protocol == TransportProtocol::Tcp
    &&& p.banner is None
}

/// Should a banner be grabbed for this port of this host?
pub fn wants_banner(host: &HostResult, port_res: &PortResult) -> (b: bool)
    ensures
        b == wants_banner_spec(host.status, port_res@),
{
    host.status == HostStatus::Up && port_res.status == PortStatus::Open && port_res.protocol
        == TransportProtocol::Tcp && port_res.banner.is_none()
}

/// Records a grabbed banner on its port: when the port has no service name yet
/// and the banner identifies one, the service, its confidence and "native
/// banner" as the source are recorded too (nothing is guessed from the port
/// number). Nothing else changes.
pub fn apply_banner(port_res: &mut PortResult, banner: String)
    ensures
        final(port_res)@.banner == Some(banner@),
        final(port_res).port == old(port_res).port,
        final(port_res).status == old(port_res).status,
        final(port_res).protocol == old(port_res).protocol,
        final(port_res)@.cpe == old(port_res)@.cpe,
        match (old(port_res).service, banner_service(banner@)) {
            (None, Some((name, confidence))) => {
                &&& final(port_res)@.service == Some(name)
                &&& final(port_res).confidence == Some(confidence)
                &&& final(port_res).confidence_source == Some(ServiceSource::NativeBanner)
            },
            _ => {
                &&& final(port_res)@.service == old(port_res)@.service
                &&& final(port_res).confidence == old(port_res).confidence
                &&& final(port_res).confidence_source == old(port_res).confidence_source
            },
        },
{
    if port_res.service.is_none() {
        match identify_banner(banner.as_str()) {
            Some((name, confidence)) => {
                port_res.service = Some(name.to_owned());
                port_res.confidence = Some(confidence);
                port_res.confidence_source = Some(ServiceSource::NativeBanner);
            },
            None => {},
        }
    }
    port_res.banner = Some(banner);
}

/// A cleaned banner is its own cleaning: cleaning the result of `clean_banner`
/// again gives it back unchanged.
pub proof fn lemma_clean_banner_idempotent(raw: Seq<char>)
    ensures
        clean_line(clean_line(raw, 100), 100) == clean_line(raw, 100),
{
    lemma_clean_line_idempotent(raw, 100);
}

/// A text starting with a given opening has that opening's first character.
proof fn lemma_opening_first_char(b: Seq<char>, p: Seq<char>)
    requires
        p.len() > 0,
        starts_with(b, p),
    ensures
        b.len() > 0 && b[0] == p[0],
{
    assert(b.take(p.len() as int)[0] == b[0]);
}

/// A banner is identified by its protocol opening alone: an SSH identification
/// string is ssh (90), an HTTP status line http (85), an RFB handshake vnc (90),
/// a POP3 `+OK` greeting pop3 (80), and an IMAP greeting, `* OK` or
/// `* PREAUTH`, imap (80), whatever follows the opening.
pub proof fn lemma_banner_openings(b: Seq<char>)
    ensures
        starts_with(b, "SSH-"@) ==> banner_service(b) == Some(("ssh"@, 90u8)),
        starts_with(b, "HTTP/"@) ==> banner_service(b) == Some(("http"@, 85u8)),
        starts_with(b, "RFB 0"@) ==> banner_service(b) == Some(("vnc"@, 90u8)),
        starts_with(b, "+OK"@) ==> banner_service(b) == Some(("pop3"@, 80u8)),
        starts_with(b, "* OK"@) ==> banner_service(b) == Some(("imap"@, 80u8)),
        starts_with(b, "* PREAUTH"@) ==> banner_service(b) == Some(("imap"@, 80u8)),
{
    reveal_strlit("SSH-");
    reveal_strlit("HTTP/");
    reveal_strlit("RFB 0");
    reveal_strlit("+OK");
    reveal_strlit("* OK");
    reveal_strlit("* PREAUTH");
    if starts_with(b, "HTTP/"@) {
        lemma_opening_first_char(b, "HTTP/"@);
        assert(!starts_with(b, "SSH-"@)) by {
            if starts_with(b, "SSH-"@) {
                lemma_opening_first_char(b, "SSH-"@);
            }
        }
    }
    if starts_with(b, "RFB 0"@) {
        lemma_opening_first_char(b, "RFB 0"@);
        if starts_with(b, "SSH-"@) {
            lemma_opening_first_char(b, "SSH-"@);
        }
        if starts_with(b, "HTTP/"@) {
            lemma_opening_first_char(b, "HTTP/"@);
        }
    }
    if starts_with(b, "+OK"@) || starts_with(b, "* OK"@) || starts_with(b, "* PREAUTH"@) {
        if starts_with(b, "+OK"@) {
            lemma_opening_first_char(b, "+OK"@);
        }
        if starts_with(b, "* OK"@) {
            lemma_opening_first_char(b, "* OK"@);
        }
        if starts_with(b, "* PREAUTH"@) {
            lemma_opening_first_char(b, "* PREAUTH"@);
        }
        if starts_with(b, "SSH-"@) {
            lemma_opening_first_char(b, "SSH-"@);
        }
        if starts_with(b, "HTTP/"@) {
            lemma_opening_first_char(b, "HTTP/"@);
        }
        if starts_with(b, "RFB 0"@) {
            lemma_opening_first_char(b, "RFB 0"@);
        }
    }
    if starts_with(b, "* OK"@) || starts_with(b, "* PREAUTH"@) {
        if starts_with(b, "+OK"@) {
            lemma_opening_first_char(b, "+OK"@);
        }
    }
}

/// Nothing is identified from a port number: a banner with none of the known
/// openings (and no `220` greeting) is left unidentified.
pub proof fn lemma_unknown_opening_unidentified(b: Seq<char>)
    requires
        !starts_with(b, "SSH-"@),
        !starts_with(b, "HTTP/"@),
        !starts_with(b, "RFB 0"@),
        !starts_with(b, "+OK"@),
        !starts_with(b, "* OK"@),
        !starts_with(b, "* PREAUTH"@),
        !starts_with(b, "220"@),
    ensures
        banner_service(b) is None,
{
}

} // verus!
