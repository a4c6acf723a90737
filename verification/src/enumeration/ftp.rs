//! FTP enumeration: which ports to probe, the anonymous-login dialogue, and the
//! findings (banner, anonymous access).

use vstd::prelude::*;
use crate::enumeration::{lower_service, ports_where, service_mentions};
use crate::ip::IpAddress;
use crate::model::{
    Finding, FindingContent, FindingProtocol, HostResult, PortResult, PortStatus, PortView, Severity,
    TransportProtocol, contents, make_port_finding, port_finding, port_views,
};
use crate::text::{
    chars_of, clean_line, contains_str, is_digit, lemma_clean_line_printable, lemma_clean_line_smaller_cap,
    lemma_clean_line_trimmed, printable, push_str, sanitize_line, string_from_chars, trim,
};

verus! {

/// Does the port look like FTP: port 21, or a service name mentioning "ftp"?
pub fn looks_like_ftp(port_res: &PortResult) -> (b: bool)
    ensures
        b == (port_res.port == 21 || service_mentions(port_res@.service, "ftp"@)),
{
    if port_res.port == 21 {
        return true;
    }
    match lower_service(port_res) {
        Some(s) => contains_str(s.as_str(), "ftp"),
        None => false,
    }
}

/// An open TCP port that looks like FTP.
pub open spec fn ftp_candidate(p: PortView) -> bool {
    &&& p.status == PortStatus::Open
    &&& p.protocol == TransportProtocol::Tcp
    &&& (p.port == 21 || service_mentions(p.service, "ftp"@))
}

/// The ports of a host that FTP enumeration probes, in order.
pub fn ftp_ports(host: &HostResult) -> (r: Vec<u16>)
    ensures
        r@ == ports_where(host@.ports, |p: PortView| ftp_candidate(p)),
{
    let ghost pv = port_views(host.ports@);
    let ghost pred = |p: PortView| ftp_candidate(p);
    let mut out: Vec<u16> = Vec::new();
    let mut i: usize = 0;
    while i < host.ports.len()
        invariant
            i <= host.ports@.len(),
            pv == port_views(host.ports@),
            pred == (|p: PortView| ftp_candidate(p)),
            out@ == ports_where(pv.take(i as int), pred),
        decreases host.ports@.len() - i,
    {
        assert(pv.take(i + 1).drop_last() =~= pv.take(i as int));
        let p = &host.ports[i];
        assert(pv.take(i + 1).last() == p@);
        if p.status == PortStatus::Open && p.protocol == TransportProtocol::Tcp && looks_like_ftp(p) {
            out.push(p.port);
        }
        i += 1;
    }
    assert(pv.take(host.ports@.len() as int) =~= pv);
    out
}

/// The leading three-digit reply code (RFC 959) of a reply: its first three
/// characters when all three are ASCII digits, read as a decimal number.
pub open spec fn reply_code_of(reply: Seq<char>) -> Option<u16> {
    if reply.len() >= 3 && is_digit(reply[0]) && is_digit(reply[1]) && is_digit(reply[2]) {
        Some(
            ((reply[0] as int - 48) * 100 + (reply[1] as int - 48) * 10 + (reply[2] as int
                - 48)) as u16,
        )
    } else {
        None
    }
}

fn digit_value(c: char) -> (d: u16)
    requires
        is_digit(c),
    ensures
        d == c as int - 48,
{
    ((c as u32) - 48) as u16
}

/// Parses the leading 3-digit FTP reply code, e.g. 230 from
/// "230 Login successful."; `None` unless the reply starts with three digits.
pub fn reply_code(reply: &str) -> (r: Option<u16>)
    ensures
        r == reply_code_of(reply@),
{
    let v = chars_of(reply);
    if v.len() < 3 {
        return None;
    }
    let (a, b, c) = (v[0], v[1], v[2]);
    if !('0' <= a && a <= '9' && '0' <= b && b <= '9' && '0' <= c && c <= '9') {
        return None;
    }
    Some(digit_value(a) * 100 + digit_value(b) * 10 + digit_value(c))
}

/// A reply reduced to one printable line of at most 200 characters.
pub fn clean(raw: &str) -> (r: String)
    ensures
        r@ == clean_line(raw@, 200),
{
    sanitize_line(raw, 200)
}

/// A command line as sent on the control channel: the command and CRLF.
pub open spec fn command_text(line: Seq<char>) -> Seq<char> {
    line + "\r\n"@
}

/// The bytes-to-be of a control-channel command.
pub fn command_line(line: &str) -> (r: String)
    ensures
        r@ == command_text(line@),
{
    let mut v: Vec<char> = Vec::new();
    push_str(&mut v, line);
    push_str(&mut v, "\r\n");
    string_from_chars(&v)
}

/// Where the anonymous login stands after the reply to `USER anonymous`.
#[derive(Debug, Clone, Copy, PartialEq, Eq, Structural)]
pub enum FtpLoginStep {
    /// 230: logged in without a password.
    LoggedIn,
    /// 331: the server asks for a password.
    SendPassword,
    /// Anything else: no anonymous access.
    Refused,
}

/// Decides the next step of the anonymous login from the reply code to
/// `USER anonymous` (`None` when there was no reply or no code).
pub fn after_user_reply(code: Option<u16>) -> (r: FtpLoginStep)
    ensures
        r == match code {
            Some(230) => FtpLoginStep::LoggedIn,
            Some(331) => FtpLoginStep::SendPassword,
            _ => FtpLoginStep::Refused,
        },
{
    match code {
        Some(230) => FtpLoginStep::LoggedIn,
        Some(331) => FtpLoginStep::SendPassword,
        _ => FtpLoginStep::Refused,
    }
}

/// Is the anonymous login accepted after the reply code to `PASS`?
pub fn password_accepted(code: Option<u16>) -> (b: bool)
    ensures
        b == (code == Some(230u16)),
{
    match code {
        Some(c) => c == 230,
        None => false,
    }
}

/// What an FTP probe found: the greeting, and whether the anonymous login worked.
#[derive(Debug, Clone)]
pub struct FtpProbeResult {
    pub banner: Option<String>,
    pub anonymous_login: bool,
}

/// A finding of the FTP module about one port.
pub open spec fn ftp_finding(
    kind: Seq<char>,
    host: IpAddress,
    port: u16,
    severity: Severity,
    evidence: Seq<char>,
    recommendation: Seq<char>,
) -> FindingContent {
    port_finding("ftp"@, FindingProtocol::Ftp, kind, host, port, severity, evidence, recommendation)
}

/// The findings of an FTP probe: the cleaned greeting (when it holds anything),
/// then a high-severity finding when the anonymous login worked.
pub open spec fn ftp_findings(host: IpAddress, port: u16, banner: Option<Seq<char>>, anonymous: bool) -> Seq<
    FindingContent,
> {
    let b = match banner {
        Some(raw) => if clean_line(raw, 200).len() > 0 {
            seq![
                ftp_finding(
                    "banner"@,
                    host,
                    port,
                    Severity::Info,
                    "Banner: "@ + clean_line(raw, 200),
                    Seq::empty(),
                ),
            ]
        } else {
            Seq::empty()
        },
        None => Seq::empty(),
    };
    if anonymous {
        b.push(
            ftp_finding(
                "anonymous"@,
                host,
                port,
                Severity::High,
                "FTP server accepted an anonymous login (USER anonymous / PASS ...)"@,
                "Disable anonymous FTP access unless explicitly required; if required, restrict it to a read-only, isolated directory with no write access."@,
            ),
        )
    } else {
        b
    }
}

/// Builds the findings of an FTP probe of `host:port`.
pub fn build_findings(host: IpAddress, port: u16, result: FtpProbeResult) -> (r: Vec<Finding>)
    ensures
        contents(r@) == ftp_findings(
            host,
            port,
            match result.banner {
                Some(b) => Some(b@),
                None => None,
            },
            result.anonymous_login,
        ),
{
    let mut out: Vec<Finding> = Vec::new();
    match &result.banner {
        Some(b) => {
            let cleaned = clean(b.as_str());
            let cv = chars_of(cleaned.as_str());
            if cv.len() > 0 {
                let mut ev: Vec<char> = Vec::new();
                push_str(&mut ev, "Banner: ");
                push_str(&mut ev, cleaned.as_str());
                out.push(
                    make_port_finding(
                        "ftp",
                        FindingProtocol::Ftp,
                        "banner",
                        host,
                        port,
                        Severity::Info,
                        string_from_chars(&ev),
                        String::new(),
                    ),
                );
            }
        },
        None => {},
    }
    let ghost first = contents(out@);
    if result.anonymous_login {
        out.push(
            make_port_finding(
                "ftp",
                FindingProtocol::Ftp,
                "anonymous",
                host,
                port,
                Severity::High,
                "FTP server accepted an anonymous login (USER anonymous / PASS ...)".to_owned(),
                "Disable anonymous FTP access unless explicitly required; if required, restrict it to a read-only, isolated directory with no write access.".to_owned(),
            ),
        );
    }
    assert(contents(out@) =~= ftp_findings(
        host,
        port,
        match result.banner {
            Some(b) => Some(b@),
            None => None,
        },
        result.anonymous_login,
    ));
    out
}

/// A cleaned FTP reply (`clean`) is one printable, trimmed line of at most 200
/// characters, and when it holds at most 100 it is exactly the banner cleaning
/// (`clean_banner`) of the same reply.
pub proof fn lemma_clean_reply_and_banner(raw: Seq<char>)
    ensures
        printable(clean_line(raw, 200)),
        clean_line(raw, 200).len() <= 200,
        trim(clean_line(raw, 200)) == clean_line(raw, 200),
        clean_line(raw, 200).len() <= 100 ==> clean_line(raw, 100) == clean_line(raw, 200),
{
    lemma_clean_line_printable(raw, 200);
    lemma_clean_line_trimmed(raw, 200);
    if clean_line(raw, 200).len() <= 100 {
        lemma_clean_line_smaller_cap(raw, 100, 200);
    }
}

} // verus!
