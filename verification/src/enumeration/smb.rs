//! SMB enumeration: the negotiate requests sent, the NetBIOS session framing,
//! and what the responses reveal (dialect, signing, SMBv1, null sessions).

use vstd::prelude::*;
use crate::enumeration::{lower_service, ports_where, service_mentions};
use crate::ip::IpAddress;
use crate::model::{
    Finding, FindingContent, FindingProtocol, HostResult, PortResult, PortStatus, PortView, Severity,
    TransportProtocol, contents, make_port_finding, port_finding, port_views,
};
use crate::text::{
    contains_str, hex4_text, starts_with, join_strings, join_with, push_hex4, push_str, string_from_chars,
};

verus! {

/// Does the port look like SMB: 445 or 139, or a service name mentioning "smb",
/// "microsoft-ds" or "netbios"?
pub fn looks_like_smb(port_res: &PortResult) -> (b: bool)
    ensures
        b == (port_res.port == 445 || port_res.port == 139 || service_mentions(
            port_res@.service,
            "smb"@,
        ) || service_mentions(port_res@.service, "microsoft-ds"@) || service_mentions(
            port_res@.service,
            "netbios"@,
        )),
{
    if port_res.port == 445 || port_res.port == 139 {
        return true;
    }
    match lower_service(port_res) {
        Some(s) => contains_str(s.as_str(), "smb") || contains_str(s.as_str(), "microsoft-ds")
            || contains_str(s.as_str(), "netbios"),
        None => false,
    }
}

/// An open TCP port that looks like SMB.
pub open spec fn smb_candidate(p: PortView) -> bool {
    &&& p.status == PortStatus::Open
    &&& p.protocol == TransportProtocol::Tcp
    &&& (p.port == 445 || p.port == 139 || service_mentions(p.service, "smb"@) || service_mentions(
        p.service,
        "microsoft-ds"@,
    ) || service_mentions(p.service, "netbios"@))
}

/// The ports of a host that SMB enumeration probes, in order.
pub fn smb_ports(host: &HostResult) -> (r: Vec<u16>)
    ensures
        r@ == ports_where(host@.ports, |p: PortView| smb_candidate(p)),
{
    let ghost pv = port_views(host.ports@);
    let ghost pred = |p: PortView| smb_candidate(p);
    let mut out: Vec<u16> = Vec::new();
    let mut i: usize = 0;
    while i < host.ports.len()
        invariant
            i <= host.ports@.len(),
            pv == port_views(host.ports@),
            pred == (|p: PortView| smb_candidate(p)),
            out@ == ports_where(pv.take(i as int), pred),
        decreases host.ports@.len() - i,
    {
        assert(pv.take(i + 1).drop_last() =~= pv.take(i as int));
        let p = &host.ports[i];
        assert(pv.take(i + 1).last() == p@);
        if p.status == PortStatus::Open && p.protocol == TransportProtocol::Tcp && looks_like_smb(p) {
            out.push(p.port);
        }
        i += 1;
    }
    assert(pv.take(host.ports@.len() as int) =~= pv);
    out
}

/// `n` zero bytes.
pub open spec fn zeros(n: nat) -> Seq<u8> {
    Seq::new(n, |i: int| 0u8)
}

/// The two bytes of `v`, least significant first.
pub open spec fn le16(v: u16) -> Seq<u8> {
    seq![(v % 256) as u8, (v / 256) as u8]
}

/// The 64-byte SMB2 header of the negotiate request: protocol id `FE 'SMB'`,
/// structure size 64, one credit requested, everything else zero.
pub open spec fn smb2_negotiate_header() -> Seq<u8> {
    seq![0xFEu8, 0x53u8, 0x4Du8, 0x42u8] + le16(64) + zeros(8) + le16(1) + zeros(48)
}

/// The SMB2 NEGOTIATE request (MS-SMB2 2.2.3): the header, a 36-byte body
/// (structure size 36, four dialects, security mode "signing enabled"), then the
/// dialects 2.0.2, 2.1, 3.0 and 3.0.2.
pub open spec fn smb2_negotiate_bytes() -> Seq<u8> {
    smb2_negotiate_header() + le16(36) + le16(4) + le16(1) + zeros(30) + le16(0x0202) + le16(0x0210)
        + le16(0x0300) + le16(0x0302)
}

fn push_zeros(v: &mut Vec<u8>, n: usize)
    ensures
        final(v)@ == old(v)@ + zeros(n as nat),
{
    let mut i: usize = 0;
    while i < n
        invariant
            i <= n,
            v@ == old(v)@ + zeros(i as nat),
        decreases n - i,
    {
        v.push(0u8);
        assert(v@ =~= old(v)@ + zeros((i + 1) as nat));
        i += 1;
    }
}

fn push_le16(v: &mut Vec<u8>, x: u16)
    ensures
        final(v)@ == old(v)@ + le16(x),
{
    v.push((x % 256) as u8);
    v.push((x / 256) as u8);
    assert(final(v)@ =~= old(v)@ + le16(x));
}

/// Builds a bare SMB2 NEGOTIATE request offering dialects 2.0.2 through 3.0.2
/// (not 3.1.1, which needs a negotiate-context list; a 3.1.1 server still
/// negotiates down to 3.0.2, enough to learn the dialect and signing policy).
pub fn build_smb2_negotiate_request() -> (r: Vec<u8>)
    ensures
        r@ == smb2_negotiate_bytes(),
{
    let mut r: Vec<u8> = Vec::new();
    r.push(0xFEu8);
    r.push(0x53u8);
    r.push(0x4Du8);
    r.push(0x42u8);
    push_le16(&mut r, 64);
    push_zeros(&mut r, 8);
    push_le16(&mut r, 1);
    push_zeros(&mut r, 48);
    assert(r@ =~= smb2_negotiate_header());
    push_le16(&mut r, 36);
    push_le16(&mut r, 4);
    push_le16(&mut r, 1);
    push_zeros(&mut r, 30);
    push_le16(&mut r, 0x0202);
    push_le16(&mut r, 0x0210);
    push_le16(&mut r, 0x0300);
    push_le16(&mut r, 0x0302);
    r
}

/// The SMB1 header of the legacy negotiate request (MS-CIFS 2.2.4.52): protocol
/// id `FF 'SMB'`, command `SMB_COM_NEGOTIATE` (0x72), flags 0x18, flags2 0xC843,
/// no tree id (0xFFFF), everything else zero.
pub open spec fn smb1_negotiate_header() -> Seq<u8> {
    seq![0xFFu8, 0x53u8, 0x4Du8, 0x42u8, 0x72u8] + zeros(4) + seq![0x18u8] + le16(0xC843) + zeros(12)
        + le16(0xFFFF) + zeros(6)
}

/// The legacy SMB1 negotiate request offering only "NT LM 0.12": the header, a
/// zero word count, the byte count, buffer format 2 and the NUL-terminated
/// dialect name.
pub open spec fn smb1_negotiate_bytes() -> Seq<u8> {
    smb1_negotiate_header() + seq![0u8] + le16(12) + seq![0x02u8] + seq![
        0x4Eu8,
        0x54u8,
        0x20u8,
        0x4Cu8,
        0x4Du8,
        0x20u8,
        0x30u8,
        0x2Eu8,
        0x31u8,
        0x32u8,
        0u8,
    ]
}

/// Builds the legacy SMB1 SMB_COM_NEGOTIATE request. A server that still speaks
/// SMB1 answers with an SMB1-framed response; one with SMB1 disabled resets the
/// connection, times out, or answers in SMB2.
pub fn build_smb1_negotiate_request() -> (r: Vec<u8>)
    ensures
        r@ == smb1_negotiate_bytes(),
{
    let mut r: Vec<u8> = Vec::new();
    r.push(0xFFu8);
    r.push(0x53u8);
    r.push(0x4Du8);
    r.push(0x42u8);
    r.push(0x72u8);
    push_zeros(&mut r, 4);
    r.push(0x18u8);
    push_le16(&mut r, 0xC843);
    push_zeros(&mut r, 12);
    push_le16(&mut r, 0xFFFF);
    push_zeros(&mut r, 6);
    assert(r@ =~= smb1_negotiate_header());
    r.push(0u8);
    push_le16(&mut r, 12);
    r.push(0x02u8);
    let dialect: [u8; 11] = [0x4E, 0x54, 0x20, 0x4C, 0x4D, 0x20, 0x30, 0x2E, 0x31, 0x32, 0];
    let mut i: usize = 0;
    let ghost start = r@;
    while i < 11
        invariant
            i <= 11,
            dialect@ == seq![
                0x4Eu8,
                0x54u8,
                0x20u8,
                0x4Cu8,
                0x4Du8,
                0x20u8,
                0x30u8,
                0x2Eu8,
                0x31u8,
                0x32u8,
                0u8,
            ],
            r@ == start + dialect@.take(i as int),
        decreases 11 - i,
    {
        r.push(dialect[i]);
        assert(dialect@.take(i + 1) =~= dialect@.take(i as int).push(dialect@[i as int]));
        i += 1;
    }
    assert(dialect@.take(11) =~= dialect@);
    r
}

/// The NetBIOS Session Service frame of a payload: a zero byte, the low 24 bits
/// of the payload length (of its 32-bit value) big-endian, then the payload.
pub open spec fn nbss_frame_bytes(payload: Seq<u8>) -> Seq<u8> {
    let len = payload.len() % 0x1_0000_0000;
    seq![0u8, ((len / 65536) % 256) as u8, ((len / 256) % 256) as u8, (len % 256) as u8] + payload
}

/// Frames a payload for SMB over TCP with the 4-byte NetBIOS session length
/// prefix.
pub fn nbss_frame(payload: &Vec<u8>) -> (r: Vec<u8>)
    ensures
        r@ == nbss_frame_bytes(payload@),
{
    let len: u64 = (payload.len() as u64) % 0x1_0000_0000u64;
    let mut r: Vec<u8> = Vec::new();
    r.push(0u8);
    r.push(((len / 65536) % 256) as u8);
    r.push(((len / 256) % 256) as u8);
    r.push((len % 256) as u8);
    let mut i: usize = 0;
    let ghost start = r@;
    while i < payload.len()
        invariant
            i <= payload@.len(),
            r@ == start + payload@.take(i as int),
        decreases payload@.len() - i,
    {
        r.push(payload[i]);
        assert(payload@.take(i + 1) =~= payload@.take(i as int).push(payload@[i as int]));
        i += 1;
    }
    assert(payload@.take(payload@.len() as int) =~= payload@);
    assert(r@ =~= nbss_frame_bytes(payload@));
    r
}

/// The length announced by a NetBIOS session header, when it is acceptable:
/// neither zero nor above 1 MiB.
pub open spec fn nbss_announced(h0: u8, h1: u8, h2: u8, h3: u8) -> Option<nat> {
    let len = h1 as nat * 65536 + h2 as nat * 256 + h3 as nat;
    if len == 0 || len > 0x10_0000 {
        None
    } else {
        Some(len)
    }
}

/// Reads the response length from a NetBIOS session header.
pub fn nbss_response_length(header: [u8; 4]) -> (r: Option<usize>)
    ensures
        match nbss_announced(header[0], header[1], header[2], header[3]) {
            Some(n) => r == Some(n as usize),
            None => r is None,
        },
{
    let len: usize = (header[1] as usize) * 65536 + (header[2] as usize) * 256 + (header[3] as usize);
    if len == 0 || len > 0x10_0000 {
        None
    } else {
        Some(len)
    }
}

/// How a negotiated SMB dialect is reported.
pub open spec fn dialect_name(d: u16) -> Seq<char> {
    if d == 0x0202 {
        "SMB 2.0.2"@
    } else if d == 0x0210 {
        "SMB 2.1"@
    } else if d == 0x0222 {
        "SMB 2.2.2 (pre-release)"@
    } else if d == 0x0300 {
        "SMB 3.0"@
    } else if d == 0x0302 {
        "SMB 3.0.2"@
    } else if d == 0x0311 {
        "SMB 3.1.1"@
    } else {
        "unknown (0x"@ + hex4_text(d) + ")"@
    }
}

/// The name of an SMB dialect revision.
pub fn dialect_to_string(d: u16) -> (r: String)
    ensures
        r@ == dialect_name(d),
{
    if d == 0x0202 {
        "SMB 2.0.2".to_owned()
    } else if d == 0x0210 {
        "SMB 2.1".to_owned()
    } else if d == 0x0222 {
        "SMB 2.2.2 (pre-release)".to_owned()
    } else if d == 0x0300 {
        "SMB 3.0".to_owned()
    } else if d == 0x0302 {
        "SMB 3.0.2".to_owned()
    } else if d == 0x0311 {
        "SMB 3.1.1".to_owned()
    } else {
        let mut v: Vec<char> = Vec::new();
        push_str(&mut v, "unknown (0x");
        push_hex4(&mut v, d);
        push_str(&mut v, ")");
        string_from_chars(&v)
    }
}

/// A finding of the SMB module about one port.
pub open spec fn smb_finding(
    kind: Seq<char>,
    host: IpAddress,
    port: u16,
    severity: Severity,
    evidence: Seq<char>,
    recommendation: Seq<char>,
) -> FindingContent {
    port_finding("smb"@, FindingProtocol::Smb, kind, host, port, severity, evidence, recommendation)
}

/// The value of two bytes read least significant first.
pub open spec fn le16_value(lo: u8, hi: u8) -> u16 {
    (lo as int + hi as int * 256) as u16
}

/// What an SMB2 NEGOTIATE response reveals: nothing unless it is at least 70
/// bytes and starts with `FE 'SMB'`; otherwise the negotiated dialect (at body
/// offset 4) and whether signing is required (bit 1 of the security mode at
/// body offset 2), a medium-severity finding when it is not.
pub open spec fn negotiate_findings_spec(host: IpAddress, port: u16, resp: Seq<u8>) -> Seq<
    FindingContent,
> {
    if resp.len() < 70 || resp.take(4) != seq![0xFEu8, 0x53u8, 0x4Du8, 0x42u8] {
        Seq::empty()
    } else {
        let mode = le16_value(resp[66], resp[67]);
        let dialect = le16_value(resp[68], resp[69]);
        let d = smb_finding(
            "dialect"@,
            host,
            port,
            Severity::Info,
            "Negotiated SMB dialect: "@ + dialect_name(dialect),
            Seq::empty(),
        );
        let s = if mode % 4 >= 2 {
            smb_finding(
                "signing"@,
                host,
                port,
                Severity::Info,
                "SMB message signing is required"@,
                Seq::empty(),
            )
        } else {
            smb_finding(
                "signing"@,
                host,
                port,
                Severity::Medium,
                "SMB message signing is not required (security mode: 0x"@ + hex4_text(mode) + ")"@,
                "Require SMB message signing on this server to mitigate SMB relay attacks."@,
            )
        };
        seq![d, s]
    }
}

fn starts_with_bytes(resp: &Vec<u8>, a: u8, b: u8, c: u8, d: u8) -> (r: bool)
    ensures
        r == (resp@.len() >= 4 && resp@.take(4) == seq![a, b, c, d]),
{
    if resp.len() < 4 {
        return false;
    }
    let r = resp[0] == a && resp[1] == b && resp[2] == c && resp[3] == d;
    assert(r ==> resp@.take(4) =~= seq![a, b, c, d]);
    assert(resp@.take(4) == seq![a, b, c, d] ==> resp@.take(4)[0] == a && resp@.take(4)[1] == b
        && resp@.take(4)[2] == c && resp@.take(4)[3] == d);
    r
}

/// The findings from an SMB2 NEGOTIATE response.
pub fn negotiate_findings(host: IpAddress, port: u16, resp: &Vec<u8>) -> (r: Vec<Finding>)
    ensures
        contents(r@) == negotiate_findings_spec(host, port, resp@),
{
    let mut out: Vec<Finding> = Vec::new();
    if resp.len() < 70 || !starts_with_bytes(resp, 0xFE, 0x53, 0x4D, 0x42) {
        assert(contents(out@) =~= Seq::<FindingContent>::empty());
        return out;
    }
    let mode: u16 = (resp[66] as u16) + (resp[67] as u16) * 256;
    let dialect: u16 = (resp[68] as u16) + (resp[69] as u16) * 256;
    let mut ev: Vec<char> = Vec::new();
    push_str(&mut ev, "Negotiated SMB dialect: ");
    let name = dialect_to_string(dialect);
    push_str(&mut ev, name.as_str());
    out.push(
        make_port_finding(
            "smb",
            FindingProtocol::Smb,
            "dialect",
            host,
            port,
            Severity::Info,
            string_from_chars(&ev),
            String::new(),
        ),
    );
    if mode & 2 != 0 {
        assert(mode & 2 != 0 <==> mode % 4 >= 2) by (bit_vector);
        out.push(
            make_port_finding(
                "smb",
                FindingProtocol::Smb,
                "signing",
                host,
                port,
                Severity::Info,
                "SMB message signing is required".to_owned(),
                String::new(),
            ),
        );
    } else {
        assert(mode & 2 != 0 <==> mode % 4 >= 2) by (bit_vector);
        let mut sv: Vec<char> = Vec::new();
        push_str(&mut sv, "SMB message signing is not required (security mode: 0x");
        push_hex4(&mut sv, mode);
        push_str(&mut sv, ")");
        out.push(
            make_port_finding(
                "smb",
                FindingProtocol::Smb,
                "signing",
                host,
                port,
                Severity::Medium,
                string_from_chars(&sv),
                "Require SMB message signing on this server to mitigate SMB relay attacks.".to_owned(),
            ),
        );
    }
    assert(contents(out@) =~= negotiate_findings_spec(host, port, resp@));
    out
}

/// The SMBv1 exposure finding when a legacy negotiate was answered in SMB1.
pub open spec fn smb1_findings_spec(host: IpAddress, port: u16, resp: Seq<u8>) -> Seq<
    FindingContent,
> {
    if resp.len() >= 4 && resp.take(4) == seq![0xFFu8, 0x53u8, 0x4Du8, 0x42u8] {
        seq![
            smb_finding(
                "smbv1"@,
                host,
                port,
                Severity::High,
                "Server responded to a legacy SMBv1 negotiate request"@,
                "Disable the SMBv1 protocol entirely -- it lacks modern security protections and is deprecated. On Windows: `Disable-WindowsOptionalFeature -Online -FeatureName smb1protocol`; on Samba: set `server min protocol = SMB2_10` (or higher) in smb.conf."@,
            ),
        ]
    } else {
        Seq::empty()
    }
}

/// The findings from the response to a legacy SMB1 negotiate request.
pub fn smb1_findings(host: IpAddress, port: u16, resp: &Vec<u8>) -> (r: Vec<Finding>)
    ensures
        contents(r@) == smb1_findings_spec(host, port, resp@),
{
    let mut out: Vec<Finding> = Vec::new();
    if starts_with_bytes(resp, 0xFF, 0x53, 0x4D, 0x42) {
        out.push(
            make_port_finding(
                "smb",
                FindingProtocol::Smb,
                "smbv1",
                host,
                port,
                Severity::High,
                "Server responded to a legacy SMBv1 negotiate request".to_owned(),
                "Disable the SMBv1 protocol entirely -- it lacks modern security protections and is deprecated. On Windows: `Disable-WindowsOptionalFeature -Online -FeatureName smb1protocol`; on Samba: set `server min protocol = SMB2_10` (or higher) in smb.conf.".to_owned(),
            ),
        );
    }
    assert(contents(out@) =~= smb1_findings_spec(host, port, resp@));
    out
}

/// The names among the share entries that have one, in order.
pub open spec fn named_shares(shares: Seq<Option<Seq<char>>>) -> Seq<Seq<char>>
    decreases shares.len(),
{
    if shares.len() == 0 {
        Seq::empty()
    } else {
        let r = named_shares(shares.drop_last());
        match shares.last() {
            Some(n) => r.push(n),
            None => r,
        }
    }
}

/// The share entries as optional texts.
pub open spec fn share_texts(shares: Seq<Option<String>>) -> Seq<Option<Seq<char>>> {
    shares.map_values(
        |s: Option<String>|
            match s {
                Some(t) => Some(t@),
                None => None,
            },
    )
}

/// What a null-session attempt reveals: nothing when the guest session was
/// refused; otherwise a high-severity finding, and a second one listing the
/// named shares when the share listing worked and named any.
pub open spec fn null_session_findings_spec(
    host: IpAddress,
    port: u16,
    session_ok: bool,
    shares: Option<Seq<Option<Seq<char>>>>,
) -> Seq<FindingContent> {
    if !session_ok {
        Seq::empty()
    } else {
        let s = seq![
            smb_finding(
                "null_session"@,
                host,
                port,
                Severity::High,
                "SMB server accepted a session with no real credentials ('guest' account, empty password)"@,
                "Disable null/anonymous and guest SMB access (RestrictAnonymous on Windows; disable the guest account and restrict anonymous access in Samba's smb.conf)."@,
            ),
        ];
        let names = match shares {
            Some(v) => named_shares(v),
            None => Seq::empty(),
        };
        if names.len() > 0 {
            s.push(
                smb_finding(
                    "shares"@,
                    host,
                    port,
                    Severity::High,
                    "Shares enumerable via null session: "@ + join_with(names, ", "@),
                    "Restrict share access to authenticated, authorized users; disable null-session enumeration."@,
                ),
            )
        } else {
            s
        }
    }
}

/// The findings from a null-session attempt: whether the guest session was
/// accepted, and the share entries listed through it (`None` when the listing
/// failed).
pub fn null_session_findings(
    host: IpAddress,
    port: u16,
    session_ok: bool,
    shares: &Option<Vec<Option<String>>>,
) -> (r: Vec<Finding>)
    ensures
        contents(r@) == null_session_findings_spec(
            host,
            port,
            session_ok,
            match shares {
                Some(v) => Some(share_texts(v@)),
                None => None,
            },
        ),
{
    let mut out: Vec<Finding> = Vec::new();
    if !session_ok {
        assert(contents(out@) =~= Seq::<FindingContent>::empty());
        return out;
    }
    out.push(
        make_port_finding(
            "smb",
            FindingProtocol::Smb,
            "null_session",
            host,
            port,
            Severity::High,
            "SMB server accepted a session with no real credentials ('guest' account, empty password)".to_owned(),
            "Disable null/anonymous and guest SMB access (RestrictAnonymous on Windows; disable the guest account and restrict anonymous access in Samba's smb.conf).".to_owned(),
        ),
    );
    let mut names: Vec<String> = Vec::new();
    let ghost sv = match shares {
        Some(v) => share_texts(v@),
        None => Seq::<Option<Seq<char>>>::empty(),
    };
    match shares {
        Some(v) => {
            let mut i: usize = 0;
            while i < v.len()
                invariant
                    i <= v@.len(),
                    sv == share_texts(v@),
                    names@.map_values(|s: String| s@) == named_shares(sv.take(i as int)),
                decreases v@.len() - i,
            {
                assert(sv.take(i + 1).drop_last() =~= sv.take(i as int));
                match &v[i] {
                    Some(n) => {
                        let ghost before = names@;
                        names.push(n.clone());
                        assert(names@.map_values(|s: String| s@) =~= before.map_values(
                            |s: String| s@,
                        ).push(n@));
                    },
                    None => {},
                }
                i += 1;
            }
            assert(sv.take(v@.len() as int) =~= sv);
        },
        None => {
            assert(names@.map_values(|s: String| s@) =~= Seq::<Seq<char>>::empty());
        },
    }
    let ghost first = contents(out@);
    if names.len() > 0 {
        let joined = join_strings(&names, ", ");
        let mut ev: Vec<char> = Vec::new();
        push_str(&mut ev, "Shares enumerable via null session: ");
        push_str(&mut ev, joined.as_str());
        out.push(
            make_port_finding(
                "smb",
                FindingProtocol::Smb,
                "shares",
                host,
                port,
                Severity::High,
                string_from_chars(&ev),
                "Restrict share access to authenticated, authorized users; disable null-session enumeration.".to_owned(),
            ),
        );
    }
    assert(contents(out@) =~= null_session_findings_spec(
        host,
        port,
        session_ok,
        match shares {
            Some(v) => Some(share_texts(v@)),
            None => None,
        },
    ));
    out
}


/// Framing and reading back agree: the header of a framed payload (of at most
/// 1 MiB, not empty) announces exactly the payload's length, and the payload
/// follows the header unchanged.
pub proof fn lemma_nbss_frame_announces_length(payload: Seq<u8>)
    requires
        0 < payload.len() <= 0x10_0000,
    ensures
        nbss_announced(
            nbss_frame_bytes(payload)[0],
            nbss_frame_bytes(payload)[1],
            nbss_frame_bytes(payload)[2],
            nbss_frame_bytes(payload)[3],
        ) == Some(payload.len()),
        nbss_frame_bytes(payload).skip(4) == payload,
{
    let f = nbss_frame_bytes(payload);
    let len = payload.len();
    assert(len % 0x1_0000_0000 == len);
    let b1 = (len / 65536) % 256;
    let b2 = (len / 256) % 256;
    let b3 = len % 256;
    assert(b1 * 65536 + b2 * 256 + b3 == len) by (nonlinear_arith)
        requires
            b1 == (len / 65536) % 256,
            b2 == (len / 256) % 256,
            b3 == len % 256,
            len <= 0x10_0000,
    ;
    assert(f.skip(4) =~= payload);
}

/// The dialect revisions whose names are known (MS-SMB2 2.2.4).
pub open spec fn known_dialect(d: u16) -> bool {
    d == 0x0202 || d == 0x0210 || d == 0x0222 || d == 0x0300 || d == 0x0302 || d == 0x0311
}

/// A dialect is reported as unknown exactly when it is not one of the known
/// revisions, and then with its number in hexadecimal; every known revision is
/// reported as SMB and its version, each under a name of its own. In particular
/// every dialect the negotiate request offers (2.0.2, 2.1, 3.0, 3.0.2) gets its
/// name.
pub proof fn lemma_dialect_names(d: u16, e: u16)
    ensures
        known_dialect(d) <==> !starts_with(dialect_name(d), "unknown"@),
        !known_dialect(d) ==> dialect_name(d) == "unknown (0x"@ + hex4_text(d) + ")"@,
        known_dialect(d) ==> starts_with(dialect_name(d), "SMB "@),
        known_dialect(d) && known_dialect(e) && d != e ==> dialect_name(d) != dialect_name(e),
        d == 0x0202 ==> dialect_name(d) == "SMB 2.0.2"@,
        d == 0x0210 ==> dialect_name(d) == "SMB 2.1"@,
        d == 0x0300 ==> dialect_name(d) == "SMB 3.0"@,
        d == 0x0302 ==> dialect_name(d) == "SMB 3.0.2"@,
{
    reveal_strlit("unknown");
    reveal_strlit("unknown (0x");
    reveal_strlit(")");
    reveal_strlit("SMB ");
    reveal_strlit("SMB 2.0.2");
    reveal_strlit("SMB 2.1");
    reveal_strlit("SMB 2.2.2 (pre-release)");
    reveal_strlit("SMB 3.0");
    reveal_strlit("SMB 3.0.2");
    reveal_strlit("SMB 3.1.1");
    let n = dialect_name(d);
    if known_dialect(d) {
        assert(n[0] == 'S');
        assert(n.take(4) =~= "SMB "@);
        if starts_with(n, "unknown"@) {
            assert(n.take(7)[0] == n[0]);
        }
    } else {
        assert(n.take(7) =~= "unknown"@);
    }
    if known_dialect(d) && known_dialect(e) && d != e {
        let m = dialect_name(e);
        if n == m {
            assert(n.len() == m.len());
            assert(n[4] == m[4] && n[6] == m[6]);
            if n.len() > 7 {
                assert(n[7] == m[7] && n[8] == m[8]);
            }
        }
    }
}

} // verus!
