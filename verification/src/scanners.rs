//! The port scanners: what each one is, the UDP probe payloads, how a probe's
//! outcome becomes a port status, and the TCP segments of a SYN scan.

use vstd::prelude::*;
use crate::ip::IpAddress;
use crate::model::{PortStatus, TransportProtocol};

verus! {

/// A full TCP connect scan (no privileges needed).
#[derive(Debug, Clone, Copy)]
pub struct ConnectScanner;

/// A half-open TCP SYN scan over a raw socket.
#[derive(Debug, Clone, Copy)]
pub struct SynScanner;

/// A UDP scan with protocol-specific probes.
#[derive(Debug, Clone, Copy)]
pub struct UdpScanner;

impl ConnectScanner {
    pub fn name(&self) -> (r: &'static str)
        ensures
            r@ == "connect"@,
    {
        "connect"
    }

    pub fn requires_raw_socket(&self) -> (b: bool)
        ensures
            !b,
    {
        false
    }

    pub fn protocol(&self) -> (p: TransportProtocol)
        ensures
            p == TransportProtocol::Tcp,
    {
        TransportProtocol::Tcp
    }
}

impl SynScanner {
    pub fn new() -> SynScanner {
        SynScanner
    }

    pub fn name(&self) -> (r: &'static str)
        ensures
            r@ == "SYN Scan"@,
    {
        "SYN Scan"
    }

    pub fn requires_raw_socket(&self) -> (b: bool)
        ensures
            b,
    {
        true
    }

    pub fn protocol(&self) -> (p: TransportProtocol)
        ensures
            p == TransportProtocol::Tcp,
    {
        TransportProtocol::Tcp
    }
}

impl UdpScanner {
    pub fn new() -> UdpScanner {
        UdpScanner
    }

    pub fn name(&self) -> (r: &'static str)
        ensures
            r@ == "udp"@,
    {
        "udp"
    }

    pub fn requires_raw_socket(&self) -> (b: bool)
        ensures
            !b,
    {
        false
    }

    pub fn protocol(&self) -> (p: TransportProtocol)
        ensures
            p == TransportProtocol::Udp,
    {
        TransportProtocol::Udp
    }
}

/// A standard DNS query for the root NS record: transaction id 0x1234, flags
/// "recursion desired", one question, the root name, type NS, class IN.
pub open spec fn dns_query_bytes() -> Seq<u8> {
    seq![
        0x12u8, 0x34u8, 0x01u8, 0x00u8, 0x00u8, 0x01u8, 0x00u8, 0x00u8, 0x00u8, 0x00u8, 0x00u8,
        0x00u8, 0x00u8, 0x00u8, 0x02u8, 0x00u8, 0x01u8,
    ]
}

/// The classic 48-byte NTP client request: LI 0, version 3, mode 3 (client).
pub open spec fn ntp_request_bytes() -> Seq<u8> {
    seq![0x1Bu8] + Seq::new(47, |i: int| 0u8)
}

/// An SNMPv1 GetRequest for sysDescr.0 (1.3.6.1.2.1.1.1.0) with community
/// "public".
pub open spec fn snmp_get_sysdescr_bytes() -> Seq<u8> {
    seq![
        0x30u8, 0x26u8, 0x02u8, 0x01u8, 0x00u8, 0x04u8, 0x06u8, 0x70u8, 0x75u8, 0x62u8, 0x6cu8,
        0x69u8, 0x63u8, 0xA0u8, 0x19u8, 0x02u8, 0x01u8, 0x01u8, 0x02u8, 0x01u8, 0x00u8, 0x02u8,
        0x01u8, 0x00u8, 0x30u8, 0x0Eu8, 0x30u8, 0x0Cu8, 0x06u8, 0x08u8, 0x2Bu8, 0x06u8, 0x01u8,
        0x02u8, 0x01u8, 0x01u8, 0x01u8, 0x00u8, 0x05u8, 0x00u8,
    ]
}

/// The DNS probe.
pub fn dns_query() -> (r: Vec<u8>)
    ensures
        r@ == dns_query_bytes(),
{
    let r: Vec<u8> = vec![
        0x12, 0x34, 0x01, 0x00, 0x00, 0x01, 0x00, 0x00, 0x00, 0x00, 0x00, 0x00, 0x00, 0x00, 0x02, 0x00,
        0x01,
    ];
    assert(r@ =~= dns_query_bytes());
    r
}

/// The NTP probe.
pub fn ntp_request() -> (r: Vec<u8>)
    ensures
        r@ == ntp_request_bytes(),
{
    let mut r: Vec<u8> = Vec::new();
    r.push(0x1B);
    let mut i: usize = 0;
    while i < 47
        invariant
            i <= 47,
            r@ == seq![0x1Bu8] + Seq::new(i as nat, |k: int| 0u8),
        decreases 47 - i,
    {
        r.push(0);
        assert(r@ =~= seq![0x1Bu8] + Seq::new((i + 1) as nat, |k: int| 0u8));
        i += 1;
    }
    r
}

/// The SNMP probe.
pub fn snmp_get_sysdescr() -> (r: Vec<u8>)
    ensures
        r@ == snmp_get_sysdescr_bytes(),
{
    let r: Vec<u8> = vec![
        0x30, 0x26, 0x02, 0x01, 0x00, 0x04, 0x06, 0x70, 0x75, 0x62, 0x6c, 0x69, 0x63, 0xA0, 0x19, 0x02,
        0x01, 0x01, 0x02, 0x01, 0x00, 0x02, 0x01, 0x00, 0x30, 0x0E, 0x30, 0x0C, 0x06, 0x08, 0x2B, 0x06,
        0x01, 0x02, 0x01, 0x01, 0x01, 0x00, 0x05, 0x00,
    ];
    assert(r@ =~= snmp_get_sysdescr_bytes());
    r
}

/// The payload a UDP probe of `port` carries: the DNS query on 53, the NTP
/// request on 123, the SNMP request on 161, an empty datagram elsewhere.
pub open spec fn probe_payload_bytes(port: u16) -> Seq<u8> {
    if port == 53 {
        dns_query_bytes()
    } else if port == 123 {
        ntp_request_bytes()
    } else if port == 161 {
        snmp_get_sysdescr_bytes()
    } else {
        Seq::empty()
    }
}

/// A protocol-specific probe payload likely to elicit a response from a
/// well-known UDP service; unknown ports get an empty datagram.
pub fn probe_payload(port: u16) -> (r: Vec<u8>)
    ensures
        r@ == probe_payload_bytes(port),
{
    if port == 53 {
        dns_query()
    } else if port == 123 {
        ntp_request()
    } else if port == 161 {
        snmp_get_sysdescr()
    } else {
        Vec::new()
    }
}

/// How a TCP connection attempt ended.
#[derive(Debug, Clone, Copy, PartialEq, Eq, Structural)]
pub enum ConnectOutcome {
    Connected,
    /// The host answered with a reset.
    Refused,
    /// Any other error.
    Failed,
    TimedOut,
}

/// The status a connect scan reports: open when the connection was accepted,
/// closed when refused, filtered otherwise.
pub fn connect_status(outcome: ConnectOutcome) -> (s: PortStatus)
    ensures
        s == match outcome {
            ConnectOutcome::Connected => PortStatus::Open,
            ConnectOutcome::Refused => PortStatus::Closed,
            _ => PortStatus::Filtered,
        },
{
    match outcome {
        ConnectOutcome::Connected => PortStatus::Open,
        ConnectOutcome::Refused => PortStatus::Closed,
        _ => PortStatus::Filtered,
    }
}

/// How a UDP probe ended.
#[derive(Debug, Clone, Copy, PartialEq, Eq, Structural)]
pub enum UdpOutcome {
    /// No local socket could be bound or connected.
    SetupFailed,
    /// Sending failed with "connection refused" (an ICMP port unreachable).
    SendRefused,
    /// Sending failed otherwise.
    SendFailed,
    /// Something came back.
    Received,
    /// Receiving failed with "connection refused".
    ReceiveRefused,
    /// Receiving failed otherwise.
    ReceiveFailed,
    /// Nothing came back in time.
    TimedOut,
}

/// The status a UDP scan reports: open when something came back, closed on a
/// port-unreachable, open|filtered when nothing came back in time (the
/// ambiguity of UDP), filtered on any other failure.
pub fn udp_status(outcome: UdpOutcome) -> (s: PortStatus)
    ensures
        s == match outcome {
            UdpOutcome::Received => PortStatus::Open,
            UdpOutcome::SendRefused => PortStatus::Closed,
            UdpOutcome::ReceiveRefused => PortStatus::Closed,
            UdpOutcome::TimedOut => PortStatus::OpenFiltered,
            _ => PortStatus::Filtered,
        },
{
    match outcome {
        UdpOutcome::Received => PortStatus::Open,
        UdpOutcome::SendRefused => PortStatus::Closed,
        UdpOutcome::ReceiveRefused => PortStatus::Closed,
        UdpOutcome::TimedOut => PortStatus::OpenFiltered,
        _ => PortStatus::Filtered,
    }
}

// ---------------------------------------------------------------------------
// SYN scan segments
// ---------------------------------------------------------------------------

/// TCP flag bits.
pub const TCP_SYN: u8 = 0x02;
pub const TCP_RST: u8 = 0x04;
pub const TCP_ACK: u8 = 0x10;

/// The bytes of a 16-bit value, most significant first.
pub open spec fn be16(v: u16) -> Seq<u8> {
    seq![(v / 256) as u8, (v % 256) as u8]
}

/// The bytes of a 32-bit value, most significant first.
pub open spec fn be32(v: u32) -> Seq<u8> {
    seq![(v / 0x100_0000) as u8, ((v / 0x1_0000) % 256) as u8, ((v / 256) % 256) as u8, (v % 256) as u8]
}

/// A 20-byte TCP header without options: ports, sequence and acknowledgement
/// numbers, data offset 5, the flags, the window, a zero checksum (to be filled
/// in) and a zero urgent pointer.
pub open spec fn tcp_header_bytes(src: u16, dst: u16, seq_no: u32, ack_no: u32, flags: u8, window: u16) -> Seq<u8> {
    be16(src) + be16(dst) + be32(seq_no) + be32(ack_no) + seq![0x50u8, flags] + be16(window) + seq![
        0u8,
        0u8,
        0u8,
        0u8,
    ]
}

fn push_be16(v: &mut Vec<u8>, x: u16)
    ensures
        final(v)@ == old(v)@ + be16(x),
{
    v.push((x / 256) as u8);
    v.push((x % 256) as u8);
    assert(final(v)@ =~= old(v)@ + be16(x));
}

fn push_be32(v: &mut Vec<u8>, x: u32)
    ensures
        final(v)@ == old(v)@ + be32(x),
{
    v.push((x / 0x100_0000) as u8);
    v.push(((x / 0x1_0000) % 256) as u8);
    v.push(((x / 256) % 256) as u8);
    v.push((x % 256) as u8);
    assert(final(v)@ =~= old(v)@ + be32(x));
}

/// Builds a 20-byte TCP header with a zero checksum.
pub fn tcp_header(src: u16, dst: u16, seq_no: u32, ack_no: u32, flags: u8, window: u16) -> (r: Vec<u8>)
    ensures
        r@ == tcp_header_bytes(src, dst, seq_no, ack_no, flags, window),
{
    let mut r: Vec<u8> = Vec::new();
    push_be16(&mut r, src);
    push_be16(&mut r, dst);
    push_be32(&mut r, seq_no);
    push_be32(&mut r, ack_no);
    r.push(0x50u8);
    r.push(flags);
    push_be16(&mut r, window);
    r.push(0u8);
    r.push(0u8);
    r.push(0u8);
    r.push(0u8);
    assert(r@ =~= tcp_header_bytes(src, dst, seq_no, ack_no, flags, window));
    r
}

/// The SYN probe: from `src` to `dst`, sequence number 123456789, window 64240.
pub fn syn_segment(src: u16, dst: u16) -> (r: Vec<u8>)
    ensures
        r@ == tcp_header_bytes(src, dst, 123456789, 0, TCP_SYN, 64240),
{
    tcp_header(src, dst, 123456789, 0, TCP_SYN, 64240)
}

/// The reset that tears down a half-open connection after a SYN-ACK whose
/// sequence and acknowledgement numbers are given: it acknowledges their
/// sequence number plus one (modulo 2^32) and uses their acknowledgement number
/// as its own sequence number, window 0.
pub fn rst_segment(src: u16, dst: u16, their_seq: u32, their_ack: u32) -> (r: Vec<u8>)
    ensures
        r@ == tcp_header_bytes(src, dst, their_ack, ((their_seq as int + 1) % 0x1_0000_0000) as u32, TCP_RST, 0),
{
    let next: u32 = if their_seq == 0xffff_ffff {
        0
    } else {
        their_seq + 1
    };
    tcp_header(src, dst, their_ack, next, TCP_RST, 0)
}

/// The segment with its checksum written in (bytes 16 and 17, big-endian).
pub open spec fn with_checksum(seg: Seq<u8>, sum: u16) -> Seq<u8> {
    seg.update(16, (sum / 256) as u8).update(17, (sum % 256) as u8)
}

/// Writes the checksum into a 20-byte TCP header.
pub fn set_checksum(seg: &mut Vec<u8>, sum: u16)
    requires
        old(seg)@.len() >= 20,
    ensures
        final(seg)@ == with_checksum(old(seg)@, sum),
{
    seg.set(16, (sum / 256) as u8);
    seg.set(17, (sum % 256) as u8);
}

/// What a reply to a SYN probe says, given its flags: open for SYN-ACK, closed
/// for a reset, nothing yet for anything else.
pub fn syn_reply_status(flags: u8) -> (r: Option<PortStatus>)
    ensures
        r == if flags & TCP_SYN != 0 && flags & TCP_ACK != 0 {
            Some(PortStatus::Open)
        } else if flags & TCP_RST != 0 {
            Some(PortStatus::Closed)
        } else {
            None::<PortStatus>
        },
{
    if flags & TCP_SYN != 0 && flags & TCP_ACK != 0 {
        Some(PortStatus::Open)
    } else if flags & TCP_RST != 0 {
        Some(PortStatus::Closed)
    } else {
        None
    }
}

/// The sum of the first `n` big-endian 16-bit words of a segment, the checksum
/// field (word 8) left out.
pub open spec fn words_sum(seg: Seq<u8>, n: nat) -> int
    decreases n,
{
    if n == 0 {
        0
    } else {
        let i = n - 1;
        words_sum(seg, i as nat) + if i == 8 {
            0
        } else {
            seg[2 * i] as int * 256 + seg[2 * i + 1] as int
        }
    }
}

/// The sum of a segment's 16-bit words (checksum field left out), a final odd
/// byte counting as the high byte of a word.
pub open spec fn segment_sum(seg: Seq<u8>) -> int {
    words_sum(seg, seg.len() / 2) + if seg.len() % 2 == 1 && seg.len() / 2 != 8 {
        seg[seg.len() - 1] as int * 256
    } else {
        0
    }
}

/// End-around-carry folding of a sum into 16 bits.
pub open spec fn fold16(s: nat) -> nat
    decreases s,
{
    if s < 0x10000 {
        s
    } else {
        fold16(s / 0x10000 + s % 0x10000)
    }
}

/// The Internet checksum (RFC 1071) of a sum: the ones' complement of its
/// 16-bit fold.
pub open spec fn internet_checksum(sum: nat) -> u16 {
    (0xffff - fold16(sum)) as u16
}

/// The TCP checksum of a segment sent from `src` to `dst` over IPv4 (RFC 793):
/// the Internet checksum over the pseudo-header (both addresses as 16-bit
/// words, protocol 6, the segment length) and the segment.
pub open spec fn tcp_checksum_v4(segment: Seq<u8>, src: u32, dst: u32) -> u16 {
    internet_checksum(
        (src / 0x10000 + src % 0x10000 + dst / 0x10000 + dst % 0x10000 + 6 + segment.len()
            + segment_sum(segment)) as nat,
    )
}

/// The sum of the eight 16-bit groups of an IPv6 address.
pub open spec fn groups_sum(v: u128) -> int {
    let g = crate::ip::segments(v);
    g[0] as int + g[1] as int + g[2] as int + g[3] as int + g[4] as int + g[5] as int + g[6] as int
        + g[7] as int
}

/// The TCP checksum of a segment sent from `src` to `dst` over IPv6 (RFC 2460
/// pseudo-header: both addresses, the segment length, next header 6).
pub open spec fn tcp_checksum_v6(segment: Seq<u8>, src: u128, dst: u128) -> u16 {
    internet_checksum((groups_sum(src) + groups_sum(dst) + 6 + segment.len() + segment_sum(segment)) as nat)
}

#[verifier::external_body]
fn checksum_v4(segment: &[u8], src: u32, dst: u32) -> (r: u16)
    requires
        20 <= segment@.len() <= 65535,
    ensures
        r == tcp_checksum_v4(segment@, src, dst),
{
    let packet = pnet::packet::tcp::TcpPacket::new(segment).unwrap();
    pnet::packet::tcp::ipv4_checksum(&packet, &src.into(), &dst.into())
}

/// The TCP checksum over the IPv6 pseudo-header and the segment, computed by
/// `pnet::packet::tcp::ipv6_checksum`. Its value is `tcp_checksum_v6`, the
/// checksum RFC 793 and RFC 2460 define. The segment bounds are those of
/// `checksum_v4`.
#[verifier::external_body]
fn checksum_v6(segment: &[u8], src: u128, dst: u128) -> (r: u16)
    requires
        20 <= segment@.len() <= 65535,
    ensures
        r == tcp_checksum_v6(segment@, src, dst),
{
    let packet = pnet::packet::tcp::TcpPacket::new(segment).unwrap();
    pnet::packet::tcp::ipv6_checksum(&packet, &src.into(), &dst.into())
}

/// A segment ready to send from `src` to `dst`: its checksum written in; `None`
/// when the two addresses are of different families.
pub open spec fn finished_segment(seg: Seq<u8>, src: IpAddress, dst: IpAddress) -> Option<Seq<u8>> {
    match (src, dst) {
        (IpAddress::V4(a), IpAddress::V4(b)) => Some(with_checksum(seg, tcp_checksum_v4(seg, a, b))),
        (IpAddress::V6(a), IpAddress::V6(b)) => Some(with_checksum(seg, tcp_checksum_v6(seg, a, b))),
        _ => None,
    }
}

/// Writes the TCP checksum for the route from `src` to `dst` into a segment
/// (a TCP header at least, and no longer than an IP packet can carry).
pub fn finish_segment(seg: Vec<u8>, src: IpAddress, dst: IpAddress) -> (r: Option<Vec<u8>>)
    requires
        20 <= seg@.len() <= 65535,
    ensures
        match (r, finished_segment(seg@, src, dst)) {
            (Some(v), Some(w)) => v@ == w,
            (None, None) => true,
            _ => false,
        },
{
    let mut seg = seg;
    match (src, dst) {
        (IpAddress::V4(a), IpAddress::V4(b)) => {
            let sum = checksum_v4(seg.as_slice(), a, b);
            set_checksum(&mut seg, sum);
            Some(seg)
        },
        (IpAddress::V6(a), IpAddress::V6(b)) => {
            let sum = checksum_v6(seg.as_slice(), a, b);
            set_checksum(&mut seg, sum);
            Some(seg)
        },
        _ => None,
    }
}

/// Is a received segment the answer to our probe: from the probed address, from
/// the probed port, to our source port?
pub fn is_reply_to_probe(
    sender: IpAddress,
    reply_src_port: u16,
    reply_dst_port: u16,
    target: IpAddress,
    port: u16,
    src_port: u16,
) -> (b: bool)
    ensures
        b == (sender == target && reply_src_port == port && reply_dst_port == src_port),
{
    sender == target && reply_src_port == port && reply_dst_port == src_port
}

/// Which scanner a scan runs with.
#[derive(Debug, Clone, Copy, PartialEq, Eq, Structural)]
pub enum ScannerKind {
    Connect,
    Syn,
    Udp,
}

/// Chooses the scanner: UDP when asked for; SYN when asked for and raw sockets
/// are available; a connect scan otherwise. The second value tells whether a
/// requested SYN scan fell back to a connect scan for want of privileges.
pub fn choose_scanner(udp: bool, syn: bool, has_raw_socket: bool) -> (r: (ScannerKind, bool))
    ensures
        r == if udp {
            (ScannerKind::Udp, false)
        } else if syn && has_raw_socket {
            (ScannerKind::Syn, false)
        } else if syn {
            (ScannerKind::Connect, true)
        } else {
            (ScannerKind::Connect, false)
        },
{
    if udp {
        (ScannerKind::Udp, false)
    } else if syn {
        if has_raw_socket {
            (ScannerKind::Syn, false)
        } else {
            (ScannerKind::Connect, true)
        }
    } else {
        (ScannerKind::Connect, false)
    }
}

/// Whether ARP discovery runs: only when asked for and raw sockets are
/// available. The second value tells whether a request was turned down for want
/// of privileges.
pub fn arp_discovery_enabled(requested: bool, has_raw_socket: bool) -> (r: (bool, bool))
    ensures
        r == (requested && has_raw_socket, requested && !has_raw_socket),
{
    if requested && !has_raw_socket {
        (false, true)
    } else {
        (requested, false)
    }
}

} // verus!
