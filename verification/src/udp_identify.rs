//! Identifying UDP services by re-probing with real protocol requests and
//! checking the structure of the answer, whatever the port number.

use vstd::prelude::*;
use crate::model::{HostResult, HostStatus, PortResult, PortStatus, PortView, ServiceSource, TransportProtocol};
use crate::scanners::{dns_query, ntp_request, snmp_get_sysdescr, dns_query_bytes, ntp_request_bytes, snmp_get_sysdescr_bytes};
use crate::text::seq_contains;

verus! {

/// The services tried, in this order.
#[derive(Debug, Clone, Copy, PartialEq, Eq, Structural)]
pub enum UdpService {
    Dns,
    Ntp,
    Snmp,
}

/// The order the services are tried in.
pub fn probe_order() -> (r: Vec<UdpService>)
    ensures
        r@ == seq![UdpService::Dns, UdpService::Ntp, UdpService::Snmp],
{
    let r: Vec<UdpService> = vec![UdpService::Dns, UdpService::Ntp, UdpService::Snmp];
    assert(r@ =~= seq![UdpService::Dns, UdpService::Ntp, UdpService::Snmp]);
    r
}

/// The request sent to try a service: the same probes the UDP scan sends.
pub open spec fn service_request_bytes(s: UdpService) -> Seq<u8> {
    match s {
        UdpService::Dns => dns_query_bytes(),
        UdpService::Ntp => ntp_request_bytes(),
        UdpService::Snmp => snmp_get_sysdescr_bytes(),
    }
}

/// The request that tries a service.
pub fn service_request(s: UdpService) -> (r: Vec<u8>)
    ensures
        r@ == service_request_bytes(s),
{
    match s {
        UdpService::Dns => dns_query(),
        UdpService::Ntp => ntp_request(),
        UdpService::Snmp => snmp_get_sysdescr(),
    }
}

/// A real DNS response echoes our transaction id (0x1234) and has the QR
/// (response) bit set.
pub open spec fn dns_response(r: Seq<u8>) -> bool {
    r.len() >= 3 && r[0] == 0x12 && r[1] == 0x34 && r[2] >= 0x80
}

/// A real NTP response is full length (48 bytes at least) and in mode 4
/// (server).
pub open spec fn ntp_response(r: Seq<u8>) -> bool {
    r.len() >= 48 && r[0] % 8 == 4
}

/// A real SNMP response is a BER SEQUENCE holding a GetResponse-PDU tag (0xA2)
/// and echoing the "public" community.
pub open spec fn snmp_response(r: Seq<u8>) -> bool {
    r.len() > 0 && r[0] == 0x30 && r.contains(0xA2u8) && seq_contains(
        r,
        seq![0x70u8, 0x75u8, 0x62u8, 0x6cu8, 0x69u8, 0x63u8],
    )
}

/// The service an answer confirms, with a confidence.
pub open spec fn confirmed_service(s: UdpService, r: Seq<u8>) -> Option<(Seq<char>, u8)> {
    match s {
        UdpService::Dns => if dns_response(r) {
            Some(("dns"@, 90u8))
        } else {
            None
        },
        UdpService::Ntp => if ntp_response(r) {
            Some(("ntp"@, 85u8))
        } else {
            None
        },
        UdpService::Snmp => if snmp_response(r) {
            Some(("snmp"@, 80u8))
        } else {
            None
        },
    }
}

fn has_byte(r: &Vec<u8>, b: u8) -> (found: bool)
    ensures
        found == r@.contains(b),
{
    let mut i: usize = 0;
    while i < r.len()
        invariant
            i <= r@.len(),
            forall|k: int| 0 <= k < i ==> r@[k] != b,
        decreases r@.len() - i,
    {
        if r[i] == b {
            return true;
        }
        i += 1;
    }
    false
}

fn has_public(r: &Vec<u8>) -> (found: bool)
    ensures
        found == seq_contains(r@, seq![0x70u8, 0x75u8, 0x62u8, 0x6cu8, 0x69u8, 0x63u8]),
{
    let pat: Vec<u8> = vec![0x70, 0x75, 0x62, 0x6c, 0x69, 0x63];
    assert(pat@ =~= seq![0x70u8, 0x75u8, 0x62u8, 0x6cu8, 0x69u8, 0x63u8]);
    if r.len() < 6 {
        return false;
    }
    let mut i: usize = 0;
    let n = r.len();
    let last = n - 6;
    while i <= last
        invariant
            n == r@.len(),
            r@.len() >= 6,
            last == r@.len() - 6,
            i <= r@.len() - 5,
            pat@ == seq![0x70u8, 0x75u8, 0x62u8, 0x6cu8, 0x69u8, 0x63u8],
            forall|k: int| 0 <= k < i ==> #[trigger] r@.subrange(k, k + 6) != pat@,
        decreases r@.len() - i,
    {
        if crate::text::matches_at_bytes(r, i, &pat) {
            return true;
        }
        i += 1;
    }
    false
}

/// Checks an answer against the structure the tried service must have.
pub fn identify_response(s: UdpService, resp: &Vec<u8>) -> (r: Option<(&'static str, u8)>)
    ensures
        match (r, confirmed_service(s, resp@)) {
            (Some((n, c)), Some((m, d))) => n@ == m && c == d,
            (None, None) => true,
            _ => false,
        },
{
    match s {
        UdpService::Dns => {
            if resp.len() < 3 {
                return None;
            }
            let x = resp[2];
            assert(x & 0x80 != 0 <==> x >= 0x80) by (bit_vector);
            if resp[0] == 0x12 && resp[1] == 0x34 && x & 0x80 != 0 {
                Some(("dns", 90))
            } else {
                None
            }
        },
        UdpService::Ntp => {
            if resp.len() < 48 {
                return None;
            }
            let x = resp[0];
            assert(x & 0x07 == x % 8) by (bit_vector);
            if x & 0x07 == 4 {
                Some(("ntp", 85))
            } else {
                None
            }
        },
        UdpService::Snmp => {
            if resp.len() > 0 && resp[0] == 0x30 && has_byte(resp, 0xA2) && has_public(resp) {
                Some(("snmp", 80))
            } else {
                None
            }
        },
    }
}

/// A UDP port of a host that is up, open or open|filtered, with no service
/// name yet, gets identified.
pub open spec fn wants_identification_spec(host: HostStatus, p: PortView) -> bool {
    &&& host == HostStatus::Up
    &&& p.protocol == TransportProtocol::Udp
    &&& (p.status == PortStatus::Open || p.status == PortStatus::OpenFiltered)
    &&& p.service is None
}

/// Should this port of this host be identified?
pub fn wants_identification(host: &HostResult, port_res: &PortResult) -> (b: bool)
    ensures
        b == wants_identification_spec(host.status, port_res@),
{
    host.status == HostStatus::Up && port_res.protocol == TransportProtocol::Udp && (port_res.status
        == PortStatus::Open || port_res.status == PortStatus::OpenFiltered) && port_res.service.is_none()
}

/// Records an identified service on its port, with its confidence and "native
/// banner" as the source; nothing else changes.
pub fn apply_identification(port_res: &mut PortResult, name: &str, confidence: u8)
    ensures
        final(port_res)@.service == Some(name@),
        final(port_res).confidence == Some(confidence),
        final(port_res).confidence_source == Some(ServiceSource::NativeBanner),
        final(port_res).port == old(port_res).port,
        final(port_res).status == old(port_res).status,
        final(port_res).protocol == old(port_res).protocol,
        final(port_res)@.banner == old(port_res)@.banner,
        final(port_res)@.cpe == old(port_res)@.cpe,
{
    port_res.service = Some(name.to_owned());
    port_res.confidence = Some(confidence);
    port_res.confidence_source = Some(ServiceSource::NativeBanner);
}

} // verus!
