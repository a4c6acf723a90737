use netenum::enumeration::dns::{axfr_outcome, dns_findings, nameserver_key, DnsAnswers};
use netenum::enumeration::ftp::{after_user_reply, clean, command_line, password_accepted, FtpLoginStep};
use netenum::enumeration::http::{build_findings as http_findings, extract_title, fetch_request, parse_response};
use netenum::enumeration::smb::{
    nbss_frame, nbss_response_length, negotiate_findings, null_session_findings, smb1_findings,
};
use netenum::enumeration::snmp::{build_findings as snmp_findings, format_value, walk_step, SnmpValue, WalkStep};
use netenum::enumeration::tls::{inspect_cert, inspect_fields, CertFields, SanName};
use netenum::ip::{parse_ip, IpAddress};
use netenum::model::{FindingProtocol, Severity};
use netenum::scanners::{
    choose_scanner, connect_status, finish_segment, probe_payload, rst_segment, syn_reply_status, syn_segment,
    udp_status, ConnectOutcome, ScannerKind, UdpOutcome, UdpScanner, SynScanner, ConnectScanner,
};
use netenum::udp_identify::{identify_response, probe_order, service_request, UdpService};
use netenum::model::{PortStatus, TransportProtocol};

fn ip(text: &str) -> IpAddress {
    parse_ip(text).unwrap()
}

const DAY_NS: i128 = 86_400_000_000_000;

fn cert(not_after_ns: i128) -> CertFields {
    CertFields {
        issuer: "CN=Test CA".to_string(),
        subject: "CN=example.com".to_string(),
        san: Some(vec![
            SanName::Dns("example.com".to_string()),
            SanName::Other,
            SanName::Dns("www.example.com".to_string()),
        ]),
        not_after_ns,
        not_after_text: "Jan  1 00:00:00 2030 +00:00".to_string(),
    }
}

#[test]
fn tls_findings_report_names_and_expiry() {
    let now: i128 = 1_900_000_000 * 1_000_000_000;
    let f = inspect_fields(ip("10.0.0.5"), 443, &cert(now + 10 * DAY_NS + 3_600_000_000_000), now);
    assert_eq!(f.len(), 4);
    assert_eq!(f[0].id, "tls:issuer:10.0.0.5:443");
    assert_eq!(f[0].evidence, "Issuer: CN=Test CA");
    assert_eq!(f[1].evidence, "Subject: CN=example.com");
    assert_eq!(f[2].evidence, "SAN: example.com, www.example.com");
    assert_eq!(f[3].id, "tls:expiring_soon:10.0.0.5:443");
    assert_eq!(f[3].severity, Severity::Medium);
    assert_eq!(f[3].evidence, "Certificate expires on Jan  1 00:00:00 2030 +00:00 (10 day(s) remaining)");
    assert_eq!(f[3].protocol, FindingProtocol::Tls);
}

#[test]
fn tls_expired_and_valid_certificates() {
    let now: i128 = 1_900_000_000 * 1_000_000_000;
    let expired = inspect_fields(ip("10.0.0.5"), 443, &cert(now - 1), now);
    assert_eq!(expired.last().unwrap().id, "tls:expired:10.0.0.5:443");
    assert_eq!(expired.last().unwrap().severity, Severity::High);
    let valid = inspect_fields(ip("10.0.0.5"), 443, &cert(now + 31 * DAY_NS), now);
    assert_eq!(valid.last().unwrap().id, "tls:validity:10.0.0.5:443");
    assert_eq!(valid.last().unwrap().evidence, "Certificate valid until Jan  1 00:00:00 2030 +00:00");
    let exactly_now = inspect_fields(ip("10.0.0.5"), 443, &cert(now), now);
    assert_eq!(exactly_now.len(), 3);
    let mut no_san = cert(now + 31 * DAY_NS);
    no_san.san = None;
    assert_eq!(inspect_fields(ip("10.0.0.5"), 443, &no_san, now).len(), 3);
}

#[test]
fn tls_garbage_is_not_a_certificate() {
    assert!(inspect_cert(ip("10.0.0.5"), 443, &[0x30, 0x03, 0x02, 0x01]).is_empty());
}

#[test]
fn dns_report_lists_records_and_transfers() {
    let answers = DnsAnswers {
        cname: None,
        ns: Some(vec!["ns1.example.com.".to_string()]),
        mx: Some(vec![]),
        txt: None,
        ptr: Some(vec!["host.example.com.".to_string()]),
        axfr: vec![("ns1.example.com.".to_string(), Some(42)), ("ns2.example.com.".to_string(), None)],
    };
    let (primary, f) = dns_findings("example.com", Ok(vec![ip("10.0.0.5"), ip("10.0.0.6")]), &answers).unwrap();
    assert_eq!(primary, ip("10.0.0.5"));
    let ids: Vec<&str> = f.iter().map(|x| x.id.as_str()).collect();
    assert_eq!(
        ids,
        vec![
            "dns:a:example.com:10.0.0.5",
            "dns:a:example.com:10.0.0.6",
            "dns:ns:example.com:ns1.example.com.",
            "dns:ptr:example.com:host.example.com.",
            "dns:axfr:example.com:ns1.example.com.",
        ]
    );
    assert_eq!(f[0].evidence, "example.com A 10.0.0.5");
    assert_eq!(f[1].host, ip("10.0.0.5"));
    assert_eq!(f[4].severity, Severity::High);
    assert_eq!(f[4].references, vec!["CWE-200".to_string()]);
    assert_eq!(
        f[4].evidence,
        "Zone transfer (AXFR) for 'example.com' succeeded against nameserver 'ns1.example.com.', 42 record(s) returned"
    );
}

#[test]
fn dns_report_errors() {
    let none = DnsAnswers { cname: None, ns: None, mx: None, txt: None, ptr: None, axfr: vec![] };
    assert_eq!(
        dns_findings("example.com", Err("timeout".to_string()), &none).unwrap_err(),
        "Failed to resolve 'example.com': timeout"
    );
    assert_eq!(
        dns_findings("example.com", Ok(vec![]), &none).unwrap_err(),
        "No A/AAAA records found for 'example.com'"
    );
    assert_eq!(axfr_outcome(true, 0), None);
    assert_eq!(axfr_outcome(false, 5), None);
    assert_eq!(axfr_outcome(true, 5), Some(5));
    assert_eq!(nameserver_key("ns1.example.com.."), "ns1.example.com:53");
}

#[test]
fn ftp_dialogue_decisions() {
    assert_eq!(after_user_reply(Some(230)), FtpLoginStep::LoggedIn);
    assert_eq!(after_user_reply(Some(331)), FtpLoginStep::SendPassword);
    assert_eq!(after_user_reply(Some(530)), FtpLoginStep::Refused);
    assert_eq!(after_user_reply(None), FtpLoginStep::Refused);
    assert!(password_accepted(Some(230)));
    assert!(!password_accepted(Some(530)));
    assert_eq!(command_line("USER anonymous"), "USER anonymous\r\n");
    assert_eq!(clean("\r\n220 (vsFTPd 3.0.5)\r\n"), "220 (vsFTPd 3.0.5)");
}

#[test]
fn http_response_parsing_and_findings() {
    let text = "HTTP/1.1 200 OK\r\nServer: nginx\r\nX-Powered-By: PHP/8.2\r\nserver: apache\r\nNoColon\r\n\r\n<title>Hi</title>";
    let resp = parse_response(text).unwrap();
    assert_eq!(resp.body, "<title>Hi</title>");
    assert_eq!(resp.headers.len(), 3);
    assert_eq!(resp.headers[0], ("server".to_string(), "nginx".to_string()));
    let f = http_findings(ip("10.0.0.5"), 8080, &resp);
    let ev: Vec<&str> = f.iter().map(|x| x.evidence.as_str()).collect();
    assert_eq!(ev, vec!["server: apache", "x-powered-by: PHP/8.2", "Title: Hi"]);
    assert_eq!(f[0].id, "http:header:server:10.0.0.5:8080");
    assert!(parse_response("SSH-2.0-x\r\n\r\n").is_none());
    assert_eq!(
        fetch_request(ip("10.0.0.5")),
        "GET / HTTP/1.0\r\nHost: 10.0.0.5\r\nUser-Agent: netenum/0.1.0\r\nAccept: */*\r\nConnection: close\r\n\r\n"
    );
}

#[test]
fn title_is_cut_by_byte_offsets() {
    assert_eq!(extract_title("<title>Caf\u{e9}</title>"), Some("Caf\u{e9}".to_string()));
    assert_eq!(extract_title("<title>unterminated"), None);
}

#[test]
fn smb_framing_and_negotiate_findings() {
    assert_eq!(nbss_frame(&vec![1, 2, 3]), vec![0, 0, 0, 3, 1, 2, 3]);
    assert_eq!(nbss_response_length([0, 0, 1, 0]), Some(256));
    assert_eq!(nbss_response_length([0, 0, 0, 0]), None);
    assert_eq!(nbss_response_length([0, 0x10, 0, 1]), None);
    let mut resp = vec![0u8; 70];
    resp[0..4].copy_from_slice(&[0xFE, b'S', b'M', b'B']);
    resp[66] = 0x01;
    resp[68] = 0x02;
    resp[69] = 0x03;
    let f = negotiate_findings(ip("10.0.0.5"), 445, &resp);
    assert_eq!(f.len(), 2);
    assert_eq!(f[0].evidence, "Negotiated SMB dialect: SMB 3.0.2");
    assert_eq!(f[1].severity, Severity::Medium);
    assert_eq!(f[1].evidence, "SMB message signing is not required (security mode: 0x0001)");
    resp[66] = 0x03;
    let g = negotiate_findings(ip("10.0.0.5"), 445, &resp);
    assert_eq!(g[1].evidence, "SMB message signing is required");
    assert!(negotiate_findings(ip("10.0.0.5"), 445, &vec![0xFE, b'S', b'M', b'B']).is_empty());
    assert_eq!(smb1_findings(ip("10.0.0.5"), 445, &vec![0xFF, b'S', b'M', b'B', 0]).len(), 1);
    assert!(smb1_findings(ip("10.0.0.5"), 445, &vec![0xFE, b'S', b'M', b'B']).is_empty());
}

#[test]
fn smb_null_session_findings() {
    let shares = Some(vec![Some("IPC$".to_string()), None, Some("public".to_string())]);
    let f = null_session_findings(ip("10.0.0.5"), 445, true, &shares);
    assert_eq!(f.len(), 2);
    assert_eq!(f[0].id, "smb:null_session:10.0.0.5:445");
    assert_eq!(f[1].evidence, "Shares enumerable via null session: IPC$, public");
    assert!(null_session_findings(ip("10.0.0.5"), 445, false, &shares).is_empty());
    assert_eq!(null_session_findings(ip("10.0.0.5"), 445, true, &Some(vec![None])).len(), 1);
}

#[test]
fn snmp_findings_follow_the_first_accepted_community() {
    let accepted = vec![
        ("public".to_string(), "Linux router".to_string()),
        ("private".to_string(), "Linux router".to_string()),
    ];
    let f = snmp_findings(
        ip("10.0.0.1"),
        161,
        &accepted,
        &Some("gw".to_string()),
        &vec!["eth0".to_string(), "eth1".to_string()],
    );
    let ids: Vec<&str> = f.iter().map(|x| x.id.as_str()).collect();
    assert_eq!(
        ids,
        vec![
            "snmp:community:public:10.0.0.1:161",
            "snmp:sysdescr:10.0.0.1:161",
            "snmp:sysname:10.0.0.1:161",
            "snmp:interfaces:10.0.0.1:161",
            "snmp:community:private:10.0.0.1:161",
        ]
    );
    let mut unique = ids.clone();
    unique.sort();
    unique.dedup();
    assert_eq!(unique.len(), ids.len());
    assert_eq!(f[0].evidence, "SNMP accepted community string 'public'");
    assert_eq!(f[3].evidence, "Interfaces: eth0, eth1");
    assert_eq!(f[4].evidence, "SNMP accepted community string 'private'");
    assert!(snmp_findings(ip("10.0.0.1"), 161, &vec![], &None, &vec![]).is_empty());
}

#[test]
fn snmp_values_and_walk_steps() {
    assert_eq!(format_value(&SnmpValue::Integer(-42)), Some("-42".to_string()));
    assert_eq!(format_value(&SnmpValue::Other("Counter32(7)".to_string())), Some("Counter32(7)".to_string()));
    let base = vec![0x2b, 6, 1];
    match walk_step(&base, &vec![0x2b, 6, 1, 5], &SnmpValue::OctetString(b"eth0".to_vec())) {
        WalkStep::Continue(Some(n)) => assert_eq!(n, "eth0"),
        other => panic!("unexpected {:?}", other),
    }
    assert!(matches!(walk_step(&base, &vec![0x2b, 6, 2], &SnmpValue::Integer(1)), WalkStep::Stop));
    assert!(matches!(walk_step(&base, &vec![0x2b, 6, 1, 9], &SnmpValue::EndOfMibView), WalkStep::Stop));
}

#[test]
fn udp_responses_are_validated_structurally() {
    assert_eq!(probe_order(), vec![UdpService::Dns, UdpService::Ntp, UdpService::Snmp]);
    assert_eq!(service_request(UdpService::Ntp).len(), 48);
    assert_eq!(identify_response(UdpService::Dns, &vec![0x12, 0x34, 0x81]), Some(("dns", 90)));
    assert_eq!(identify_response(UdpService::Dns, &vec![0x12, 0x35, 0x81]), None);
    assert_eq!(identify_response(UdpService::Dns, &vec![0x12, 0x34, 0x01]), None);
    let mut ntp = vec![0u8; 48];
    ntp[0] = 0x1C;
    assert_eq!(identify_response(UdpService::Ntp, &ntp), Some(("ntp", 85)));
    ntp[0] = 0x1B;
    assert_eq!(identify_response(UdpService::Ntp, &ntp), None);
    let mut snmp = vec![0x30, 0x29, 0x02, 0x01, 0x00, 0x04, 0x06];
    snmp.extend_from_slice(b"public");
    snmp.push(0xA2);
    assert_eq!(identify_response(UdpService::Snmp, &snmp), Some(("snmp", 80)));
    assert_eq!(identify_response(UdpService::Snmp, &snmp[1..].to_vec()), None);
}

#[test]
fn scanner_probes_and_statuses() {
    assert_eq!(probe_payload(53).len(), 17);
    assert_eq!(probe_payload(53)[0..2], [0x12, 0x34]);
    assert_eq!(probe_payload(123)[0], 0x1B);
    assert_eq!(probe_payload(161).len(), 40);
    assert!(probe_payload(9999).is_empty());
    assert_eq!(connect_status(ConnectOutcome::Connected), PortStatus::Open);
    assert_eq!(connect_status(ConnectOutcome::Refused), PortStatus::Closed);
    assert_eq!(connect_status(ConnectOutcome::TimedOut), PortStatus::Filtered);
    assert_eq!(udp_status(UdpOutcome::TimedOut), PortStatus::OpenFiltered);
    assert_eq!(udp_status(UdpOutcome::ReceiveRefused), PortStatus::Closed);
    assert_eq!(udp_status(UdpOutcome::Received), PortStatus::Open);
    assert_eq!(udp_status(UdpOutcome::SetupFailed), PortStatus::Filtered);
    assert_eq!(syn_reply_status(0x12), Some(PortStatus::Open));
    assert_eq!(syn_reply_status(0x14), Some(PortStatus::Closed));
    assert_eq!(syn_reply_status(0x10), None);
    assert_eq!(choose_scanner(false, true, false), (ScannerKind::Connect, true));
    assert_eq!(choose_scanner(true, true, true), (ScannerKind::Udp, false));
    assert_eq!(UdpScanner::new().protocol(), TransportProtocol::Udp);
    assert!(SynScanner::new().requires_raw_socket());
    assert_eq!(ConnectScanner.name(), "connect");
}

#[test]
fn tcp_segments_are_laid_out_big_endian() {
    let syn = syn_segment(40000, 80);
    assert_eq!(syn.len(), 20);
    assert_eq!(&syn[0..4], &[0x9c, 0x40, 0x00, 0x50]);
    assert_eq!(&syn[4..8], &123456789u32.to_be_bytes());
    assert_eq!(syn[12], 0x50);
    assert_eq!(syn[13], 0x02);
    assert_eq!(&syn[14..16], &64240u16.to_be_bytes());
    let rst = rst_segment(40000, 80, 0xffff_ffff, 7);
    assert_eq!(&rst[4..8], &7u32.to_be_bytes());
    assert_eq!(&rst[8..12], &[0, 0, 0, 0]);
    assert_eq!(rst[13], 0x04);
}

/// A self-signed certificate for `test.local` (SAN: test.local,
/// www.test.local and an IP address), valid until Oct 25 03:40:42 2126.
const LONG_LIVED_CERT: &[u8] = &[
    0x30, 0x82, 0x01, 0xaf, 0x30, 0x82, 0x01, 0x55, 0xa0, 0x03, 0x02, 0x01, 0x02, 0x02, 0x14, 0x73,
    0x0e, 0x78, 0x83, 0x4d, 0xd2, 0x45, 0xf7, 0xd0, 0x4a, 0x26, 0x07, 0x06, 0x7f, 0x9a, 0xfd, 0x1a,
    0xd8, 0x48, 0x0c, 0x30, 0x0a, 0x06, 0x08, 0x2a, 0x86, 0x48, 0xce, 0x3d, 0x04, 0x03, 0x02, 0x30,
    0x15, 0x31, 0x13, 0x30, 0x11, 0x06, 0x03, 0x55, 0x04, 0x03, 0x0c, 0x0a, 0x74, 0x65, 0x73, 0x74,
    0x2e, 0x6c, 0x6f, 0x63, 0x61, 0x6c, 0x30, 0x20, 0x17, 0x0d, 0x32, 0x36, 0x31, 0x31, 0x31, 0x38,
    0x30, 0x33, 0x34, 0x30, 0x34, 0x32, 0x5a, 0x18, 0x0f, 0x32, 0x31, 0x32, 0x36, 0x31, 0x30, 0x32,
    0x35, 0x30, 0x33, 0x34, 0x30, 0x34, 0x32, 0x5a, 0x30, 0x15, 0x31, 0x13, 0x30, 0x11, 0x06, 0x03,
    0x55, 0x04, 0x03, 0x0c, 0x0a, 0x74, 0x65, 0x73, 0x74, 0x2e, 0x6c, 0x6f, 0x63, 0x61, 0x6c, 0x30,
    0x59, 0x30, 0x13, 0x06, 0x07, 0x2a, 0x86, 0x48, 0xce, 0x3d, 0x02, 0x01, 0x06, 0x08, 0x2a, 0x86,
    0x48, 0xce, 0x3d, 0x03, 0x01, 0x07, 0x03, 0x42, 0x00, 0x04, 0xb3, 0x2f, 0xe5, 0xeb, 0x41, 0xc8,
    0x8a, 0x5f, 0x73, 0x23, 0x82, 0xdb, 0x6b, 0x9b, 0x4e, 0x0c, 0xea, 0xc4, 0x42, 0x51, 0xae, 0xdb,
    0x44, 0x4c, 0x54, 0x04, 0x1d, 0x45, 0x2d, 0xf7, 0xee, 0x97, 0x58, 0x94, 0x4e, 0x26, 0x73, 0x05,
    0xe8, 0x02, 0x7f, 0x69, 0xb0, 0x35, 0x15, 0x96, 0x73, 0xd5, 0x13, 0xb0, 0x3e, 0xaf, 0xef, 0xf3,
    0x94, 0x09, 0xeb, 0x9a, 0x5d, 0x4e, 0x30, 0x50, 0x54, 0x09, 0xa3, 0x81, 0x80, 0x30, 0x7e, 0x30,
    0x1d, 0x06, 0x03, 0x55, 0x1d, 0x0e, 0x04, 0x16, 0x04, 0x14, 0x27, 0xcc, 0x8a, 0x53, 0xb0, 0x62,
    0x38, 0x5a, 0x83, 0xa4, 0xab, 0x58, 0xa3, 0x01, 0xcd, 0x8f, 0x79, 0xe6, 0x63, 0x96, 0x30, 0x1f,
    0x06, 0x03, 0x55, 0x1d, 0x23, 0x04, 0x18, 0x30, 0x16, 0x80, 0x14, 0x27, 0xcc, 0x8a, 0x53, 0xb0,
    0x62, 0x38, 0x5a, 0x83, 0xa4, 0xab, 0x58, 0xa3, 0x01, 0xcd, 0x8f, 0x79, 0xe6, 0x63, 0x96, 0x30,
    0x0f, 0x06, 0x03, 0x55, 0x1d, 0x13, 0x01, 0x01, 0xff, 0x04, 0x05, 0x30, 0x03, 0x01, 0x01, 0xff,
    0x30, 0x2b, 0x06, 0x03, 0x55, 0x1d, 0x11, 0x04, 0x24, 0x30, 0x22, 0x82, 0x0a, 0x74, 0x65, 0x73,
    0x74, 0x2e, 0x6c, 0x6f, 0x63, 0x61, 0x6c, 0x82, 0x0e, 0x77, 0x77, 0x77, 0x2e, 0x74, 0x65, 0x73,
    0x74, 0x2e, 0x6c, 0x6f, 0x63, 0x61, 0x6c, 0x87, 0x04, 0x0a, 0x00, 0x00, 0x05, 0x30, 0x0a, 0x06,
    0x08, 0x2a, 0x86, 0x48, 0xce, 0x3d, 0x04, 0x03, 0x02, 0x03, 0x48, 0x00, 0x30, 0x45, 0x02, 0x20,
    0x0f, 0x0a, 0x61, 0x3e, 0x80, 0x66, 0xd2, 0x3b, 0xd1, 0xc1, 0xf9, 0xc9, 0x3f, 0x00, 0x8d, 0x93,
    0xb3, 0x05, 0xaf, 0x45, 0x0a, 0xa1, 0x6b, 0x13, 0xae, 0x31, 0x8c, 0xa8, 0x63, 0x9d, 0x40, 0x0a,
    0x02, 0x21, 0x00, 0xec, 0x34, 0xee, 0xa3, 0xa0, 0xfd, 0xf5, 0xc3, 0x82, 0x94, 0x6e, 0x0c, 0x83,
    0xf8, 0x7f, 0xba, 0xd0, 0x8b, 0x14, 0x27, 0x8e, 0x8a, 0x3e, 0x25, 0x53, 0x4b, 0x77, 0x8d, 0x01,
    0xdb, 0x4a, 0xb7,
];

/// A self-signed certificate for `O=Lab, CN=old.local` with no SAN, valid for
/// one day in January 2020.
const EXPIRED_CERT: &[u8] = &[
    0x30, 0x82, 0x01, 0x9a, 0x30, 0x82, 0x01, 0x3f, 0xa0, 0x03, 0x02, 0x01, 0x02, 0x02, 0x14, 0x3a,
    0x9a, 0x61, 0x76, 0xd5, 0x30, 0x1a, 0xbd, 0x7e, 0x53, 0x58, 0xbf, 0x3e, 0x17, 0x1d, 0xc5, 0x03,
    0xad, 0x67, 0x96, 0x30, 0x0a, 0x06, 0x08, 0x2a, 0x86, 0x48, 0xce, 0x3d, 0x04, 0x03, 0x02, 0x30,
    0x22, 0x31, 0x0c, 0x30, 0x0a, 0x06, 0x03, 0x55, 0x04, 0x0a, 0x0c, 0x03, 0x4c, 0x61, 0x62, 0x31,
    0x12, 0x30, 0x10, 0x06, 0x03, 0x55, 0x04, 0x03, 0x0c, 0x09, 0x6f, 0x6c, 0x64, 0x2e, 0x6c, 0x6f,
    0x63, 0x61, 0x6c, 0x30, 0x1e, 0x17, 0x0d, 0x32, 0x30, 0x30, 0x31, 0x30, 0x31, 0x30, 0x30, 0x30,
    0x30, 0x30, 0x30, 0x5a, 0x17, 0x0d, 0x32, 0x30, 0x30, 0x31, 0x30, 0x32, 0x30, 0x30, 0x30, 0x30,
    0x30, 0x30, 0x5a, 0x30, 0x22, 0x31, 0x0c, 0x30, 0x0a, 0x06, 0x03, 0x55, 0x04, 0x0a, 0x0c, 0x03,
    0x4c, 0x61, 0x62, 0x31, 0x12, 0x30, 0x10, 0x06, 0x03, 0x55, 0x04, 0x03, 0x0c, 0x09, 0x6f, 0x6c,
    0x64, 0x2e, 0x6c, 0x6f, 0x63, 0x61, 0x6c, 0x30, 0x59, 0x30, 0x13, 0x06, 0x07, 0x2a, 0x86, 0x48,
    0xce, 0x3d, 0x02, 0x01, 0x06, 0x08, 0x2a, 0x86, 0x48, 0xce, 0x3d, 0x03, 0x01, 0x07, 0x03, 0x42,
    0x00, 0x04, 0xb3, 0x2f, 0xe5, 0xeb, 0x41, 0xc8, 0x8a, 0x5f, 0x73, 0x23, 0x82, 0xdb, 0x6b, 0x9b,
    0x4e, 0x0c, 0xea, 0xc4, 0x42, 0x51, 0xae, 0xdb, 0x44, 0x4c, 0x54, 0x04, 0x1d, 0x45, 0x2d, 0xf7,
    0xee, 0x97, 0x58, 0x94, 0x4e, 0x26, 0x73, 0x05, 0xe8, 0x02, 0x7f, 0x69, 0xb0, 0x35, 0x15, 0x96,
    0x73, 0xd5, 0x13, 0xb0, 0x3e, 0xaf, 0xef, 0xf3, 0x94, 0x09, 0xeb, 0x9a, 0x5d, 0x4e, 0x30, 0x50,
    0x54, 0x09, 0xa3, 0x53, 0x30, 0x51, 0x30, 0x1d, 0x06, 0x03, 0x55, 0x1d, 0x0e, 0x04, 0x16, 0x04,
    0x14, 0x27, 0xcc, 0x8a, 0x53, 0xb0, 0x62, 0x38, 0x5a, 0x83, 0xa4, 0xab, 0x58, 0xa3, 0x01, 0xcd,
    0x8f, 0x79, 0xe6, 0x63, 0x96, 0x30, 0x1f, 0x06, 0x03, 0x55, 0x1d, 0x23, 0x04, 0x18, 0x30, 0x16,
    0x80, 0x14, 0x27, 0xcc, 0x8a, 0x53, 0xb0, 0x62, 0x38, 0x5a, 0x83, 0xa4, 0xab, 0x58, 0xa3, 0x01,
    0xcd, 0x8f, 0x79, 0xe6, 0x63, 0x96, 0x30, 0x0f, 0x06, 0x03, 0x55, 0x1d, 0x13, 0x01, 0x01, 0xff,
    0x04, 0x05, 0x30, 0x03, 0x01, 0x01, 0xff, 0x30, 0x0a, 0x06, 0x08, 0x2a, 0x86, 0x48, 0xce, 0x3d,
    0x04, 0x03, 0x02, 0x03, 0x49, 0x00, 0x30, 0x46, 0x02, 0x21, 0x00, 0x9c, 0x24, 0x67, 0x6b, 0x3c,
    0x21, 0x7c, 0x75, 0x96, 0x65, 0x92, 0x51, 0x4f, 0xc5, 0x9c, 0x49, 0x43, 0x6b, 0x0d, 0x8b, 0x34,
    0x96, 0xb8, 0x78, 0x06, 0xf0, 0xa4, 0x87, 0x46, 0x4c, 0x83, 0x97, 0x02, 0x21, 0x00, 0xb9, 0x2f,
    0x40, 0x22, 0x6f, 0x8b, 0x8a, 0xaa, 0x4d, 0xcb, 0xc3, 0x32, 0xd5, 0x3a, 0xcc, 0x25, 0x33, 0xf0,
    0x74, 0xef, 0x3c, 0x71, 0xe1, 0x27, 0xd8, 0xb2, 0x87, 0x49, 0xc1, 0x0b, 0x3a, 0xf2,
];

#[test]
fn tls_real_certificate_is_read() {
    let f = inspect_cert(ip("10.0.0.5"), 443, LONG_LIVED_CERT);
    let ids: Vec<&str> = f.iter().map(|x| x.id.as_str()).collect();
    assert_eq!(ids, vec!["tls:issuer:10.0.0.5:443", "tls:subject:10.0.0.5:443", "tls:san:10.0.0.5:443", "tls:validity:10.0.0.5:443"]);
    assert_eq!(f[0].evidence, "Issuer: CN=test.local");
    assert_eq!(f[1].evidence, "Subject: CN=test.local");
    assert_eq!(f[2].evidence, "SAN: test.local, www.test.local");
    assert_eq!(f[3].evidence, "Certificate valid until Oct 25 03:40:42 2126 +00:00");
}

#[test]
fn tls_expired_certificate_is_flagged() {
    let f = inspect_cert(ip("10.0.0.5"), 8443, EXPIRED_CERT);
    let ids: Vec<&str> = f.iter().map(|x| x.id.as_str()).collect();
    assert_eq!(ids, vec!["tls:issuer:10.0.0.5:8443", "tls:subject:10.0.0.5:8443", "tls:expired:10.0.0.5:8443"]);
    assert_eq!(f[0].evidence, "Issuer: O=Lab, CN=old.local");
    assert_eq!(f[2].evidence, "Certificate expired on Jan  2 00:00:00 2020 +00:00");
    assert_eq!(f[2].severity, Severity::High);
}

#[test]
fn finished_segments_carry_the_tcp_checksum() {
    let v4 = finish_segment(syn_segment(40000, 80), ip("10.0.0.1"), ip("10.0.0.5")).unwrap();
    assert_eq!(&v4[16..18], &[0x2f, 0xeb]);
    assert_eq!(&v4[0..16], &syn_segment(40000, 80)[0..16]);
    let v6 = finish_segment(syn_segment(40000, 80), ip("fe80::1"), ip("fe80::2")).unwrap();
    assert_eq!(&v6[16..18], &[0x46, 0xec]);
    assert!(finish_segment(syn_segment(40000, 80), ip("10.0.0.1"), ip("fe80::2")).is_none());
}
