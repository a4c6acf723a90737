use netenum::enumeration::dns::{fqdn, record_finding};
use netenum::enumeration::ftp::{build_findings, looks_like_ftp, reply_code, FtpProbeResult};
use netenum::enumeration::http::{extract_title, make_finding};
use netenum::enumeration::smb::{
    build_smb1_negotiate_request, build_smb2_negotiate_request, dialect_to_string, looks_like_smb,
};
use netenum::enumeration::snmp::{format_value, looks_like_snmp, SnmpValue};
use netenum::enumeration::tls::looks_like_tls;
use netenum::ip::{parse_ip, IpAddress};
use netenum::model::{FindingProtocol, PortResult, PortStatus, Severity, TransportProtocol};
use netenum::targets::hostname_targets;

fn open_tcp_port(port: u16, service: Option<&str>) -> PortResult {
    PortResult {
        port,
        status: PortStatus::Open,
        protocol: TransportProtocol::Tcp,
        service: service.map(|s| s.to_string()),
        banner: None,
        confidence: None,
        confidence_source: None,
        cpe: Vec::new(),
    }
}

fn udp_port(port: u16, status: PortStatus, service: Option<&str>) -> PortResult {
    PortResult {
        port,
        status,
        protocol: TransportProtocol::Udp,
        service: service.map(|s| s.to_string()),
        banner: None,
        confidence: None,
        confidence_source: None,
        cpe: Vec::new(),
    }
}

fn host(text: &str) -> IpAddress {
    parse_ip(text).unwrap()
}

#[test]
fn fqdn_appends_trailing_dot_when_missing() {
    assert_eq!(fqdn("example.com"), "example.com.");
    assert_eq!(fqdn("example.com."), "example.com.");
}

#[test]
fn record_finding_ids_are_stable_for_same_input() {
    let h = host("10.0.0.5");
    let a = record_finding("ns", "example.com", h, "ns1.example.com");
    let b = record_finding("ns", "example.com", h, "ns1.example.com");
    assert_eq!(a.id, b.id);
    assert_eq!(a.id, "dns:ns:example.com:ns1.example.com");
    assert_eq!(a.protocol, FindingProtocol::Dns);
    assert_eq!(a.severity, Severity::Info);
}

#[test]
fn recognizes_port_21_regardless_of_service_label() {
    assert!(looks_like_ftp(&open_tcp_port(21, None)));
}

#[test]
fn recognizes_ftp_by_service_name_on_nonstandard_port() {
    assert!(looks_like_ftp(&open_tcp_port(2121, Some("ftp-data"))));
}

#[test]
fn does_not_flag_unrelated_service_as_ftp() {
    assert!(!looks_like_ftp(&open_tcp_port(80, Some("http"))));
}

#[test]
fn reply_code_parses_leading_three_digits() {
    assert_eq!(reply_code("230 Login successful.\r\n"), Some(230));
    assert_eq!(reply_code("331 Please specify the password.\r\n"), Some(331));
    assert_eq!(reply_code(""), None);
}

#[test]
fn anonymous_login_finding_has_high_severity_and_recommendation() {
    let h = host("10.0.0.5");
    let findings = build_findings(
        h,
        21,
        FtpProbeResult { banner: Some("220 (vsFTPd 3.0.5)".to_string()), anonymous_login: true },
    );
    let anon = findings
        .iter()
        .find(|f| f.id.starts_with("ftp:anonymous"))
        .expect("anonymous finding must be present");
    assert_eq!(anon.severity, Severity::High);
    assert!(!anon.recommendation.is_empty());
    assert!(findings.iter().any(|f| f.id.starts_with("ftp:banner")));
}

#[test]
fn no_anonymous_finding_when_login_denied() {
    let h = host("10.0.0.5");
    let findings = build_findings(
        h,
        21,
        FtpProbeResult { banner: Some("220 (vsFTPd 3.0.5)".to_string()), anonymous_login: false },
    );
    assert!(!findings.iter().any(|f| f.id.starts_with("ftp:anonymous")));
}

#[test]
fn extracts_simple_title() {
    let body = "<html><head><TiTlE>  Example Domain  </TiTlE></head><body></body></html>";
    assert_eq!(extract_title(body), Some("Example Domain".to_string()));
}

#[test]
fn returns_none_when_no_title_tag() {
    let body = "<html><body>No title here</body></html>";
    assert_eq!(extract_title(body), None);
}

#[test]
fn returns_none_for_empty_title() {
    let body = "<html><head><title>   </title></head></html>";
    assert_eq!(extract_title(body), None);
}

#[test]
fn finding_ids_are_scoped_per_header_name() {
    let h = host("10.0.0.5");
    let a = make_finding("header:server", h, 80, "Server: nginx".to_string());
    let b = make_finding("header:x-powered-by", h, 80, "X-Powered-By: PHP/8.2".to_string());
    assert_ne!(a.id, b.id);
    assert_eq!(a.protocol, FindingProtocol::Http);
    assert_eq!(a.severity, Severity::Info);
}

#[test]
fn recognizes_port_445_and_139_regardless_of_service_label() {
    assert!(looks_like_smb(&open_tcp_port(445, None)));
    assert!(looks_like_smb(&open_tcp_port(139, None)));
}

#[test]
fn recognizes_smb_by_service_name_on_nonstandard_port() {
    assert!(looks_like_smb(&open_tcp_port(4450, Some("microsoft-ds"))));
}

#[test]
fn does_not_flag_unrelated_service_as_smb() {
    assert!(!looks_like_smb(&open_tcp_port(80, Some("http"))));
}

#[test]
fn dialect_to_string_maps_known_values() {
    assert_eq!(dialect_to_string(0x0202), "SMB 2.0.2");
    assert_eq!(dialect_to_string(0x0311), "SMB 3.1.1");
    assert!(dialect_to_string(0x9999).contains("unknown"));
}

#[test]
fn smb2_negotiate_request_has_correct_header_signature_and_length() {
    let req = build_smb2_negotiate_request();
    assert_eq!(&req[0..4], &[0xFE, b'S', b'M', b'B']);
    assert_eq!(req.len(), 64 + 36 + 4 * 2);
}

#[test]
fn smb1_negotiate_request_has_correct_header_signature() {
    let req = build_smb1_negotiate_request();
    assert_eq!(&req[0..4], &[0xFF, b'S', b'M', b'B']);
    assert_eq!(req[4], 0x72);
}

#[test]
fn recognizes_port_161_regardless_of_service_label() {
    assert!(looks_like_snmp(&udp_port(161, PortStatus::Open, None)));
}

#[test]
fn recognizes_snmp_by_service_name_on_nonstandard_port() {
    assert!(looks_like_snmp(&udp_port(1161, PortStatus::Open, Some("snmp-trap"))));
}

#[test]
fn does_not_flag_unrelated_service_as_snmp() {
    assert!(!looks_like_snmp(&udp_port(53, PortStatus::Open, Some("dns"))));
}

#[test]
fn format_value_extracts_octet_string_trimmed() {
    let v = SnmpValue::OctetString(b"router.example.com\0".to_vec());
    assert_eq!(format_value(&v), Some("router.example.com".to_string()));
}

#[test]
fn format_value_returns_none_for_end_of_walk_markers() {
    assert_eq!(format_value(&SnmpValue::EndOfMibView), None);
    assert_eq!(format_value(&SnmpValue::NoSuchObject), None);
    assert_eq!(format_value(&SnmpValue::NoSuchInstance), None);
}

#[test]
fn recognizes_well_known_tls_ports_regardless_of_service_label() {
    assert!(looks_like_tls(&open_tcp_port(443, None)));
    assert!(looks_like_tls(&open_tcp_port(8443, Some("unknown"))));
}

#[test]
fn recognizes_tls_by_service_name_on_nonstandard_port() {
    assert!(looks_like_tls(&open_tcp_port(9443, Some("https-alt"))));
}

#[test]
fn does_not_flag_plain_http_as_tls() {
    assert!(!looks_like_tls(&open_tcp_port(80, Some("http"))));
}

#[test]
fn severity_orders_info_below_critical() {
    assert!(Severity::Critical > Severity::Info);
    assert!(Severity::High > Severity::Medium);
}

#[test]
fn hostname_targets_excludes_ips_and_cidrs() {
    let targets = vec![
        "example.com".to_string(),
        "192.168.1.1".to_string(),
        "10.0.0.0/24".to_string(),
        "sub.example.org".to_string(),
    ];
    assert_eq!(
        hostname_targets(&targets),
        vec!["example.com".to_string(), "sub.example.org".to_string()]
    );
}

#[test]
fn reply_code_needs_three_leading_digits() {
    assert_eq!(reply_code("+23 ok"), None);
    assert_eq!(reply_code("23"), None);
    assert_eq!(reply_code("2a0 x"), None);
    assert_eq!(reply_code(" 230 x"), None);
    assert_eq!(reply_code("999"), Some(999));
    assert_eq!(reply_code("0010"), Some(1));
}
