use netenum::banner::{apply_banner, banner_from_bytes, clean_banner, identify_banner};
use netenum::cli::parse_ports;
use netenum::config::{select_profile, ConfigFile, DiscoveryProfile, Profile, ProfileError, ScanConfig};
use netenum::discovery::arp::{arp_request_frame, group_arp_targets, parse_arp_reply, take_reply, InterfaceInfo};
use netenum::discovery::{discovered_hosts, ping_args, remaining_after_arp, first_alive_step, after_ping, AliveStep};
use netenum::engine::build_summary;
use netenum::ip::{ip_to_string, parse_ip, IpAddress};
use netenum::model::{
    HostResult, HostStatus, PortResult, PortStatus, ScanResultSummary, ServiceSource, Severity,
    TransportProtocol,
};
use netenum::scope::{Network, ScopePolicy};
use netenum::targets::{classify_target, dedup_ips, lookup_key, lookup_outcome, TargetForm};
use netenum::text::{split_lines, utf8_lossy};

fn ip(text: &str) -> IpAddress {
    parse_ip(text).unwrap()
}

fn strings(v: &[&str]) -> Vec<String> {
    v.iter().map(|s| s.to_string()).collect()
}

#[test]
fn parse_ports_sorts_and_expands_ranges() {
    assert_eq!(parse_ports("22,80,443,1000-1002"), Ok(vec![22, 80, 443, 1000, 1001, 1002]));
    assert_eq!(parse_ports("80, 22 ,80"), Ok(vec![22, 80]));
}

#[test]
fn parse_ports_reports_each_kind_of_error() {
    assert_eq!(parse_ports("90-80"), Err("Start port 90 is greater than end port 80".to_string()));
    assert_eq!(parse_ports("1-2-3"), Err("Invalid port range format: 1-2-3".to_string()));
    assert_eq!(parse_ports("abc"), Err("Invalid port number: abc".to_string()));
    assert_eq!(parse_ports("a-5"), Err("Invalid start port: a".to_string()));
    assert_eq!(parse_ports("5-70000"), Err("Invalid end port: 70000".to_string()));
    assert_eq!(parse_ports("80,"), Err("Invalid port number: ".to_string()));
}

#[test]
fn scan_config_merge_prefers_profile_values() {
    let profile = Profile {
        concurrency: Some(50),
        timeout_ms: None,
        discovery: Some(DiscoveryProfile { ping: false, tcp_ports: vec![8080] }),
    };
    let c = ScanConfig::merge(1000, 1500, Some(&profile));
    assert_eq!(c.concurrency, 50);
    assert_eq!(c.timeout_ms, 1500);
    assert!(!c.ping_discovery);
    assert_eq!(c.tcp_ping_ports, vec![8080]);
    let d = ScanConfig::merge(1000, 1500, None);
    assert!(d.ping_discovery);
    assert_eq!(d.tcp_ping_ports, vec![22, 80, 443, 445]);
}

#[test]
fn profile_selection_rules() {
    let p = Profile { concurrency: None, timeout_ms: None, discovery: None };
    let cfg = ConfigFile { profiles: vec![("fast".to_string(), p.clone()), ("default".to_string(), p.clone())] };
    assert_eq!(select_profile(Some(&cfg), None), Ok((Some(1), false)));
    assert_eq!(select_profile(Some(&cfg), Some("fast")), Ok((Some(0), false)));
    assert_eq!(select_profile(Some(&cfg), Some("slow")), Err(ProfileError::NotFound("slow".to_string())));
    assert_eq!(select_profile(None, Some("fast")), Err(ProfileError::NameWithoutFile));
    let only = ConfigFile { profiles: vec![("fast".to_string(), p)] };
    assert_eq!(select_profile(Some(&only), None), Ok((Some(0), true)));
    assert_eq!(
        ProfileError::NotFound("slow".to_string()).message(),
        "Error: Profile 'slow' not found in profiles file."
    );
}

#[test]
fn ip_text_round_trips() {
    for t in ["10.0.0.5", "::1", "fe80::1:2", "2001:db8::", "::ffff:10.0.0.1", "255.255.255.255"] {
        assert_eq!(ip_to_string(ip(t)), t);
    }
    assert_eq!(ip_to_string(ip("2001:0db8:0000:0000:0000:0000:0000:0001")), "2001:db8::1");
    assert!(parse_ip("10.0.0.256").is_none());
    assert!(parse_ip("1.2.3").is_none());
    assert!(parse_ip("example.com").is_none());
}

#[test]
fn scope_denylist_wins_over_allowlist() {
    let policy = ScopePolicy::build(&strings(&["10.0.0.0/24"]), &strings(&["10.0.0.5"])).unwrap();
    assert!(policy.is_allowed(ip("10.0.0.7")));
    assert!(!policy.is_allowed(ip("10.0.0.5")));
    assert!(!policy.is_allowed(ip("10.0.1.1")));
}

#[test]
fn scope_empty_allowlist_allows_everything_not_denied() {
    let policy = ScopePolicy::build(&Vec::new(), &strings(&["192.168.0.0/16"])).unwrap();
    assert!(policy.is_allowed(ip("8.8.8.8")));
    assert!(!policy.is_allowed(ip("192.168.3.4")));
    assert!(ScopePolicy::new().is_allowed(ip("::1")));
}

#[test]
fn scope_entries_skip_blanks_and_comments() {
    let policy = ScopePolicy::build(&strings(&["  # lab hosts", "", " 192.168.1.1 "]), &Vec::new()).unwrap();
    assert!(policy.is_allowed(ip("192.168.1.1")));
    assert!(!policy.is_allowed(ip("192.168.1.2")));
}

#[test]
fn scope_rejects_garbage_entries() {
    let err = ScopePolicy::build(&strings(&["10.0.0.0/8", "nonsense"]), &Vec::new()).unwrap_err();
    assert_eq!(err, "Invalid scope entry 'nonsense': expected an IP address or CIDR network");
    let err = ScopePolicy::build(&Vec::new(), &strings(&["10.0.0.0/33"])).unwrap_err();
    assert_eq!(err, "Invalid scope entry '10.0.0.0/33': expected an IP address or CIDR network");
}

#[test]
fn scope_partition_keeps_order() {
    let policy = ScopePolicy::build(&strings(&["10.0.0.0/24"]), &Vec::new()).unwrap();
    let (inside, outside) = policy.partition(vec![ip("10.0.0.9"), ip("10.0.1.1"), ip("10.0.0.1")]);
    assert_eq!(inside, vec![ip("10.0.0.9"), ip("10.0.0.1")]);
    assert_eq!(outside, vec![ip("10.0.1.1")]);
}

#[test]
fn network_hosts_follow_ipnet_rules() {
    let n30 = Network { addr: ip("10.0.0.0"), prefix_len: 30 };
    assert_eq!(n30.hosts(), vec![ip("10.0.0.1"), ip("10.0.0.2")]);
    let n31 = Network { addr: ip("10.0.0.0"), prefix_len: 31 };
    assert_eq!(n31.hosts(), vec![ip("10.0.0.0"), ip("10.0.0.1")]);
    let n32 = Network { addr: ip("10.0.0.7"), prefix_len: 32 };
    assert_eq!(n32.hosts(), vec![ip("10.0.0.7")]);
    let v6 = Network { addr: ip("fd00::"), prefix_len: 126 };
    assert_eq!(v6.hosts(), vec![ip("fd00::"), ip("fd00::1"), ip("fd00::2"), ip("fd00::3")]);
    for h in n30.hosts() {
        assert!(n30.contains(h));
    }
    assert!(!n30.contains(ip("10.0.0.4")));
    assert!(!n30.contains(ip("::1")));
}

#[test]
fn classify_target_forms() {
    match classify_target("  10.0.0.0/30 ") {
        TargetForm::Addresses(v) => assert_eq!(v, vec![ip("10.0.0.1"), ip("10.0.0.2")]),
        other => panic!("unexpected {:?}", other),
    }
    match classify_target("10.1.2.3") {
        TargetForm::Addresses(v) => assert_eq!(v, vec![ip("10.1.2.3")]),
        other => panic!("unexpected {:?}", other),
    }
    assert!(matches!(classify_target("   "), TargetForm::Blank));
    match classify_target(" example.com ") {
        TargetForm::Hostname(h) => assert_eq!(h, "example.com"),
        other => panic!("unexpected {:?}", other),
    }
}

#[test]
fn hostname_lookup_keys_and_outcomes() {
    assert_eq!(lookup_key("example.com"), "example.com:80");
    assert_eq!(lookup_key("host:8080"), "host:8080");
    assert_eq!(lookup_outcome("x", Ok(vec![])), Err("Could not resolve hostname: x".to_string()));
    assert_eq!(
        lookup_outcome("x", Err("boom".to_string())),
        Err("Failed to resolve target 'x': boom".to_string())
    );
    assert_eq!(lookup_outcome("x", Ok(vec![ip("10.0.0.1")])), Ok(vec![ip("10.0.0.1")]));
}

#[test]
fn dedup_collapses_only_consecutive_repeats() {
    let a = ip("10.0.0.1");
    let b = ip("10.0.0.2");
    assert_eq!(dedup_ips(&vec![a, a, b, a]), vec![a, b, a]);
}

#[test]
fn summary_groups_sorts_and_marks_hosts() {
    let hosts = vec![ip("10.0.0.2"), ip("10.0.0.1"), ip("10.0.0.2")];
    let probes = vec![
        (ip("10.0.0.1"), 80, PortStatus::Closed),
        (ip("10.0.0.2"), 443, PortStatus::Filtered),
        (ip("10.0.0.1"), 22, PortStatus::Open),
        (ip("10.0.0.9"), 22, PortStatus::Open),
    ];
    let s = build_summary(&hosts, &probes, TransportProtocol::Tcp, 5);
    assert_eq!(s.targets_scanned, 3);
    assert_eq!(s.hosts_up, 1);
    assert_eq!(s.duration_ms, 5);
    assert!(s.findings.is_empty());
    assert_eq!(s.hosts.len(), 2);
    assert_eq!(s.hosts[0].ip, ip("10.0.0.1"));
    assert_eq!(s.hosts[0].status, HostStatus::Up);
    let ports: Vec<(u16, PortStatus)> = s.hosts[0].ports.iter().map(|p| (p.port, p.status)).collect();
    assert_eq!(ports, vec![(22, PortStatus::Open), (80, PortStatus::Closed)]);
    assert_eq!(s.hosts[1].ip, ip("10.0.0.2"));
    assert_eq!(s.hosts[1].status, HostStatus::Down);
    assert_eq!(s.hosts[1].ports.len(), 1);
    assert_eq!(s.hosts[1].ports[0].protocol, TransportProtocol::Tcp);
}

#[test]
fn banner_signatures_identify_services() {
    assert_eq!(identify_banner("SSH-2.0-OpenSSH_9.6"), Some(("ssh", 90)));
    assert_eq!(identify_banner("HTTP/1.1 200 OK"), Some(("http", 85)));
    assert_eq!(identify_banner("RFB 003.008"), Some(("vnc", 90)));
    assert_eq!(identify_banner("+OK POP3 ready"), Some(("pop3", 80)));
    assert_eq!(identify_banner("* PREAUTH IMAP4rev1"), Some(("imap", 80)));
    assert_eq!(identify_banner("220 ProFTPD Server"), Some(("ftp", 80)));
    assert_eq!(identify_banner("220 mail ESMTP Postfix"), Some(("smtp", 80)));
    assert_eq!(identify_banner("220 welcome"), None);
}

#[test]
fn banners_are_reduced_to_one_safe_line() {
    assert_eq!(clean_banner("\r\n  hello\u{1b}[31m world \r\nsecond"), "hello [31m world");
    assert_eq!(clean_banner(" \r\n \t"), "");
    let long = "a".repeat(150);
    let cleaned = clean_banner(&long);
    assert_eq!(cleaned.chars().count(), 100);
    assert!(cleaned.ends_with("..."));
    assert_eq!(banner_from_bytes(b"SSH-2.0-x\r\n"), "SSH-2.0-x");
}

#[test]
fn applying_a_banner_identifies_only_unlabelled_ports() {
    let mut p = PortResult {
        port: 2222,
        status: PortStatus::Open,
        protocol: TransportProtocol::Tcp,
        service: None,
        banner: None,
        confidence: None,
        confidence_source: None,
        cpe: Vec::new(),
    };
    apply_banner(&mut p, "SSH-2.0-OpenSSH".to_string());
    assert_eq!(p.service.as_deref(), Some("ssh"));
    assert_eq!(p.confidence, Some(90));
    assert_eq!(p.confidence_source, Some(ServiceSource::NativeBanner));
    assert_eq!(p.banner.as_deref(), Some("SSH-2.0-OpenSSH"));
    let mut q = p.clone();
    q.service = Some("custom".to_string());
    q.confidence = None;
    apply_banner(&mut q, "HTTP/1.0 200 OK".to_string());
    assert_eq!(q.service.as_deref(), Some("custom"));
    assert_eq!(q.confidence, None);
}

#[test]
fn arp_request_is_not_a_reply_but_a_reply_is_read() {
    let frame = arp_request_frame([2, 0, 0, 0, 0, 1], 0x0a00_0001, 0x0a00_0002);
    assert_eq!(frame.len(), 42);
    assert_eq!(&frame[0..6], &[0xff; 6]);
    assert_eq!(&frame[12..14], &[0x08, 0x06]);
    assert_eq!(&frame[38..42], &[10, 0, 0, 2]);
    assert_eq!(parse_arp_reply(&frame), None);
    let mut reply = frame.clone();
    reply[21] = 2;
    reply[28..32].copy_from_slice(&[10, 0, 0, 9]);
    assert_eq!(parse_arp_reply(&reply), Some(0x0a00_0009));
    let mut pending = vec![0x0a00_0009, 0x0a00_0003];
    let mut found = Vec::new();
    take_reply(&mut pending, &mut found, &reply);
    assert_eq!(pending, vec![0x0a00_0003]);
    assert_eq!(found, vec![0x0a00_0009]);
    take_reply(&mut pending, &mut found, &reply);
    assert_eq!(found, vec![0x0a00_0009]);
}

#[test]
fn arp_targets_group_by_interface() {
    let ifaces = vec![
        InterfaceInfo { name: "lo".to_string(), mac: Some([0; 6]), v4_nets: vec![(0x7f00_0001, 8)] },
        InterfaceInfo { name: "eth0".to_string(), mac: Some([2, 0, 0, 0, 0, 1]), v4_nets: vec![(0x0a00_0001, 24)] },
    ];
    let groups = group_arp_targets(&ifaces, &vec![0x0a00_0005, 0x7f00_0002, 0x0b00_0001, 0x0a00_0006]);
    assert_eq!(groups.len(), 1);
    assert_eq!(groups[0].iface, 1);
    assert_eq!(groups[0].src_ip, 0x0a00_0001);
    assert_eq!(groups[0].targets, vec![0x0a00_0005, 0x0a00_0006]);
}

#[test]
fn discovery_merges_and_sorts_live_hosts() {
    let live = discovered_hosts(&vec![0x0a00_0003], &vec![ip("::1"), ip("10.0.0.1")]);
    assert_eq!(live, vec![ip("10.0.0.1"), ip("10.0.0.3"), ip("::1")]);
    let rest = remaining_after_arp(&vec![ip("10.0.0.3"), ip("::1"), ip("10.0.0.4")], &vec![0x0a00_0003]);
    assert_eq!(rest, vec![ip("::1"), ip("10.0.0.4")]);
    assert_eq!(ping_args(ip("::1")), strings(&["-6", "-c", "1", "-W", "1", "::1"]));
    assert_eq!(ping_args(ip("10.0.0.1")), strings(&["-c", "1", "-W", "1", "10.0.0.1"]));
    let cfg = ScanConfig { concurrency: 1, timeout_ms: 1, ping_discovery: true, tcp_ping_ports: vec![] };
    assert_eq!(first_alive_step(&cfg), AliveStep::Ping);
    assert_eq!(after_ping(&cfg, false), AliveStep::Dead);
    assert_eq!(after_ping(&cfg, true), AliveStep::Alive);
}

#[test]
fn text_lines_match_str_lines() {
    for t in ["a\r\nb\n", "a\n\nb", "", "\n", "x\r", "one"] {
        let expected: Vec<String> = t.lines().map(|s| s.to_string()).collect();
        assert_eq!(split_lines(t), expected, "text {:?}", t);
    }
}

#[test]
fn summary_host_results_are_plain_values() {
    let h = HostResult { ip: ip("10.0.0.1"), status: HostStatus::Up, ports: vec![], os: None };
    let s = ScanResultSummary { targets_scanned: 1, hosts_up: 1, duration_ms: 0, hosts: vec![h], findings: vec![] };
    assert_eq!(s.hosts[0].status, HostStatus::Up);
    assert!(Severity::Low < Severity::Medium);
}

#[test]
fn invalid_utf8_is_replaced() {
    assert_eq!(utf8_lossy(&[0x61, 0xff, 0x62]), "a\u{FFFD}b");
    assert_eq!(utf8_lossy(b"plain"), "plain");
}

#[test]
fn written_addresses_parse_back() {
    let samples = [
        "0.0.0.0",
        "10.0.0.255",
        "255.255.255.255",
        "::",
        "::1",
        "fe80::1:2",
        "2001:db8::8:800:200c:417a",
        "1:0:0:1:0:0:0:1",
        "1:2:3:4:5:6:7:8",
        "::ffff:192.168.0.1",
        "0:0:0:0:0:ffff:a00:1",
    ];
    for text in samples {
        let ip = parse_ip(text).unwrap();
        assert_eq!(parse_ip(&ip_to_string(ip)), Some(ip), "{}", text);
    }
    assert_eq!(ip_to_string(parse_ip("1:0:0:1:0:0:0:1").unwrap()), "1:0:0:1::1");
    assert_eq!(ip_to_string(parse_ip("0:0:0:0:0:ffff:a00:1").unwrap()), "::ffff:10.0.0.1");
}

#[test]
fn port_lists_join_in_any_order() {
    let a = parse_ports("8080,22-24").unwrap();
    let b = parse_ports("23,443").unwrap();
    let st = parse_ports("8080,22-24,23,443").unwrap();
    let ts = parse_ports("23,443,8080,22-24").unwrap();
    assert_eq!(st, ts);
    assert_eq!(st, vec![22, 23, 24, 443, 8080]);
    for p in a.iter().chain(b.iter()) {
        assert!(st.contains(p));
    }
    assert!(parse_ports("80,x").is_err());
    assert!(parse_ports("x,80").is_err());
}

#[test]
fn cleaned_banners_clean_to_themselves() {
    for raw in ["\r\n  SSH-2.0-OpenSSH_9.6 \x1b[31m\r\nnext", "   ", "", &"x".repeat(300)] {
        let once = clean_banner(raw);
        assert_eq!(clean_banner(&once), once);
        assert_eq!(once.trim(), once);
    }
}

#[test]
fn short_clean_reply_is_the_banner_cleaning() {
    let raw = "220 (vsFTPd 3.0.3)\r\n";
    let r = netenum::enumeration::ftp::clean(raw);
    assert!(r.chars().count() <= 100);
    assert_eq!(r, clean_banner(raw));
    let long = "y".repeat(150);
    let r = netenum::enumeration::ftp::clean(&long);
    assert_eq!(r.chars().count(), 150);
    assert_eq!(clean_banner(&long).chars().count(), 100);
}

#[test]
fn title_is_cut_from_the_body_itself() {
    assert_eq!(netenum::enumeration::http::extract_title("İ<title>Hi</title>"), Some("Hi".to_string()));
    assert_eq!(netenum::enumeration::http::extract_title("<TITLE> Ünïcode </tItLe>"), Some("Ünïcode".to_string()));
}
