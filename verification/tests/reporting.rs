use netenum::capabilities::Capabilities;
use netenum::ip::{parse_ip, IpAddress};
use netenum::model::{
    make_port_finding, severity_index, FindingProtocol, HostResult, HostStatus, OsInfo, PortResult, PortStatus,
    ScanResultSummary, ServiceSource, Severity, TransportProtocol,
};
use netenum::nmap::command::{auto_select_scripts, select_scripts, NmapCommandBuilder};
use netenum::nmap::xml::{Address, Host, NmapRun, Os, OsMatch, Port, PortsContainer, Script, Service, State};
use netenum::nmap::{merge_nmap_run, sort_unique_ports, NmapEnricher};
use netenum::report::{format_finding, format_host, format_port_line};
use netenum::scripting::{add_plugin_finding, http_status_code, is_lua_script, plugin_request, plugin_timeout};

fn ip(text: &str) -> IpAddress {
    parse_ip(text).unwrap()
}

fn port(port: u16, status: PortStatus) -> PortResult {
    PortResult {
        port,
        status,
        protocol: TransportProtocol::Tcp,
        service: None,
        banner: None,
        confidence: None,
        confidence_source: None,
        cpe: Vec::new(),
    }
}

#[test]
fn port_lines_match_the_console_table() {
    let mut p = port(22, PortStatus::Open);
    p.service = Some("ssh".to_string());
    p.confidence = Some(90);
    p.confidence_source = Some(ServiceSource::NativeBanner);
    p.banner = Some("SSH-2.0".to_string());
    p.cpe = vec!["cpe:/a:openbsd:openssh:9.6".to_string()];
    let expected = format!(
        "{:<9} {:<5} {:<14} {:<12} {:<15} {}",
        22, "tcp", "open", "ssh", "90% (banner)", "SSH-2.0 | cpe:/a:openbsd:openssh:9.6"
    );
    assert_eq!(format_port_line(&p), Some(expected));
    let q = port(53, PortStatus::OpenFiltered);
    let expected_q = format!("{:<9} {:<5} {:<14} {:<12} {:<15}", 53, "tcp", "open|filtered", "unknown", "-");
    assert_eq!(format_port_line(&q), Some(expected_q));
    assert_eq!(format_port_line(&port(80, PortStatus::Closed)), None);
}

#[test]
fn host_report_lines() {
    let h = HostResult {
        ip: ip("10.0.0.1"),
        status: HostStatus::Up,
        ports: vec![port(80, PortStatus::Closed)],
        os: Some(OsInfo { name: "Linux 5.0".to_string(), accuracy: 95 }),
    };
    assert_eq!(
        format_host(&h),
        vec![
            "Results for 10.0.0.1:".to_string(),
            "OS: Linux 5.0 (95% accuracy)".to_string(),
            "(No open ports found)".to_string(),
            String::new(),
        ]
    );
    let down = HostResult { ip: ip("10.0.0.2"), status: HostStatus::Down, ports: vec![], os: None };
    assert!(format_host(&down).is_empty());
}

#[test]
fn finding_report_lines() {
    let f = make_port_finding(
        "ftp",
        FindingProtocol::Ftp,
        "anonymous",
        ip("10.0.0.5"),
        21,
        Severity::High,
        "evidence".to_string(),
        "fix it".to_string(),
    );
    assert_eq!(f.id, "ftp:anonymous:10.0.0.5:21");
    assert_eq!(
        format_finding(&f),
        vec!["[HIGH] ftp:anonymous:10.0.0.5:21 - evidence".to_string(), "    -> fix it".to_string()]
    );
}

#[test]
fn nmap_command_line_is_built_in_order() {
    let args = NmapCommandBuilder::new(vec![ip("10.0.0.1"), ip("::1")], vec![22, 80])
        .with_protocol(TransportProtocol::Udp)
        .with_os_detection(true)
        .with_script("a.nse".to_string())
        .with_script("a.nse".to_string())
        .build_args();
    let expected: Vec<String> = ["-oX", "-", "-sU", "-sV", "-O", "-p", "22,80", "--script", "a.nse", "10.0.0.1", "::1"]
        .iter()
        .map(|s| s.to_string())
        .collect();
    assert_eq!(args, expected);
}

#[test]
fn nmap_scripts_follow_open_ports() {
    assert_eq!(select_scripts(&[2379], "/x/etcd-info.nse", true), vec!["/x/etcd-info.nse".to_string()]);
    assert_eq!(select_scripts(&[2379], "/x/etcd-info.nse", false), vec!["etcd-info.nse".to_string()]);
    assert!(select_scripts(&[80], "/x/etcd-info.nse", true).is_empty());
    assert_eq!(
        auto_select_scripts(&[2379], "/nonexistent-netenum-dir"),
        vec!["etcd-info.nse".to_string()]
    );
    assert_eq!(sort_unique_ports(&vec![443, 22, 443, 80]), vec![22, 80, 443]);
}

#[test]
fn nmap_enricher_needs_nmap() {
    let e = NmapEnricher::new("./NSE".to_string());
    let caps = Capabilities { nmap_present: false, has_raw_socket: false };
    assert!(!e.available(&caps));
    let summary = ScanResultSummary { targets_scanned: 0, hosts_up: 0, duration_ms: 0, hosts: vec![], findings: vec![] };
    assert_eq!(e.enrichment_args(&summary, &caps), Err("Nmap is not present on the system PATH.".to_string()));
    let with_nmap = Capabilities { nmap_present: true, has_raw_socket: false };
    assert_eq!(e.enrichment_args(&summary, &with_nmap), Ok(None));
}

#[test]
fn nmap_results_merge_into_the_summary() {
    let mut summary = ScanResultSummary {
        targets_scanned: 1,
        hosts_up: 1,
        duration_ms: 0,
        hosts: vec![HostResult { ip: ip("10.0.0.1"), status: HostStatus::Up, ports: vec![port(22, PortStatus::Open)], os: None }],
        findings: vec![],
    };
    let run = NmapRun {
        hosts: vec![Host {
            addresses: vec![Address { addr: "10.0.0.1".to_string(), addr_type: "ipv4".to_string() }],
            ports_container: Some(PortsContainer {
                ports: vec![Port {
                    port_id: 22,
                    state: State { state: "open".to_string() },
                    service: Some(Service {
                        name: Some("ssh".to_string()),
                        product: Some("OpenSSH".to_string()),
                        version: Some("9.6".to_string()),
                        extra_info: Some("protocol 2.0".to_string()),
                        conf: Some(10),
                    }),
                    scripts: vec![Script { id: "ssh-hostkey".to_string(), output: Some(" key \n".to_string()) }],
                }],
            }),
            os: Some(Os {
                matches: vec![
                    OsMatch { name: "Linux 4.15 - 5.6".to_string(), accuracy: 98 },
                    OsMatch { name: "Linux 5.0".to_string(), accuracy: 90 },
                ],
            }),
        }],
    };
    merge_nmap_run(&mut summary, &run);
    let p = &summary.hosts[0].ports[0];
    assert_eq!(p.service.as_deref(), Some("ssh"));
    assert_eq!(p.confidence, Some(100));
    assert_eq!(p.confidence_source, Some(ServiceSource::NmapProbe));
    assert_eq!(p.banner.as_deref(), Some("OpenSSH 9.6 (protocol 2.0) | ssh-hostkey: key"));
    let os = summary.hosts[0].os.as_ref().unwrap();
    assert_eq!(os.name, "Linux 4.15 - 5.6");
    assert_eq!(os.accuracy, 98);
}

#[test]
fn plugin_helpers() {
    assert!(is_lua_script("http_title.lua"));
    assert!(!is_lua_script(".lua"));
    assert!(!is_lua_script("notes.txt"));
    assert!(!is_lua_script("script.lua.bak"));
    assert_eq!(plugin_timeout(None), 2000);
    assert_eq!(plugin_timeout(Some(5)), 5);
    assert_eq!(
        plugin_request("10.0.0.1", "/admin"),
        "GET /admin HTTP/1.0\r\nHost: 10.0.0.1\r\nUser-Agent: netenum/0.1.0\r\nConnection: close\r\n\r\n"
    );
    assert_eq!(http_status_code("HTTP/1.1 404 Not Found\r\n\r\n"), 404);
    assert_eq!(http_status_code("HTTP/1.1 abc\r\n"), 0);
    assert_eq!(http_status_code("SSH-2.0\r\n"), 0);
    let mut p = port(80, PortStatus::Open);
    add_plugin_finding(&mut p, "admin panel".to_string());
    assert_eq!(p.banner.as_deref(), Some("admin panel"));
    add_plugin_finding(&mut p, "login".to_string());
    assert_eq!(p.banner.as_deref(), Some("admin panel | login"));
}

#[test]
fn severities_compare_in_declaration_order() {
    let all = [Severity::Info, Severity::Low, Severity::Medium, Severity::High, Severity::Critical];
    for (i, a) in all.iter().enumerate() {
        assert_eq!(usize::from(severity_index(*a)), i);
        for (j, b) in all.iter().enumerate() {
            assert_eq!(a < b, i < j);
            assert_eq!(a > b, i > j);
            assert_eq!(a.partial_cmp(b), i.partial_cmp(&j));
            assert_eq!(a.cmp(b), i.cmp(&j));
        }
    }
}
