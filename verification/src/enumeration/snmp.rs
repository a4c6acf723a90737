//! SNMP enumeration: which ports to probe, the community strings and object
//! identifiers queried, how values are shown, when an interface walk stops,
//! and the findings.

use vstd::prelude::*;
use crate::enumeration::{lower_service, ports_where, service_mentions};
use crate::ip::IpAddress;
use crate::model::{
    Finding, FindingContent, FindingProtocol, HostResult, PortResult, PortStatus, PortView, Severity,
    TransportProtocol, contents, make_port_finding, opt_text, port_finding, port_views,
};
use crate::text::{
    chars_of, contains_str, join_strings, join_with, lossy_text, push_signed_decimal, push_str,
    signed_dec_text, string_from_chars, trim, trim_char, trim_char_chars, trim_chars, utf8_lossy,
};

verus! {

/// Does the port look like SNMP: port 161, or a service name mentioning "snmp"?
pub fn looks_like_snmp(port_res: &PortResult) -> (b: bool)
    ensures
        b == (port_res.port == 161 || service_mentions(port_res@.service, "snmp"@)),
{
    if port_res.port == 161 {
        return true;
    }
    match lower_service(port_res) {
        Some(s) => contains_str(s.as_str(), "snmp"),
        None => false,
    }
}

/// A UDP port that is open or open|filtered (the usual shape of a silent UDP
/// port) and looks like SNMP.
pub open spec fn snmp_candidate(p: PortView) -> bool {
    &&& (p.status == PortStatus::Open || p.status == PortStatus::OpenFiltered)
    &&& p.protocol == TransportProtocol::Udp
    &&& (p.port == 161 || service_mentions(p.service, "snmp"@))
}

/// The ports of a host that SNMP enumeration probes, in order.
pub fn snmp_ports(host: &HostResult) -> (r: Vec<u16>)
    ensures
        r@ == ports_where(host@.ports, |p: PortView| snmp_candidate(p)),
{
    let ghost pv = port_views(host.ports@);
    let ghost pred = |p: PortView| snmp_candidate(p);
    let mut out: Vec<u16> = Vec::new();
    let mut i: usize = 0;
    while i < host.ports.len()
        invariant
            i <= host.ports@.len(),
            pv == port_views(host.ports@),
            pred == (|p: PortView| snmp_candidate(p)),
            out@ == ports_where(pv.take(i as int), pred),
        decreases host.ports@.len() - i,
    {
        assert(pv.take(i + 1).drop_last() =~= pv.take(i as int));
        let p = &host.ports[i];
        assert(pv.take(i + 1).last() == p@);
        if (p.status == PortStatus::Open || p.status == PortStatus::OpenFiltered) && p.protocol
            == TransportProtocol::Udp && looks_like_snmp(p) {
            out.push(p.port);
        }
        i += 1;
    }
    assert(pv.take(host.ports@.len() as int) =~= pv);
    out
}

/// The community strings tried, in order: both are still factory defaults on
/// many devices.
pub open spec fn community_texts() -> Seq<Seq<char>> {
    seq!["public"@, "private"@]
}

/// The community strings to try, in order.
pub fn community_strings() -> (r: Vec<&'static str>)
    ensures
        r@.len() == 2,
        r@[0]@ == "public"@,
        r@[1]@ == "private"@,
{
    let mut v: Vec<&'static str> = Vec::new();
    v.push("public");
    v.push("private");
    v
}

/// sysDescr.0 (1.3.6.1.2.1.1.1.0).
pub fn sys_descr_oid() -> (r: Vec<u64>)
    ensures
        r@ == seq![1u64, 3, 6, 1, 2, 1, 1, 1, 0],
{
    let r: Vec<u64> = vec![1, 3, 6, 1, 2, 1, 1, 1, 0];
    assert(r@ =~= seq![1u64, 3, 6, 1, 2, 1, 1, 1, 0]);
    r
}

/// sysName.0 (1.3.6.1.2.1.1.5.0).
pub fn sys_name_oid() -> (r: Vec<u64>)
    ensures
        r@ == seq![1u64, 3, 6, 1, 2, 1, 1, 5, 0],
{
    let r: Vec<u64> = vec![1, 3, 6, 1, 2, 1, 1, 5, 0];
    assert(r@ =~= seq![1u64, 3, 6, 1, 2, 1, 1, 5, 0]);
    r
}

/// The interface description table, ifDescr (1.3.6.1.2.1.2.2.1.2).
pub fn if_descr_base() -> (r: Vec<u64>)
    ensures
        r@ == seq![1u64, 3, 6, 1, 2, 1, 2, 2, 1, 2],
{
    let r: Vec<u64> = vec![1, 3, 6, 1, 2, 1, 2, 2, 1, 2];
    assert(r@ =~= seq![1u64, 3, 6, 1, 2, 1, 2, 2, 1, 2]);
    r
}

/// The most interface rows a walk reads (a defensive cap).
pub const MAX_INTERFACES: usize = 32;

/// An SNMP value as the enumeration reads it.
#[derive(Debug, Clone)]
pub enum SnmpValue {
    OctetString(Vec<u8>),
    Integer(i64),
    EndOfMibView,
    NoSuchObject,
    NoSuchInstance,
    /// Any other value, by its debug text.
    Other(String),
}

/// How a value is shown: an octet string decoded (lossily) as UTF-8 with NULs
/// stripped from both ends and then trimmed; an integer in decimal; nothing for
/// the end-of-walk markers; any other value by its debug text.
pub open spec fn shown_value(v: SnmpValue) -> Option<Seq<char>> {
    match v {
        SnmpValue::OctetString(b) => Some(trim(trim_char(lossy_text(b@), '\0'))),
        SnmpValue::Integer(n) => Some(signed_dec_text(n as int)),
        SnmpValue::EndOfMibView => None,
        SnmpValue::NoSuchObject => None,
        SnmpValue::NoSuchInstance => None,
        SnmpValue::Other(d) => Some(d@),
    }
}

/// Shows a value as text; `None` for the end-of-walk markers.
pub fn format_value(value: &SnmpValue) -> (r: Option<String>)
    ensures
        opt_text(r) == shown_value(*value),
{
    match value {
        SnmpValue::OctetString(bytes) => {
            let text = utf8_lossy(bytes.as_slice());
            let v = chars_of(text.as_str());
            let t = trim_char_chars(&v, '\0');
            let u = trim_chars(&t);
            Some(string_from_chars(&u))
        },
        SnmpValue::Integer(n) => {
            let mut v: Vec<char> = Vec::new();
            push_signed_decimal(&mut v, *n);
            assert(v@ =~= signed_dec_text(*n as int));
            Some(string_from_chars(&v))
        },
        SnmpValue::EndOfMibView => None,
        SnmpValue::NoSuchObject => None,
        SnmpValue::NoSuchInstance => None,
        SnmpValue::Other(d) => Some(d.clone()),
    }
}

/// What one GETNEXT answer means for an interface walk.
#[derive(Debug)]
pub enum WalkStep {
    /// The walk is over: the answer left the table, or marks its end.
    Stop,
    /// The walk goes on from the answer's identifier, keeping this name if any.
    Continue(Option<String>),
}

/// Is `v` one of the end-of-walk markers?
pub open spec fn end_marker(v: SnmpValue) -> bool {
    v is EndOfMibView || v is NoSuchObject || v is NoSuchInstance
}

/// Decides a step of the interface walk from the answer: the encoded identifier
/// returned and its value. The walk stops when the identifier no longer starts
/// with the table's encoded identifier, or at an end-of-walk marker.
pub fn walk_step(base: &Vec<u8>, oid: &Vec<u8>, value: &SnmpValue) -> (r: WalkStep)
    ensures
        !(base@.len() <= oid@.len() && oid@.take(base@.len() as int) == base@) || end_marker(
            *value,
        ) ==> r is Stop,
        (base@.len() <= oid@.len() && oid@.take(base@.len() as int) == base@) && !end_marker(
            *value,
        ) ==> (r matches WalkStep::Continue(n) && opt_text(n) == shown_value(*value)),
{
    if base.len() > oid.len() {
        return WalkStep::Stop;
    }
    let mut i: usize = 0;
    while i < base.len()
        invariant
            i <= base@.len() <= oid@.len(),
            forall|k: int| 0 <= k < i ==> oid@[k] == base@[k],
        decreases base@.len() - i,
    {
        if oid[i] != base[i] {
            assert(oid@.take(base@.len() as int)[i as int] != base@[i as int]);
            return WalkStep::Stop;
        }
        i += 1;
    }
    assert(oid@.take(base@.len() as int) =~= base@);
    match value {
        SnmpValue::EndOfMibView => WalkStep::Stop,
        SnmpValue::NoSuchObject => WalkStep::Stop,
        SnmpValue::NoSuchInstance => WalkStep::Stop,
        _ => WalkStep::Continue(format_value(value)),
    }
}

/// A finding of the SNMP module about one port.
pub open spec fn snmp_finding(
    kind: Seq<char>,
    host: IpAddress,
    port: u16,
    severity: Severity,
    evidence: Seq<char>,
    recommendation: Seq<char>,
) -> FindingContent {
    port_finding("snmp"@, FindingProtocol::Snmp, kind, host, port, severity, evidence, recommendation)
}

/// The kind of the finding for an accepted community string: it names the
/// community, so each accepted community has its own finding id.
pub open spec fn community_kind(community: Seq<char>) -> Seq<char> {
    "community:"@ + community
}

/// The finding for a community string the agent accepted.
pub open spec fn community_finding(host: IpAddress, port: u16, community: Seq<char>) -> FindingContent {
    snmp_finding(
        community_kind(community),
        host,
        port,
        Severity::High,
        "SNMP accepted community string '"@ + community + "'"@,
        "Change default SNMP community strings, restrict SNMP access via firewall/ACL to management hosts only, and migrate to SNMPv3 with authentication and encryption."@,
    )
}

/// The device details read with the first accepted community string: sysDescr,
/// then sysName when it was read, then the interface names when there are any.
pub open spec fn detail_findings(
    host: IpAddress,
    port: u16,
    sys_descr: Seq<char>,
    sys_name: Option<Seq<char>>,
    interfaces: Seq<Seq<char>>,
) -> Seq<FindingContent> {
    let d = seq![
        snmp_finding("sysdescr"@, host, port, Severity::Info, "sysDescr: "@ + sys_descr, Seq::empty()),
    ];
    let n = match sys_name {
        Some(s) => d.push(
            snmp_finding("sysname"@, host, port, Severity::Info, "sysName: "@ + s, Seq::empty()),
        ),
        None => d,
    };
    if interfaces.len() > 0 {
        n.push(
            snmp_finding(
                "interfaces"@,
                host,
                port,
                Severity::Info,
                "Interfaces: "@ + join_with(interfaces, ", "@),
                Seq::empty(),
            ),
        )
    } else {
        n
    }
}

/// The findings of an SNMP probe: one per accepted community string (with its
/// sysDescr), in the order tried; the details read with the first one follow its
/// own finding.
pub open spec fn snmp_findings(
    host: IpAddress,
    port: u16,
    accepted: Seq<(Seq<char>, Seq<char>)>,
    sys_name: Option<Seq<char>>,
    interfaces: Seq<Seq<char>>,
) -> Seq<FindingContent>
    decreases accepted.len(),
{
    if accepted.len() == 0 {
        Seq::empty()
    } else if accepted.len() == 1 {
        seq![community_finding(host, port, accepted[0].0)] + detail_findings(
            host,
            port,
            accepted[0].1,
            sys_name,
            interfaces,
        )
    } else {
        snmp_findings(host, port, accepted.drop_last(), sys_name, interfaces).push(
            community_finding(host, port, accepted.last().0),
        )
    }
}

/// The texts of the (community, sysDescr) pairs.
pub open spec fn accepted_texts(v: Seq<(String, String)>) -> Seq<(Seq<char>, Seq<char>)> {
    v.map_values(|p: (String, String)| (p.0@, p.1@))
}

/// The texts of a list of strings.
pub open spec fn string_texts(v: Seq<String>) -> Seq<Seq<char>> {
    v.map_values(|s: String| s@)
}

fn prefixed(prefix: &str, s: &str) -> (r: String)
    ensures
        r@ == prefix@ + s@,
{
    let mut v: Vec<char> = Vec::new();
    push_str(&mut v, prefix);
    push_str(&mut v, s);
    string_from_chars(&v)
}

/// Builds the findings of an SNMP probe of `host:port` from the community
/// strings the agent accepted (each with the sysDescr it returned), in the
/// order tried, and the sysName and interface names read with the first.
pub fn build_findings(
    host: IpAddress,
    port: u16,
    accepted: &Vec<(String, String)>,
    sys_name: &Option<String>,
    interfaces: &Vec<String>,
) -> (r: Vec<Finding>)
    ensures
        contents(r@) == snmp_findings(
            host,
            port,
            accepted_texts(accepted@),
            opt_text(*sys_name),
            string_texts(interfaces@),
        ),
        distinct_communities(accepted_texts(accepted@)) ==> forall|i: int, j: int|
            0 <= i < j < r@.len() ==> #[trigger] r@[i].id@ != #[trigger] r@[j].id@,
{
    let ghost at = accepted_texts(accepted@);
    let ghost sn = opt_text(*sys_name);
    let ghost iv = string_texts(interfaces@);
    let mut out: Vec<Finding> = Vec::new();
    let mut i: usize = 0;
    assert(contents(out@) =~= snmp_findings(host, port, at.take(0), sn, iv));
    while i < accepted.len()
        invariant
            i <= accepted@.len(),
            at == accepted_texts(accepted@),
            sn == opt_text(*sys_name),
            iv == string_texts(interfaces@),
            contents(out@) == snmp_findings(host, port, at.take(i as int), sn, iv),
        decreases accepted@.len() - i,
    {
        let (c, d) = (&accepted[i].0, &accepted[i].1);
        assert(at[i as int] == (c@, d@));
        let mut ev: Vec<char> = Vec::new();
        push_str(&mut ev, "SNMP accepted community string '");
        push_str(&mut ev, c.as_str());
        push_str(&mut ev, "'");
        let ghost before = contents(out@);
        let kind = prefixed("community:", c.as_str());
        out.push(
            make_port_finding(
                "snmp",
                FindingProtocol::Snmp,
                kind.as_str(),
                host,
                port,
                Severity::High,
                string_from_chars(&ev),
                "Change default SNMP community strings, restrict SNMP access via firewall/ACL to management hosts only, and migrate to SNMPv3 with authentication and encryption.".to_owned(),
            ),
        );
        assert(contents(out@) =~= before.push(community_finding(host, port, c@)));
        if i == 0 {
            out.push(
                make_port_finding(
                    "snmp",
                    FindingProtocol::Snmp,
                    "sysdescr",
                    host,
                    port,
                    Severity::Info,
                    prefixed("sysDescr: ", d.as_str()),
                    String::new(),
                ),
            );
            match sys_name {
                Some(s) => {
                    out.push(
                        make_port_finding(
                            "snmp",
                            FindingProtocol::Snmp,
                            "sysname",
                            host,
                            port,
                            Severity::Info,
                            prefixed("sysName: ", s.as_str()),
                            String::new(),
                        ),
                    );
                },
                None => {},
            }
            if interfaces.len() > 0 {
                let joined = join_strings(interfaces, ", ");
                out.push(
                    make_port_finding(
                        "snmp",
                        FindingProtocol::Snmp,
                        "interfaces",
                        host,
                        port,
                        Severity::Info,
                        prefixed("Interfaces: ", joined.as_str()),
                        String::new(),
                    ),
                );
            }
            assert(at.take(1) =~= seq![at[0]]);
            assert(contents(out@) =~= snmp_findings(host, port, at.take(1), sn, iv));
        } else {
            assert(at.take(i + 1).drop_last() =~= at.take(i as int));
        }
        i += 1;
    }
    assert(at.take(accepted@.len() as int) =~= at);
    proof {
        if distinct_communities(at) {
            lemma_snmp_ids_distinct(host, port, at, sn, iv);
            assert forall|i: int, j: int| 0 <= i < j < out@.len() implies #[trigger] out@[i].id@
                != #[trigger] out@[j].id@ by {
                assert(contents(out@)[i].id == out@[i].id@);
                assert(contents(out@)[j].id == out@[j].id@);
            }
        }
    }
    out
}


/// The kinds of the detail findings, in order.
pub open spec fn detail_kinds(sys_name: Option<Seq<char>>, interfaces: Seq<Seq<char>>) -> Seq<Seq<char>> {
    let d = seq!["sysdescr"@];
    let n = match sys_name {
        Some(_) => d.push("sysname"@),
        None => d,
    };
    if interfaces.len() > 0 {
        n.push("interfaces"@)
    } else {
        n
    }
}

/// The kinds of the findings of an SNMP probe, in the order of `snmp_findings`.
pub open spec fn snmp_kinds(
    accepted: Seq<(Seq<char>, Seq<char>)>,
    sys_name: Option<Seq<char>>,
    interfaces: Seq<Seq<char>>,
) -> Seq<Seq<char>>
    decreases accepted.len(),
{
    if accepted.len() == 0 {
        Seq::empty()
    } else if accepted.len() == 1 {
        seq![community_kind(accepted[0].0)] + detail_kinds(sys_name, interfaces)
    } else {
        snmp_kinds(accepted.drop_last(), sys_name, interfaces).push(community_kind(accepted.last().0))
    }
}

/// The id of an SNMP finding of a given kind about `host:port`.
pub open spec fn snmp_id(kind: Seq<char>, host: IpAddress, port: u16) -> Seq<char> {
    crate::model::port_finding_id("snmp"@, kind, host, port)
}

/// Each SNMP finding has the id of its kind.
proof fn lemma_snmp_finding_ids(
    host: IpAddress,
    port: u16,
    accepted: Seq<(Seq<char>, Seq<char>)>,
    sys_name: Option<Seq<char>>,
    interfaces: Seq<Seq<char>>,
)
    ensures
        snmp_findings(host, port, accepted, sys_name, interfaces).len() == snmp_kinds(
            accepted,
            sys_name,
            interfaces,
        ).len(),
        forall|i: int|
            0 <= i < snmp_kinds(accepted, sys_name, interfaces).len() ==> #[trigger] snmp_findings(
                host,
                port,
                accepted,
                sys_name,
                interfaces,
            )[i].id == snmp_id(snmp_kinds(accepted, sys_name, interfaces)[i], host, port),
    decreases accepted.len(),
{
    if accepted.len() >= 2 {
        lemma_snmp_finding_ids(host, port, accepted.drop_last(), sys_name, interfaces);
    }
}

/// Ids that differ in their kinds differ.
proof fn lemma_kinds_give_ids(k1: Seq<char>, k2: Seq<char>, host: IpAddress, port: u16)
    requires
        k1 != k2,
    ensures
        snmp_id(k1, host, port) != snmp_id(k2, host, port),
{
    let pre = "snmp"@ + seq![':'];
    let suf = seq![':'] + crate::ip::ip_text(host) + seq![':'] + crate::text::dec_text(port as nat);
    let id1 = snmp_id(k1, host, port);
    let id2 = snmp_id(k2, host, port);
    assert(id1 =~= pre + k1 + suf);
    assert(id2 =~= pre + k2 + suf);
    if id1 == id2 {
        assert(k1.len() == k2.len());
        assert(id1.subrange(pre.len() as int, (pre.len() + k1.len()) as int) =~= k1);
        assert(id2.subrange(pre.len() as int, (pre.len() + k2.len()) as int) =~= k2);
    }
}

/// The communities of the accepted list are pairwise different.
pub open spec fn distinct_communities(accepted: Seq<(Seq<char>, Seq<char>)>) -> bool {
    forall|a: int, b: int| 0 <= a < b < accepted.len() ==> #[trigger] accepted[a].0 != #[trigger] accepted[b].0
}

/// A detail kind is one of the three detail names.
pub open spec fn is_detail_kind(k: Seq<char>) -> bool {
    k == "sysdescr"@ || k == "sysname"@ || k == "interfaces"@
}

proof fn lemma_community_kind_not_detail(c: Seq<char>)
    ensures
        !is_detail_kind(community_kind(c)),
{
    reveal_strlit("community:");
    reveal_strlit("sysdescr");
    reveal_strlit("sysname");
    reveal_strlit("interfaces");
    assert(community_kind(c)[0] == 'c');
}

proof fn lemma_community_kinds_differ(c1: Seq<char>, c2: Seq<char>)
    requires
        c1 != c2,
    ensures
        community_kind(c1) != community_kind(c2),
{
    let pre = "community:"@;
    if community_kind(c1) == community_kind(c2) {
        assert(community_kind(c1).skip(pre.len() as int) =~= c1);
        assert(community_kind(c2).skip(pre.len() as int) =~= c2);
    }
}

/// Every kind is an accepted community's or a detail kind, and no two are alike.
proof fn lemma_snmp_kinds_distinct(
    accepted: Seq<(Seq<char>, Seq<char>)>,
    sys_name: Option<Seq<char>>,
    interfaces: Seq<Seq<char>>,
)
    requires
        distinct_communities(accepted),
    ensures
        forall|i: int|
            0 <= i < snmp_kinds(accepted, sys_name, interfaces).len() ==> is_detail_kind(
                #[trigger] snmp_kinds(accepted, sys_name, interfaces)[i],
            ) || exists|a: int|
                0 <= a < accepted.len() && snmp_kinds(accepted, sys_name, interfaces)[i]
                    == community_kind(#[trigger] accepted[a].0),
        forall|i: int, j: int|
            0 <= i < j < snmp_kinds(accepted, sys_name, interfaces).len() ==> #[trigger] snmp_kinds(
                accepted,
                sys_name,
                interfaces,
            )[i] != #[trigger] snmp_kinds(accepted, sys_name, interfaces)[j],
    decreases accepted.len(),
{
    let k = snmp_kinds(accepted, sys_name, interfaces);
    reveal_strlit("sysdescr");
    reveal_strlit("sysname");
    reveal_strlit("interfaces");
    if accepted.len() == 1 {
        let d = detail_kinds(sys_name, interfaces);
        lemma_community_kind_not_detail(accepted[0].0);
        assert forall|i: int| 0 <= i < d.len() implies is_detail_kind(#[trigger] d[i]) by {}
        assert("sysdescr"@[3] == 'd' && "sysname"@[3] == 'n');
        assert("sysdescr"@[0] == 's' && "sysname"@[0] == 's' && "interfaces"@[0] == 'i');
        assert forall|i: int, j: int| 0 <= i < j < d.len() implies #[trigger] d[i] != #[trigger] d[j] by {}
        assert forall|i: int| 0 <= i < k.len() implies is_detail_kind(#[trigger] k[i]) || exists|a: int|
            0 <= a < accepted.len() && k[i] == community_kind(#[trigger] accepted[a].0) by {
            if i > 0 {
                assert(k[i] == d[i - 1]);
            } else {
                assert(k[0] == community_kind(accepted[0].0));
            }
        }
        assert forall|i: int, j: int| 0 <= i < j < k.len() implies #[trigger] k[i] != #[trigger] k[j] by {
            assert(k[j] == d[j - 1]);
            if i > 0 {
                assert(k[i] == d[i - 1]);
            }
        }
    } else if accepted.len() >= 2 {
        let prev = accepted.drop_last();
        assert forall|a: int, b: int| 0 <= a < b < prev.len() implies #[trigger] prev[a].0 != #[trigger] prev[b].0 by {
            assert(prev[a] == accepted[a] && prev[b] == accepted[b]);
        }
        lemma_snmp_kinds_distinct(prev, sys_name, interfaces);
        let kp = snmp_kinds(prev, sys_name, interfaces);
        let last = accepted.last().0;
        assert(k == kp.push(community_kind(last)));
        lemma_community_kind_not_detail(last);
        assert forall|i: int| 0 <= i < kp.len() implies #[trigger] kp[i] != community_kind(last) by {
            if !is_detail_kind(kp[i]) {
                let a = choose|a: int| 0 <= a < prev.len() && kp[i] == community_kind(#[trigger] prev[a].0);
                assert(prev[a] == accepted[a]);
                assert(accepted[a].0 != accepted[accepted.len() - 1].0);
                lemma_community_kinds_differ(prev[a].0, last);
            }
        }
        assert forall|i: int| 0 <= i < k.len() implies is_detail_kind(#[trigger] k[i]) || exists|a: int|
            0 <= a < accepted.len() && k[i] == community_kind(#[trigger] accepted[a].0) by {
            if i < kp.len() {
                assert(k[i] == kp[i]);
                if !is_detail_kind(kp[i]) {
                    let a = choose|a: int| 0 <= a < prev.len() && kp[i] == community_kind(#[trigger] prev[a].0);
                    assert(prev[a] == accepted[a]);
                }
            } else {
                assert(k[i] == community_kind(accepted[accepted.len() - 1].0));
            }
        }
        assert forall|i: int, j: int| 0 <= i < j < k.len() implies #[trigger] k[i] != #[trigger] k[j] by {
            if j < kp.len() {
                assert(k[i] == kp[i] && k[j] == kp[j]);
            } else {
                assert(k[i] == kp[i]);
            }
        }
    }
}

/// Every SNMP finding has an id of its own: when the accepted communities are
/// different (as the ones tried are), no two findings of a probe share an id.
pub proof fn lemma_snmp_ids_distinct(
    host: IpAddress,
    port: u16,
    accepted: Seq<(Seq<char>, Seq<char>)>,
    sys_name: Option<Seq<char>>,
    interfaces: Seq<Seq<char>>,
)
    requires
        distinct_communities(accepted),
    ensures
        forall|i: int, j: int|
            0 <= i < j < snmp_findings(host, port, accepted, sys_name, interfaces).len() ==> #[trigger] snmp_findings(
                host,
                port,
                accepted,
                sys_name,
                interfaces,
            )[i].id != #[trigger] snmp_findings(host, port, accepted, sys_name, interfaces)[j].id,
{
    lemma_snmp_finding_ids(host, port, accepted, sys_name, interfaces);
    lemma_snmp_kinds_distinct(accepted, sys_name, interfaces);
    let f = snmp_findings(host, port, accepted, sys_name, interfaces);
    let k = snmp_kinds(accepted, sys_name, interfaces);
    assert forall|i: int, j: int| 0 <= i < j < f.len() implies #[trigger] f[i].id != #[trigger] f[j].id by {
        assert(k[i] != k[j]);
        assert(f[i].id == snmp_id(k[i], host, port));
        assert(f[j].id == snmp_id(k[j], host, port));
        lemma_kinds_give_ids(k[i], k[j], host, port);
    }
}

/// The community strings tried are different from each other.
pub proof fn lemma_tried_communities_distinct()
    ensures
        community_texts()[0] != community_texts()[1],
{
    reveal_strlit("public");
    reveal_strlit("private");
    assert("public"@[1] == 'u' && "private"@[1] == 'r');
}

} // verus!
