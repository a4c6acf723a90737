//! DNS enumeration: the names queried, how each answer becomes a finding, the
//! zone-transfer check, and the report of a whole enumeration.
//!
//! The queries themselves go to the system resolver and to the nameservers;
//! this module is handed their answers.

use vstd::prelude::*;
use crate::ip::{IpAddress, ip_text, push_ip};
use crate::model::{Finding, FindingContent, FindingProtocol, Severity, contents};
use crate::text::{
    chars_of, dec_text, ends_with, push_decimal, push_str, string_from_chars, to_uppercase,
    trim_char, upper_text,
};

verus! {

/// A domain as a fully-qualified name: with a trailing dot.
pub open spec fn fqdn_text(domain: Seq<char>) -> Seq<char> {
    if domain.len() > 0 && domain.last() == '.' {
        domain
    } else {
        domain + "."@
    }
}

/// Ensures `domain` is fully qualified (trailing dot), so the resolver does not
/// append search-domain suffixes.
pub fn fqdn(domain: &str) -> (r: String)
    ensures
        r@ == fqdn_text(domain@),
{
    let mut v = chars_of(domain);
    let n = v.len();
    if n > 0 && v[n - 1] == '.' {
        string_from_chars(&v)
    } else {
        v.push('.');
        proof {
            reveal_strlit(".");
        }
        assert(v@ =~= domain@ + "."@);
        string_from_chars(&v)
    }
}

/// The finding for one record: id `dns:<kind>:<domain>:<data>`, evidence
/// `<domain> <KIND> <data>`, on port 53 of the domain's primary address.
pub open spec fn record_content(kind: Seq<char>, domain: Seq<char>, host: IpAddress, data: Seq<char>) -> FindingContent {
    FindingContent {
        id: "dns:"@ + kind + ":"@ + domain + ":"@ + data,
        host,
        port: Some(53),
        protocol: FindingProtocol::Dns,
        severity: Severity::Info,
        confidence: 100,
        evidence: domain + " "@ + upper_text(kind) + " "@ + data,
        recommendation: Seq::empty(),
        references: Seq::empty(),
    }
}

/// Builds the finding for one record (`data` is the record as displayed).
pub fn record_finding(kind: &str, domain: &str, host: IpAddress, data: &str) -> (f: Finding)
    ensures
        f.content() == record_content(kind@, domain@, host, data@),
{
    let mut id: Vec<char> = Vec::new();
    push_str(&mut id, "dns:");
    push_str(&mut id, kind);
    push_str(&mut id, ":");
    push_str(&mut id, domain);
    push_str(&mut id, ":");
    push_str(&mut id, data);
    let upper = to_uppercase(kind);
    let mut ev: Vec<char> = Vec::new();
    push_str(&mut ev, domain);
    push_str(&mut ev, " ");
    push_str(&mut ev, upper.as_str());
    push_str(&mut ev, " ");
    push_str(&mut ev, data);
    let f = Finding {
        id: string_from_chars(&id),
        host,
        port: Some(53),
        protocol: FindingProtocol::Dns,
        severity: Severity::Info,
        confidence: 100,
        evidence: string_from_chars(&ev),
        recommendation: String::new(),
        references: Vec::new(),
        timestamp: Finding::now_ts(),
    };
    assert(f.content().references =~= Seq::<Seq<char>>::empty());
    f
}

/// The finding for a zone transfer a nameserver allowed.
pub open spec fn axfr_content(domain: Seq<char>, ns_host: Seq<char>, host: IpAddress, count: nat) -> FindingContent {
    FindingContent {
        id: "dns:axfr:"@ + domain + ":"@ + ns_host,
        host,
        port: Some(53),
        protocol: FindingProtocol::Dns,
        severity: Severity::High,
        confidence: 100,
        evidence: "Zone transfer (AXFR) for '"@ + domain + "' succeeded against nameserver '"@ + ns_host
            + "', "@ + dec_text(count) + " record(s) returned"@,
        recommendation: "Restrict zone transfers to authorized secondary nameservers only (e.g. `allow-transfer` in BIND, equivalent ACLs elsewhere)."@,
        references: seq!["CWE-200"@],
    }
}

/// Builds the finding for an allowed zone transfer of `count` records.
pub fn axfr_finding(domain: &str, ns_host: &str, host: IpAddress, count: u64) -> (f: Finding)
    ensures
        f.content() == axfr_content(domain@, ns_host@, host, count as nat),
{
    let mut id: Vec<char> = Vec::new();
    push_str(&mut id, "dns:axfr:");
    push_str(&mut id, domain);
    push_str(&mut id, ":");
    push_str(&mut id, ns_host);
    let mut ev: Vec<char> = Vec::new();
    push_str(&mut ev, "Zone transfer (AXFR) for '");
    push_str(&mut ev, domain);
    push_str(&mut ev, "' succeeded against nameserver '");
    push_str(&mut ev, ns_host);
    push_str(&mut ev, "', ");
    push_decimal(&mut ev, count);
    push_str(&mut ev, " record(s) returned");
    let mut refs: Vec<String> = Vec::new();
    refs.push("CWE-200".to_owned());
    let f = Finding {
        id: string_from_chars(&id),
        host,
        port: Some(53),
        protocol: FindingProtocol::Dns,
        severity: Severity::High,
        confidence: 100,
        evidence: string_from_chars(&ev),
        recommendation: "Restrict zone transfers to authorized secondary nameservers only (e.g. `allow-transfer` in BIND, equivalent ACLs elsewhere).".to_owned(),
        references: refs,
        timestamp: Finding::now_ts(),
    };
    assert(f.content().references =~= seq!["CWE-200"@]);
    f
}

/// What a zone-transfer attempt shows: the number of records transferred when
/// the server answered with some; `None` (refused or empty, the secure
/// outcome) otherwise.
pub fn axfr_outcome(got_any_response: bool, total_records: u64) -> (r: Option<u64>)
    ensures
        r == if !got_any_response || total_records == 0 {
            None::<u64>
        } else {
            Some(total_records)
        },
{
    if !got_any_response || total_records == 0 {
        None
    } else {
        Some(total_records)
    }
}

/// The `host:port` text a nameserver's address is looked up by: its name
/// without trailing dots, and port 53.
pub open spec fn nameserver_key_text(ns_host: Seq<char>) -> Seq<char> {
    trim_trailing_dots(ns_host) + ":53"@
}

/// The text without the dots at its end (`trim_end_matches('.')`).
pub open spec fn trim_trailing_dots(s: Seq<char>) -> Seq<char>
    decreases s.len(),
{
    if s.len() > 0 && s.last() == '.' {
        trim_trailing_dots(s.drop_last())
    } else {
        s
    }
}

/// The text to look a nameserver's address up by.
pub fn nameserver_key(ns_host: &str) -> (r: String)
    ensures
        r@ == nameserver_key_text(ns_host@),
{
    let mut v = chars_of(ns_host);
    while v.len() > 0 && v[v.len() - 1] == '.'
        invariant
            trim_trailing_dots(v@) == trim_trailing_dots(ns_host@),
        decreases v@.len(),
    {
        v.pop();
    }
    push_str(&mut v, ":53");
    string_from_chars(&v)
}

/// The answers gathered for a domain, each record as displayed; `None` for a
/// lookup that failed (it then contributes nothing).
pub struct DnsAnswers {
    pub cname: Option<Vec<String>>,
    pub ns: Option<Vec<String>>,
    pub mx: Option<Vec<String>>,
    pub txt: Option<Vec<String>>,
    pub ptr: Option<Vec<String>>,
    /// Per nameserver (in the order of `ns`), the number of records a zone
    /// transfer returned, when it returned any.
    pub axfr: Vec<(String, Option<u64>)>,
}

/// The texts of an optional record list (none for a failed lookup).
pub open spec fn record_texts(v: Option<Vec<String>>) -> Seq<Seq<char>> {
    match v {
        Some(r) => r@.map_values(|s: String| s@),
        None => Seq::empty(),
    }
}

/// One finding per record of a kind, in order.
pub open spec fn record_contents(kind: Seq<char>, domain: Seq<char>, host: IpAddress, data: Seq<Seq<char>>) -> Seq<
    FindingContent,
> {
    data.map_values(|d: Seq<char>| record_content(kind, domain, host, d))
}

/// The zone-transfer findings, in nameserver order.
pub open spec fn axfr_contents(domain: Seq<char>, host: IpAddress, results: Seq<(String, Option<u64>)>) -> Seq<
    FindingContent,
>
    decreases results.len(),
{
    if results.len() == 0 {
        Seq::empty()
    } else {
        let r = axfr_contents(domain, host, results.drop_last());
        match results.last().1 {
            Some(n) => r.push(axfr_content(domain, results.last().0@, host, n as nat)),
            None => r,
        }
    }
}

/// The report of a DNS enumeration: the address records (anchored to the first
/// of them), then CNAME, NS, MX, TXT and PTR records, then the zone transfers
/// that succeeded.
pub open spec fn dns_report(domain: Seq<char>, addresses: Seq<IpAddress>, a: DnsAnswers) -> Seq<
    FindingContent,
> {
    let host = addresses[0];
    addresses.map_values(|ip: IpAddress| record_content("a"@, domain, host, ip_text(ip)))
        + record_contents("cname"@, domain, host, record_texts(a.cname)) + record_contents(
        "ns"@,
        domain,
        host,
        record_texts(a.ns),
    ) + record_contents("mx"@, domain, host, record_texts(a.mx)) + record_contents(
        "txt"@,
        domain,
        host,
        record_texts(a.txt),
    ) + record_contents("ptr"@, domain, host, record_texts(a.ptr)) + axfr_contents(
        domain,
        host,
        a.axfr@,
    )
}

fn push_records(out: &mut Vec<Finding>, kind: &str, domain: &str, host: IpAddress, data: &Option<Vec<String>>)
    ensures
        contents(final(out)@) == contents(old(out)@) + record_contents(
            kind@,
            domain@,
            host,
            record_texts(*data),
        ),
{
    let ghost start = contents(out@);
    let ghost dv = record_texts(*data);
    match data {
        Some(v) => {
            let mut i: usize = 0;
            while i < v.len()
                invariant
                    i <= v@.len(),
                    dv == v@.map_values(|s: String| s@),
                    contents(out@) == start + record_contents(kind@, domain@, host, dv.take(i as int)),
                decreases v@.len() - i,
            {
                let ghost before = contents(out@);
                out.push(record_finding(kind, domain, host, v[i].as_str()));
                assert(record_contents(kind@, domain@, host, dv.take(i + 1)) =~= record_contents(
                    kind@,
                    domain@,
                    host,
                    dv.take(i as int),
                ).push(record_content(kind@, domain@, host, v@[i as int]@)));
                assert(contents(out@) =~= before.push(record_content(kind@, domain@, host, v@[i as int]@)));
                i += 1;
            }
            assert(dv.take(v@.len() as int) =~= dv);
        },
        None => {
            assert(contents(out@) =~= start + record_contents(kind@, domain@, host, dv));
        },
    }
}

fn push_axfr(out: &mut Vec<Finding>, domain: &str, host: IpAddress, results: &Vec<(String, Option<u64>)>)
    ensures
        contents(final(out)@) == contents(old(out)@) + axfr_contents(domain@, host, results@),
{
    let ghost start = contents(out@);
    let mut k: usize = 0;
    assert(contents(out@) =~= start + axfr_contents(domain@, host, results@.take(0)));
    while k < results.len()
        invariant
            k <= results@.len(),
            contents(out@) == start + axfr_contents(domain@, host, results@.take(k as int)),
        decreases results@.len() - k,
    {
        assert(results@.take(k + 1).drop_last() =~= results@.take(k as int));
        let entry = &results[k];
        assert(results@.take(k + 1).last() == *entry);
        match entry.1 {
            Some(n) => {
                let ghost before = contents(out@);
                out.push(axfr_finding(domain, entry.0.as_str(), host, n));
                assert(contents(out@) =~= before.push(axfr_content(domain@, entry.0@, host, n as nat)));
            },
            None => {},
        }
        k += 1;
    }
    assert(results@.take(results@.len() as int) =~= results@);
}

/// The result of a DNS enumeration of `domain`, given the address lookup (the
/// addresses, or the resolver's error text) and the other answers: an error
/// when the lookup failed or found no address; otherwise the primary address
/// (the first) and the findings.
pub fn dns_findings(domain: &str, addresses: Result<Vec<IpAddress>, String>, answers: &DnsAnswers) -> (r:
    Result<(IpAddress, Vec<Finding>), String>)
    ensures
        match addresses {
            Err(e) => r matches Err(m) && m@ == "Failed to resolve '"@ + domain@ + "': "@ + e@,
            Ok(v) => if v@.len() == 0 {
                r matches Err(m) && m@ == "No A/AAAA records found for '"@ + domain@ + "'"@
            } else {
                r matches Ok((ip, fs)) && ip == v@[0] && contents(fs@) == dns_report(
                    domain@,
                    v@,
                    *answers,
                )
            },
        },
{
    let addrs = match addresses {
        Err(e) => {
            let mut m: Vec<char> = Vec::new();
            push_str(&mut m, "Failed to resolve '");
            push_str(&mut m, domain);
            push_str(&mut m, "': ");
            push_str(&mut m, e.as_str());
            return Err(string_from_chars(&m));
        },
        Ok(v) => v,
    };
    if addrs.len() == 0 {
        let mut m: Vec<char> = Vec::new();
        push_str(&mut m, "No A/AAAA records found for '");
        push_str(&mut m, domain);
        push_str(&mut m, "'");
        return Err(string_from_chars(&m));
    }
    let primary = addrs[0];
    let ghost av = addrs@.map_values(|ip: IpAddress| record_content("a"@, domain@, primary, ip_text(ip)));
    let mut out: Vec<Finding> = Vec::new();
    let mut i: usize = 0;
    while i < addrs.len()
        invariant
            i <= addrs@.len(),
            av == addrs@.map_values(|ip: IpAddress| record_content("a"@, domain@, primary, ip_text(ip))),
            contents(out@) == av.take(i as int),
        decreases addrs@.len() - i,
    {
        let mut t: Vec<char> = Vec::new();
        push_ip(&mut t, addrs[i]);
        assert(t@ =~= ip_text(addrs@[i as int]));
        let ghost before = contents(out@);
        let ts = string_from_chars(&t);
        out.push(record_finding("a", domain, primary, ts.as_str()));
        assert(av[i as int] == record_content("a"@, domain@, primary, ip_text(addrs@[i as int])));
        assert(contents(out@) =~= before.push(av[i as int]));
        assert(av.take(i + 1) =~= av.take(i as int).push(av[i as int]));
        i += 1;
    }
    assert(av.take(addrs@.len() as int) =~= av);
    push_records(&mut out, "cname", domain, primary, &answers.cname);
    push_records(&mut out, "ns", domain, primary, &answers.ns);
    push_records(&mut out, "mx", domain, primary, &answers.mx);
    push_records(&mut out, "txt", domain, primary, &answers.txt);
    push_records(&mut out, "ptr", domain, primary, &answers.ptr);
    push_axfr(&mut out, domain, primary, &answers.axfr);
    assert(contents(out@) =~= dns_report(domain@, addrs@, *answers));
    Ok((primary, out))
}


/// Record finding ids are stable: they depend on the kind, the domain and the
/// record alone (not on the address the findings are anchored to), and two
/// different records of the same kind and domain never share an id.
pub proof fn lemma_record_ids_stable(
    kind: Seq<char>,
    domain: Seq<char>,
    h1: IpAddress,
    h2: IpAddress,
    d1: Seq<char>,
    d2: Seq<char>,
)
    ensures
        record_content(kind, domain, h1, d1).id == record_content(kind, domain, h2, d1).id,
        d1 != d2 ==> record_content(kind, domain, h1, d1).id != record_content(kind, domain, h2, d2).id,
{
    let pre = "dns:"@ + kind + ":"@ + domain + ":"@;
    let id1 = record_content(kind, domain, h1, d1).id;
    let id2 = record_content(kind, domain, h2, d2).id;
    assert(id1 =~= pre + d1);
    assert(id2 =~= pre + d2);
    if d1 != d2 && id1 == id2 {
        assert(id1.skip(pre.len() as int) =~= d1);
        assert(id2.skip(pre.len() as int) =~= d2);
    }
}

} // verus!
