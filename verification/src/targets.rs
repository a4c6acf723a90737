//! Turning target strings (addresses, CIDR networks, hostnames) into addresses.
//!
//! Hostnames are looked up by the caller; this module decides what each target
//! string stands for, what a lookup's answer means, and how the addresses are
//! collected.

use vstd::prelude::*;
use crate::ip::{IpAddress, parse_ip, parsed_ip};
use crate::scope::{ip_net_parsed, net_hosts, parse_ip_net};
use crate::text::{chars_of, has_char, push_str, string_from_chars, trim, trim_str};

verus! {

/// What a target string stands for.
#[derive(Debug)]
pub enum TargetForm {
    /// Nothing: the string is blank.
    Blank,
    /// These addresses: a single address, or the hosts of a CIDR network.
    Addresses(Vec<IpAddress>),
    /// A hostname (trimmed) that has to be looked up.
    Hostname(String),
}

/// The addresses a trimmed target stands for without a lookup: itself when it
/// is an address, the hosts of the network when it is a CIDR network.
pub open spec fn literal_addresses(t: Seq<char>) -> Option<Seq<IpAddress>> {
    match parsed_ip(t) {
        Some(ip) => Some(seq![ip]),
        None => match ip_net_parsed(t) {
            Some(n) => Some(net_hosts(n)),
            None => None,
        },
    }
}

/// Decides what a target string stands for: trimmed, a blank string is nothing,
/// an address is itself, a CIDR network is its hosts, anything else a hostname.
pub fn classify_target(s: &str) -> (r: TargetForm)
    ensures
        ({
            let t = trim(s@);
            if t.len() == 0 {
                r is Blank
            } else {
                match literal_addresses(t) {
                    Some(v) => r matches TargetForm::Addresses(a) && a@ == v,
                    None => r matches TargetForm::Hostname(h) && h@ == t,
                }
            }
        }),
{
    let t = trim_str(s);
    let tv = chars_of(t.as_str());
    if tv.len() == 0 {
        return TargetForm::Blank;
    }
    if let Some(ip) = parse_ip(t.as_str()) {
        let mut v: Vec<IpAddress> = Vec::new();
        v.push(ip);
        assert(v@ =~= seq![ip]);
        return TargetForm::Addresses(v);
    }
    if let Some(net) = parse_ip_net(t.as_str()) {
        return TargetForm::Addresses(net.hosts());
    }
    TargetForm::Hostname(t)
}

/// The `host:port` text handed to the system resolver: the name itself when it
/// already holds a colon, else the name with port 80.
pub open spec fn lookup_key_text(name: Seq<char>) -> Seq<char> {
    if name.contains(':') {
        name
    } else {
        name + ":80"@
    }
}

/// The text to look a hostname up by.
pub fn lookup_key(name: &str) -> (r: String)
    ensures
        r@ == lookup_key_text(name@),
{
    let v = chars_of(name);
    if has_char(&v, ':') {
        string_from_chars(&v)
    } else {
        let mut w = v;
        push_str(&mut w, ":80");
        string_from_chars(&w)
    }
}

/// What a hostname lookup comes to: the addresses it found; an error when it
/// found none or failed (with the resolver's error text).
pub open spec fn lookup_result(name: Seq<char>, answer: Result<Seq<IpAddress>, Seq<char>>) -> Result<
    Seq<IpAddress>,
    Seq<char>,
> {
    match answer {
        Ok(v) => if v.len() > 0 {
            Ok(v)
        } else {
            Err("Could not resolve hostname: "@ + name)
        },
        Err(e) => Err("Failed to resolve target '"@ + name + "': "@ + e),
    }
}

/// Decides what the answer of a hostname lookup means for the scan.
pub fn lookup_outcome(name: &str, answer: Result<Vec<IpAddress>, String>) -> (r: Result<
    Vec<IpAddress>,
    String,
>)
    ensures
        match (r, lookup_result(
            name@,
            match answer {
                Ok(v) => Ok(v@),
                Err(e) => Err(e@),
            },
        )) {
            (Ok(v), Ok(w)) => v@ == w,
            (Err(e), Err(m)) => e@ == m,
            _ => false,
        },
{
    match answer {
        Ok(v) => {
            if v.len() > 0 {
                Ok(v)
            } else {
                let mut m: Vec<char> = Vec::new();
                push_str(&mut m, "Could not resolve hostname: ");
                push_str(&mut m, name);
                Err(string_from_chars(&m))
            }
        },
        Err(e) => {
            let mut m: Vec<char> = Vec::new();
            push_str(&mut m, "Failed to resolve target '");
            push_str(&mut m, name);
            push_str(&mut m, "': ");
            push_str(&mut m, e.as_str());
            Err(string_from_chars(&m))
        },
    }
}

/// `Vec::dedup`: each run of equal consecutive addresses collapsed to one.
pub open spec fn dedup_runs(s: Seq<IpAddress>) -> Seq<IpAddress>
    decreases s.len(),
{
    if s.len() == 0 {
        Seq::empty()
    } else {
        let r = dedup_runs(s.drop_last());
        if r.len() > 0 && r.last() == s.last() {
            r
        } else {
            r.push(s.last())
        }
    }
}

/// Removes consecutive repeats from the collected addresses, keeping their order.
pub fn dedup_ips(v: &Vec<IpAddress>) -> (r: Vec<IpAddress>)
    ensures
        r@ == dedup_runs(v@),
{
    let mut out: Vec<IpAddress> = Vec::new();
    let mut i: usize = 0;
    while i < v.len()
        invariant
            i <= v@.len(),
            out@ == dedup_runs(v@.take(i as int)),
        decreases v@.len() - i,
    {
        assert(v@.take(i + 1).drop_last() =~= v@.take(i as int));
        let x = v[i];
        let n = out.len();
        if n > 0 && out[n - 1] == x {
        } else {
            out.push(x);
        }
        i += 1;
    }
    assert(v@.take(v@.len() as int) =~= v@);
    out
}

/// The target strings (trimmed) that name hosts rather than an address or a CIDR
/// network, in order: what DNS record queries can run against.
pub open spec fn hostname_texts(ts: Seq<Seq<char>>) -> Seq<Seq<char>>
    decreases ts.len(),
{
    if ts.len() == 0 {
        Seq::empty()
    } else {
        let r = hostname_texts(ts.drop_last());
        let t = trim(ts.last());
        if t.len() > 0 && parsed_ip(t) is None && ip_net_parsed(t) is None {
            r.push(t)
        } else {
            r
        }
    }
}

/// Filters target strings down to hostnames: trimmed, not blank, neither an IP
/// address nor a CIDR network.
pub fn hostname_targets(target_strings: &Vec<String>) -> (r: Vec<String>)
    ensures
        r@.map_values(|s: String| s@) == hostname_texts(target_strings@.map_values(|s: String| s@)),
{
    let ghost ts = target_strings@.map_values(|s: String| s@);
    let mut out: Vec<String> = Vec::new();
    let mut i: usize = 0;
    while i < target_strings.len()
        invariant
            i <= target_strings@.len(),
            ts == target_strings@.map_values(|s: String| s@),
            out@.map_values(|s: String| s@) == hostname_texts(ts.take(i as int)),
        decreases target_strings@.len() - i,
    {
        assert(ts.take(i + 1).drop_last() =~= ts.take(i as int));
        assert(ts.take(i + 1).last() == target_strings@[i as int]@);
        let t = trim_str(target_strings[i].as_str());
        let tv = chars_of(t.as_str());
        if tv.len() > 0 && parse_ip(t.as_str()).is_none() && parse_ip_net(t.as_str()).is_none() {
            let ghost before = out@;
            let ghost tt = t@;
            out.push(t);
            assert(out@.map_values(|s: String| s@) =~= before.map_values(|s: String| s@).push(tt));
        }
        i += 1;
    }
    assert(ts.take(target_strings@.len() as int) =~= ts);
    out
}


/// After collapsing runs, no address directly follows an equal one.
pub proof fn lemma_dedup_no_adjacent_repeats(s: Seq<IpAddress>)
    ensures
        forall|i: int| 0 <= i < dedup_runs(s).len() - 1 ==> #[trigger] dedup_runs(s)[i] != dedup_runs(s)[i + 1],
    decreases s.len(),
{
    if s.len() > 0 {
        lemma_dedup_no_adjacent_repeats(s.drop_last());
        let r = dedup_runs(s.drop_last());
        if !(r.len() > 0 && r.last() == s.last()) {
            let t = r.push(s.last());
            assert forall|i: int| 0 <= i < t.len() - 1 implies #[trigger] t[i] != t[i + 1] by {
                if i < r.len() - 1 {
                    assert(t[i] == r[i] && t[i + 1] == r[i + 1]);
                } else {
                    assert(t[i] == r.last());
                }
            }
        }
    }
}

/// Collapsing runs keeps exactly the addresses there were.
pub proof fn lemma_dedup_same_addresses(s: Seq<IpAddress>)
    ensures
        forall|x: IpAddress| #[trigger] dedup_runs(s).contains(x) <==> s.contains(x),
    decreases s.len(),
{
    if s.len() > 0 {
        let init = s.drop_last();
        lemma_dedup_same_addresses(init);
        let r = dedup_runs(init);
        assert forall|x: IpAddress| #[trigger] dedup_runs(s).contains(x) <==> s.contains(x) by {
            assert(s.contains(x) <==> (init.contains(x) || x == s.last())) by {
                if s.contains(x) {
                    let k = choose|k: int| 0 <= k < s.len() && s[k] == x;
                    if k < s.len() - 1 {
                        assert(init[k] == x);
                    }
                }
                if init.contains(x) {
                    let k = choose|k: int| 0 <= k < init.len() && init[k] == x;
                    assert(s[k] == x);
                }
                if x == s.last() {
                    assert(s[s.len() - 1] == x);
                }
            }
            if r.len() > 0 && r.last() == s.last() {
                if x == s.last() {
                    assert(r[r.len() - 1] == x);
                }
            } else {
                let t = r.push(s.last());
                if t.contains(x) {
                    let k = choose|k: int| 0 <= k < t.len() && t[k] == x;
                    if k < r.len() {
                        assert(r[k] == x);
                    }
                }
                if r.contains(x) {
                    let k = choose|k: int| 0 <= k < r.len() && r[k] == x;
                    assert(t[k] == x);
                }
                if x == s.last() {
                    assert(t[r.len() as int] == x);
                }
            }
        }
    }
}

/// What hostname filtering keeps are names: not blank, neither an address nor a
/// CIDR network.
pub proof fn lemma_hostname_texts_are_names(ts: Seq<Seq<char>>)
    ensures
        forall|i: int|
            0 <= i < hostname_texts(ts).len() ==> {
                let t = #[trigger] hostname_texts(ts)[i];
                &&& t.len() > 0
                &&& parsed_ip(t) is None
                &&& ip_net_parsed(t) is None
            },
    decreases ts.len(),
{
    if ts.len() > 0 {
        lemma_hostname_texts_are_names(ts.drop_last());
    }
}

} // verus!
