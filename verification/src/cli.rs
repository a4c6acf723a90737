//! Command-line options and the port-list syntax.

use vstd::prelude::*;
use crate::text::{
    chars_of, dec_text, has_char, parse_u16_chars, parse_u16_text, push_chars, push_decimal,
    push_str, split_char, split_chars, string_from_chars, trim, trim_chars, views,
    lemma_split_concat, is_digit, is_ws, lemma_trim_fixed, unsigned_digits,
};
use crate::ip_roundtrip::{lemma_dec_text, lemma_split_push_field, lemma_split_without_sep,
};

verus! {

/// The options the program is started with.
#[derive(Debug, Clone)]
pub struct Cli {
    /// Target hosts (e.g. 192.168.1.1, 10.0.0.0/24, localhost)
    pub targets: Vec<String>,
    /// Ports to scan (e.g., "80", "22,80,443", "1-65535").
    pub ports: String,
    /// Max concurrent connection attempts (semaphore limit)
    pub concurrency: usize,
    /// Target connection timeout in milliseconds
    pub timeout: u64,
    /// Save results to a file in JSON format
    pub output: Option<String>,
    /// Path to a TOML profiles config file
    pub profile_path: Option<String>,
    /// Name of the profile to use from the TOML file
    pub profile_name: Option<String>,
    /// Skip host discovery and scan all target IPs directly
    pub skip_discovery: bool,
    /// Disable ICMP ping sweeps during host discovery
    pub no_ping: bool,
    /// Use ARP requests to discover local LAN hosts before scanning
    pub arp: bool,
    /// Disable Nmap enrichment layer (force native-only mode)
    pub no_nmap: bool,
    /// Use native SYN scan
    pub syn: bool,
    /// Scan via UDP datagrams instead of TCP
    pub udp: bool,
    /// Path to custom NSE directory
    pub custom_nse_dir: String,
    /// Path to custom Lua plugins directory
    pub custom_lua_dir: String,
    /// Explicit acknowledgment that scanning every target is authorized
    pub authorized: bool,
    /// Restrict scanning to these IPs/CIDRs
    pub allow: Vec<String>,
    /// Path to a file of allowed IPs/CIDRs
    pub allow_file: Option<String>,
    /// Exclude these IPs/CIDRs from scanning
    pub deny: Vec<String>,
    /// Path to a file of denied IPs/CIDRs
    pub deny_file: Option<String>,
    /// Run DNS enumeration against hostname-form targets
    pub dns: bool,
    /// Run HTTP fingerprinting against HTTP services
    pub http: bool,
}

#[verifier::opaque]
/// What one comma-separated piece of a port list means: an inclusive range
/// (a single port `p` being the range `p..=p`), or the message it is refused with.
pub open spec fn port_part(part: Seq<char>) -> Result<(u16, u16), Seq<char>> {
    let t = trim(part);
    if t.contains('-') {
        let b = split_char(t, '-');
        if b.len() != 2 {
            Err("Invalid port range format: "@ + t)
        } else {
            match parse_u16_text(b[0]) {
                None => Err("Invalid start port: "@ + b[0]),
                Some(lo) => match parse_u16_text(b[1]) {
                    None => Err("Invalid end port: "@ + b[1]),
                    Some(hi) => if lo > hi {
                        Err(
                            "Start port "@ + dec_text(lo as nat) + " is greater than end port "@
                                + dec_text(hi as nat),
                        )
                    } else {
                        Ok((lo, hi))
                    },
                },
            }
        }
    } else {
        match parse_u16_text(t) {
            None => Err("Invalid port number: "@ + t),
            Some(p) => Ok((p, p)),
        }
    }
}

/// `p` lies in the range named by one of the pieces.
pub open spec fn port_listed(parts: Seq<Seq<char>>, p: u16) -> bool {
    exists|k: int| 0 <= k < parts.len() && #[trigger] part_holds(parts[k], p)
}

/// The piece names a range holding `p`.
pub open spec fn part_holds(part: Seq<char>, p: u16) -> bool {
    match port_part(part) {
        Ok((lo, hi)) => lo <= p <= hi,
        Err(_) => false,
    }
}

/// Some range among `rs` holds `p`.
pub open spec fn in_ranges(rs: Seq<(u16, u16)>, p: int) -> bool {
    exists|i: int| 0 <= i < rs.len() && (#[trigger] rs[i]).0 <= p <= rs[i].1
}

fn message(prefix: &str, tail: &Vec<char>) -> (m: String)
    ensures
        m@ == prefix@ + tail@,
{
    let mut v: Vec<char> = Vec::new();
    push_str(&mut v, prefix);
    push_chars(&mut v, tail);
    string_from_chars(&v)
}

/// Reads one piece of a port list.
fn parse_port_part(part: &Vec<char>) -> (r: Result<(u16, u16), String>)
    ensures
        match r {
            Ok(x) => port_part(part@) == Ok::<(u16, u16), Seq<char>>(x) && x.0 <= x.1,
            Err(m) => port_part(part@) == Err::<(u16, u16), Seq<char>>(m@),
        },
{
    reveal(port_part);
    let t = trim_chars(part);
    if has_char(&t, '-') {
        let b = split_chars(&t, '-');
        assert(views(b@).len() == b@.len());
        if b.len() != 2 {
            return Err(message("Invalid port range format: ", &t));
        }
        assert(views(b@)[0] == b@[0]@ && views(b@)[1] == b@[1]@);
        match parse_u16_chars(&b[0]) {
            None => Err(message("Invalid start port: ", &b[0])),
            Some(lo) => match parse_u16_chars(&b[1]) {
                None => Err(message("Invalid end port: ", &b[1])),
                Some(hi) => {
                    if lo > hi {
                        let mut v: Vec<char> = Vec::new();
                        push_str(&mut v, "Start port ");
                        push_decimal(&mut v, lo as u64);
                        push_str(&mut v, " is greater than end port ");
                        push_decimal(&mut v, hi as u64);
                        let m = string_from_chars(&v);
                        assert(m@ =~= "Start port "@ + dec_text(lo as nat)
                            + " is greater than end port "@ + dec_text(hi as nat));
                        Err(m)
                    } else {
                        Ok((lo, hi))
                    }
                },
            },
        }
    } else {
        match parse_u16_chars(&t) {
            None => Err(message("Invalid port number: ", &t)),
            Some(p) => Ok((p, p)),
        }
    }
}

/// Marks the ports `lo..=hi` as present.
fn mark_range(present: &mut Vec<bool>, lo: u16, hi: u16, Ghost(ranges): Ghost<Seq<(u16, u16)>>)
    requires
        lo <= hi,
        old(present)@.len() == 65536,
        forall|q: int| 0 <= q < 65536 ==> old(present)@[q] == in_ranges(ranges, q),
    ensures
        final(present)@.len() == 65536,
        forall|q: int| 0 <= q < 65536 ==> final(present)@[q] == in_ranges(ranges.push((lo, hi)), q),
{
    let mut p: u32 = lo as u32;
    while p <= hi as u32
        invariant
            lo <= p <= hi as u32 + 1,
            present@.len() == 65536,
            forall|q: int|
                0 <= q < 65536 ==> present@[q] == (in_ranges(ranges, q) || (lo <= q < p)),
        decreases hi as u32 + 1 - p,
    {
        present.set(p as usize, true);
        p += 1;
    }
    let ghost nr = ranges.push((lo, hi));
    assert forall|q: int| 0 <= q < 65536 implies present@[q] == in_ranges(nr, q) by {
        if in_ranges(ranges, q) {
            let i = choose|i: int| 0 <= i < ranges.len() && (#[trigger] ranges[i]).0 <= q <= ranges[i].1;
            assert(nr[i] == ranges[i]);
        }
        if lo <= q <= hi {
            assert(nr[ranges.len() as int] == (lo, hi));
        }
        if in_ranges(nr, q) {
            let i = choose|i: int| 0 <= i < nr.len() && (#[trigger] nr[i]).0 <= q <= nr[i].1;
            if i < ranges.len() {
                assert(nr[i] == ranges[i]);
            }
        }
    }
}

/// Every piece of a port list is a valid port or range.
pub open spec fn all_parts_valid(parts: Seq<Seq<char>>) -> bool {
    forall|k: int| 0 <= k < parts.len() ==> (#[trigger] port_part(parts[k])) is Ok
}

/// Strictly ascending.
pub open spec fn ascending(v: Seq<u16>) -> bool {
    forall|i: int, j: int| 0 <= i < j < v.len() ==> v[i] < v[j]
}

/// `v` is the port list that `text` names: every piece is valid, and `v` holds
/// each listed port once, in ascending order.
pub open spec fn port_list_of(text: Seq<char>, v: Seq<u16>) -> bool {
    let parts = split_char(text, ',');
    &&& all_parts_valid(parts)
    &&& ascending(v)
    &&& forall|p: u16| v.contains(p) <==> port_listed(parts, p)
}

/// Parses a port string of comma-separated ports and inclusive ranges
/// (e.g. `"22,80,443,1000-2000"`), each piece trimmed. Succeeds when every piece
/// is a valid port or range, with every listed port once, in ascending order;
/// otherwise fails with the message for the first piece that is not.
pub fn parse_ports(port_str: &str) -> (r: Result<Vec<u16>, String>)
    ensures
        ({
            let parts = split_char(port_str@, ',');
            match r {
                Err(m) => exists|k: int|
                    0 <= k < parts.len() && port_part(parts[k]) == Err::<(u16, u16), Seq<char>>(m@)
                        && forall|j: int| 0 <= j < k ==> (#[trigger] port_part(parts[j])) is Ok,
                Ok(v) => port_list_of(port_str@, v@),
            }
        }),
        r is Ok <==> all_parts_valid(split_char(port_str@, ',')),
{
    let s = chars_of(port_str);
    let parts = split_chars(&s, ',');
    let ghost ps = split_char(port_str@, ',');
    assert(views(parts@) == ps);
    let mut present: Vec<bool> = Vec::new();
    while present.len() < 65536
        invariant
            present@.len() <= 65536,
            forall|q: int| 0 <= q < present@.len() ==> !present@[q],
        decreases 65536 - present@.len(),
    {
        present.push(false);
    }
    let ghost mut ranges: Seq<(u16, u16)> = Seq::empty();
    let mut k: usize = 0;
    while k < parts.len()
        invariant
            k <= parts@.len(),
            views(parts@) == ps,
            ps == split_char(port_str@, ','),
            ps.len() == parts@.len(),
            present@.len() == 65536,
            ranges.len() == k,
            forall|j: int| 0 <= j < k ==> port_part(ps[j]) == Ok::<(u16, u16), Seq<char>>(
                #[trigger] ranges[j],
            ),
            forall|q: int| 0 <= q < 65536 ==> present@[q] == in_ranges(ranges, q),
        decreases parts@.len() - k,
    {
        assert(views(parts@)[k as int] == parts@[k as int]@);
        match parse_port_part(&parts[k]) {
            Err(m) => {
                assert forall|j: int| 0 <= j < k implies (#[trigger] port_part(ps[j])) is Ok by {
                    assert(port_part(ps[j]) == Ok::<(u16, u16), Seq<char>>(ranges[j]));
                }
                assert(port_part(ps[k as int]) == Err::<(u16, u16), Seq<char>>(m@));
                return Err(m);
            },
            Ok((lo, hi)) => {
                mark_range(&mut present, lo, hi, Ghost(ranges));
                proof {
                    ranges = ranges.push((lo, hi));
                }
            },
        }
        k += 1;
    }
    let mut v: Vec<u16> = Vec::new();
    let mut q: u32 = 0;
    while q < 65536
        invariant
            q <= 65536,
            present@.len() == 65536,
            forall|i: int, j: int| 0 <= i < j < v@.len() ==> v@[i] < v@[j],
            forall|i: int| 0 <= i < v@.len() ==> v@[i] < q,
            forall|x: u16| x < q ==> (v@.contains(x) <==> present@[x as int]),
            forall|x: u16| v@.contains(x) ==> x < q,
        decreases 65536 - q,
    {
        let ghost old_v = v@;
        if present[q as usize] {
            v.push(q as u16);
            assert forall|x: u16| x < q + 1 implies (v@.contains(x) <==> present@[x as int]) by {
                if v@.contains(x) {
                    let i = choose|i: int| 0 <= i < v@.len() && v@[i] == x;
                    if i < old_v.len() {
                        assert(old_v[i] == x);
                    }
                }
                if x < q && old_v.contains(x) {
                    let i = choose|i: int| 0 <= i < old_v.len() && old_v[i] == x;
                    assert(v@[i] == x);
                }
                if x == q {
                    assert(v@[old_v.len() as int] == x);
                }
            }
            assert forall|x: u16| v@.contains(x) implies x < q + 1 by {
                let i = choose|i: int| 0 <= i < v@.len() && v@[i] == x;
                if i < old_v.len() {
                    assert(old_v[i] == x);
                }
            }
        } else {
            assert forall|x: u16| x < q + 1 implies (v@.contains(x) <==> present@[x as int]) by {
                if x == q {
                    assert(!old_v.contains(x));
                }
            }
        }
        q += 1;
    }
    proof {
        assert forall|p: u16| v@.contains(p) <==> port_listed(ps, p) by {
            if in_ranges(ranges, p as int) {
                let i = choose|i: int| 0 <= i < ranges.len() && (#[trigger] ranges[i]).0 <= p <= ranges[i].1;
                assert(port_part(ps[i]) == Ok::<(u16, u16), Seq<char>>(ranges[i]));
                assert(part_holds(ps[i], p));
            }
            if port_listed(ps, p) {
                let kk = choose|kk: int| 0 <= kk < ps.len() && #[trigger] part_holds(ps[kk], p);
                assert(port_part(ps[kk]) == Ok::<(u16, u16), Seq<char>>(ranges[kk]));
            }
        }
        assert forall|kk: int| 0 <= kk < ps.len() implies (#[trigger] port_part(ps[kk])) is Ok by {
            assert(port_part(ps[kk]) == Ok::<(u16, u16), Seq<char>>(ranges[kk]));
        }
    }
    Ok(v)
}

/// Two port lists joined with a comma: the joined list is valid exactly when
/// both are, and it lists exactly the ports that either lists.
pub proof fn lemma_port_lists_join(s: Seq<char>, t: Seq<char>)
    ensures
        all_parts_valid(split_char(s + seq![','] + t, ',')) <==> (all_parts_valid(split_char(s, ','))
            && all_parts_valid(split_char(t, ','))),
        forall|p: u16|
            #![trigger port_listed(split_char(s + seq![','] + t, ','), p)]
            port_listed(split_char(s + seq![','] + t, ','), p) <==> (port_listed(split_char(s, ','), p)
                || port_listed(split_char(t, ','), p)),
{
    let a = split_char(s, ',');
    let b = split_char(t, ',');
    lemma_split_concat(s, t, ',');
    let c = split_char(s + seq![','] + t, ',');
    assert(c == a + b);
    if all_parts_valid(c) {
        assert forall|k: int| 0 <= k < a.len() implies (#[trigger] port_part(a[k])) is Ok by {
            assert(c[k] == a[k]);
        }
        assert forall|k: int| 0 <= k < b.len() implies (#[trigger] port_part(b[k])) is Ok by {
            assert(c[a.len() + k] == b[k]);
        }
    }
    if all_parts_valid(a) && all_parts_valid(b) {
        assert forall|k: int| 0 <= k < c.len() implies (#[trigger] port_part(c[k])) is Ok by {
            if k < a.len() {
                assert(c[k] == a[k]);
            } else {
                assert(c[k] == b[k - a.len()]);
            }
        }
    }
    assert forall|p: u16| port_listed(c, p) <==> (port_listed(a, p) || port_listed(b, p)) by {
        if port_listed(c, p) {
            let k = choose|k: int| 0 <= k < c.len() && #[trigger] part_holds(c[k], p);
            if k < a.len() {
                assert(c[k] == a[k]);
            } else {
                assert(c[k] == b[k - a.len()]);
            }
        }
        if port_listed(a, p) {
            let k = choose|k: int| 0 <= k < a.len() && #[trigger] part_holds(a[k], p);
            assert(c[k] == a[k]);
        }
        if port_listed(b, p) {
            let k = choose|k: int| 0 <= k < b.len() && #[trigger] part_holds(b[k], p);
            assert(c[a.len() + k] == b[k]);
        }
    }
}

/// Two ascending lists holding the same ports are the same list.
pub proof fn lemma_ascending_same_ports(a: Seq<u16>, b: Seq<u16>)
    requires
        ascending(a),
        ascending(b),
        forall|p: u16| a.contains(p) <==> b.contains(p),
    ensures
        a == b,
    decreases a.len(),
{
    if a.len() == 0 {
        if b.len() > 0 {
            assert(b.contains(b[0]));
        }
        assert(a =~= b);
    } else {
        assert(a.contains(a[0]));
        let j = choose|j: int| 0 <= j < b.len() && b[j] == a[0];
        assert(b.contains(b[0]));
        let i = choose|i: int| 0 <= i < a.len() && a[i] == b[0];
        assert(a[0] == b[0]) by {
            if i > 0 {
                assert(a[0] < a[i]);
            }
            if j > 0 {
                assert(b[0] < b[j]);
            }
        }
        let a2 = a.drop_first();
        let b2 = b.drop_first();
        assert forall|p: u16| a2.contains(p) <==> b2.contains(p) by {
            if a2.contains(p) {
                let x = choose|x: int| 0 <= x < a2.len() && a2[x] == p;
                assert(a[x + 1] == p);
                assert(a[0] < a[x + 1]);
                assert(a.contains(p));
                let y = choose|y: int| 0 <= y < b.len() && b[y] == p;
                assert(y != 0);
                assert(b2[y - 1] == p);
            }
            if b2.contains(p) {
                let x = choose|x: int| 0 <= x < b2.len() && b2[x] == p;
                assert(b[x + 1] == p);
                assert(b[0] < b[x + 1]);
                assert(b.contains(p));
                let y = choose|y: int| 0 <= y < a.len() && a[y] == p;
                assert(y != 0);
                assert(a2[y - 1] == p);
            }
        }
        lemma_ascending_same_ports(a2, b2);
        assert(a =~= seq![a[0]] + a2);
        assert(b =~= seq![b[0]] + b2);
    }
}

/// `v` is the union of the ports of `u` and `w`, each once, in ascending order.
pub open spec fn sorted_union(v: Seq<u16>, u: Seq<u16>, w: Seq<u16>) -> bool {
    &&& ascending(v)
    &&& forall|p: u16| v.contains(p) <==> (u.contains(p) || w.contains(p))
}

/// There is only one sorted union of two lists.
pub proof fn lemma_sorted_union_unique(v1: Seq<u16>, v2: Seq<u16>, u: Seq<u16>, w: Seq<u16>)
    requires
        sorted_union(v1, u, w),
        sorted_union(v2, u, w),
    ensures
        v1 == v2,
{
    lemma_ascending_same_ports(v1, v2);
}

/// Joining two valid port lists with a comma: the joined list is valid in either
/// order, and the ports it names are the sorted union of the ports of each, the
/// same list whichever comes first. So when `parse_ports` gives `u` for `s` and
/// `w` for `t`, it succeeds on `s,t` and on `t,s`, and gives for both the sorted
/// union of `u` and `w`.
pub proof fn lemma_parse_ports_join(s: Seq<char>, t: Seq<char>, u: Seq<u16>, w: Seq<u16>)
    requires
        port_list_of(s, u),
        port_list_of(t, w),
    ensures
        all_parts_valid(split_char(s + seq![','] + t, ',')),
        all_parts_valid(split_char(t + seq![','] + s, ',')),
        forall|v: Seq<u16>| #[trigger] port_list_of(s + seq![','] + t, v) <==> sorted_union(v, u, w),
        forall|v: Seq<u16>|
            #[trigger] port_list_of(s + seq![','] + t, v) <==> #[trigger] port_list_of(t + seq![','] + s, v),
{
    lemma_port_lists_join(s, t);
    lemma_port_lists_join(t, s);
    let st = s + seq![','] + t;
    let ts = t + seq![','] + s;
    assert forall|v: Seq<u16>| #[trigger] port_list_of(st, v) <==> sorted_union(v, u, w) by {
        if port_list_of(st, v) {
            assert forall|p: u16| v.contains(p) <==> (u.contains(p) || w.contains(p)) by {
                assert(port_listed(split_char(st, ','), p) <==> (port_listed(split_char(s, ','), p)
                    || port_listed(split_char(t, ','), p)));
            }
        }
        if sorted_union(v, u, w) {
            assert forall|p: u16| v.contains(p) <==> port_listed(split_char(st, ','), p) by {
                assert(port_listed(split_char(st, ','), p) <==> (port_listed(split_char(s, ','), p)
                    || port_listed(split_char(t, ','), p)));
            }
        }
    }
    assert forall|v: Seq<u16>| #[trigger] port_list_of(st, v) <==> #[trigger] port_list_of(ts, v) by {
        assert forall|p: u16| port_listed(split_char(st, ','), p) <==> port_listed(split_char(ts, ','), p) by {
            assert(port_listed(split_char(st, ','), p) <==> (port_listed(split_char(s, ','), p)
                || port_listed(split_char(t, ','), p)));
            assert(port_listed(split_char(ts, ','), p) <==> (port_listed(split_char(t, ','), p)
                || port_listed(split_char(s, ','), p)));
        }
    }
}

/// The decimal text of a number has no whitespace at its ends, no `,` and no
/// `-`, and reads back as the number.
proof fn lemma_number_text(n: u16)
    ensures
        dec_text(n as nat).len() > 0,
        forall|i: int| 0 <= i < dec_text(n as nat).len() ==> is_digit(#[trigger] dec_text(n as nat)[i]),
        trim(dec_text(n as nat)) == dec_text(n as nat),
        parse_u16_text(dec_text(n as nat)) == Some(n),
{
    let d = dec_text(n as nat);
    lemma_dec_text(n as nat);
    assert(d[0] != '+');
    assert(unsigned_digits(d) == d);
    assert(!is_ws(d[0]) && !is_ws(d.last()));
    lemma_trim_fixed(d);
}

/// Every port number, and every range of them, reads back from its decimal
/// text as itself: `str::parse::<u16>` semantics cover the whole port range up
/// to 65535, so `"n"` is the port `n` and `"lo-hi"` (with `lo <= hi`) is the
/// list of every port from `lo` to `hi`. In particular the default list
/// `1-65535` is valid and holds every port.
pub proof fn lemma_port_texts_parse(n: u16, lo: u16, hi: u16)
    ensures
        parse_u16_text(dec_text(n as nat)) == Some(n),
        port_part(dec_text(n as nat)) == Ok::<(u16, u16), Seq<char>>((n, n)),
        lo <= hi ==> port_part(dec_text(lo as nat) + seq!['-'] + dec_text(hi as nat)) == Ok::<
            (u16, u16),
            Seq<char>,
        >((lo, hi)),
        lo <= hi ==> all_parts_valid(split_char(dec_text(lo as nat) + seq!['-'] + dec_text(hi as nat), ',')),
        lo <= hi ==> forall|p: u16|
            #![trigger port_listed(split_char(dec_text(lo as nat) + seq!['-'] + dec_text(hi as nat), ','), p)]
            port_listed(split_char(dec_text(lo as nat) + seq!['-'] + dec_text(hi as nat), ','), p) <==> lo
                <= p <= hi,
{
    reveal(port_part);
    lemma_number_text(n);
    lemma_number_text(lo);
    lemma_number_text(hi);
    let d = dec_text(n as nat);
    assert(!d.contains('-'));
    let a = dec_text(lo as nat);
    let b = dec_text(hi as nat);
    let t = a + seq!['-'] + b;
    assert forall|i: int| 0 <= i < a.len() implies a[i] != '-' by {
        assert(is_digit(a[i]));
    }
    assert forall|i: int| 0 <= i < b.len() implies b[i] != '-' && b[i] != ',' by {
        assert(is_digit(b[i]));
    }
    assert forall|i: int| 0 <= i < t.len() implies !is_ws(#[trigger] t[i]) && t[i] != ',' by {
        if i < a.len() {
            assert(t[i] == a[i] && is_digit(a[i]));
        } else if i > a.len() {
            assert(t[i] == b[i - a.len() - 1] && is_digit(b[i - a.len() - 1]));
        }
    }
    assert(t.last() == t[t.len() - 1]);
    lemma_trim_fixed(t);
    assert(t[a.len() as int] == '-');
    assert(t.contains('-'));
    lemma_split_without_sep(a, '-');
    lemma_split_push_field(a, b, '-');
    assert(split_char(t, '-') =~= seq![a, b]);
    if lo <= hi {
        lemma_split_without_sep(t, ',');
        let parts = split_char(t, ',');
        assert(parts =~= seq![t]);
        assert(port_part(parts[0]) == Ok::<(u16, u16), Seq<char>>((lo, hi)));
        assert forall|p: u16| port_listed(parts, p) <==> lo <= p <= hi by {
            if lo <= p <= hi {
                assert(part_holds(parts[0], p));
            }
        }
    }
}

} // verus!
