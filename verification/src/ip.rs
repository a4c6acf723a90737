//! IP addresses as numbers, their textual forms, and CIDR networks.

use vstd::prelude::*;
use crate::text::{
    all_digits, chars_of, dec_text, digits_value, find_chars_from, first_index_from, hex_char,
    is_digit, push_decimal, seq_contains, split_char, split_chars, string_from_chars, views,
    find_seq, occurs_at, lemma_first_index_bounds,
};

verus! {

/// An IPv4 or IPv6 address, held as its numeric value (the address bytes read as
/// a big-endian integer). Orders as an IP address does: every IPv4 address
/// before every IPv6 address, each family numerically.
#[derive(Debug, Clone, Copy, PartialEq, Eq, Structural, Hash)]
pub enum IpAddress {
    V4(u32),
    V6(u128),
}

impl IpAddress {
    /// The IPv4 address `a.b.c.d`.
    pub fn v4(a: u8, b: u8, c: u8, d: u8) -> (r: IpAddress)
        ensures
            r == IpAddress::V4(((a as int) * 0x1000000 + (b as int) * 0x10000 + (c as int) * 0x100
                + d as int) as u32),
    {
        IpAddress::V4((a as u32) * 0x1000000 + (b as u32) * 0x10000 + (c as u32) * 0x100 + d as u32)
    }

    /// The IPv6 address with these eight 16-bit groups.
    pub fn v6(g: [u16; 8]) -> (r: IpAddress)
        ensures
            r == IpAddress::V6(groups_value(g@) as u128),
    {
        let mut v: u128 = 0;
        let mut i: usize = 0;
        while i < 8
            invariant
                i <= 8,
                g@.len() == 8,
                v == groups_value(g@.take(i as int)),
                v < pow16(i as nat),
            decreases 8 - i,
        {
            proof {
                lemma_groups_value_take(g@, i as int);
                lemma_pow16_step(i as nat);
            }
            v = v * 65536 + g[i] as u128;
            i += 1;
        }
        assert(g@.take(8) =~= g@);
        IpAddress::V6(v)
    }
}

/// `65536^n`.
pub open spec fn pow16(n: nat) -> int
    decreases n,
{
    if n == 0 {
        1
    } else {
        65536 * pow16((n - 1) as nat)
    }
}

proof fn lemma_pow16_step(i: nat)
    requires
        i < 8,
    ensures
        pow16(i + 1) == 65536 * pow16(i),
        pow16(i + 1) <= 0x1_0000_0000_0000_0000_0000_0000_0000_0000,
    decreases i,
{
    reveal_with_fuel(pow16, 9);
    if i > 0 {
        lemma_pow16_step((i - 1) as nat);
    }
}

/// The number whose base-65536 digits, most significant first, are `g`.
pub open spec fn groups_value(g: Seq<u16>) -> int
    decreases g.len(),
{
    if g.len() == 0 {
        0
    } else {
        groups_value(g.drop_last()) * 65536 + g.last() as int
    }
}

pub proof fn lemma_groups_value_take(g: Seq<u16>, i: int)
    requires
        0 <= i < g.len(),
    ensures
        groups_value(g.take(i + 1)) == groups_value(g.take(i)) * 65536 + g[i] as int,
{
    assert(g.take(i + 1).drop_last() =~= g.take(i));
}

/// `a` orders strictly before `b`.
pub open spec fn ip_lt(a: IpAddress, b: IpAddress) -> bool {
    match (a, b) {
        (IpAddress::V4(x), IpAddress::V4(y)) => x < y,
        (IpAddress::V4(_), IpAddress::V6(_)) => true,
        (IpAddress::V6(_), IpAddress::V4(_)) => false,
        (IpAddress::V6(x), IpAddress::V6(y)) => x < y,
    }
}

pub open spec fn ip_le(a: IpAddress, b: IpAddress) -> bool {
    ip_lt(a, b) || a == b
}

pub fn ip_less(a: IpAddress, b: IpAddress) -> (r: bool)
    ensures
        r == ip_lt(a, b),
{
    match (a, b) {
        (IpAddress::V4(x), IpAddress::V4(y)) => x < y,
        (IpAddress::V4(_), IpAddress::V6(_)) => true,
        (IpAddress::V6(_), IpAddress::V4(_)) => false,
        (IpAddress::V6(x), IpAddress::V6(y)) => x < y,
    }
}

// ---------------------------------------------------------------------------
// Text
// ---------------------------------------------------------------------------

/// Lower-case hexadecimal notation without leading zeros.
pub open spec fn hex_text(n: nat) -> Seq<char>
    decreases n,
{
    if n < 16 {
        seq![hex_char(n as int)]
    } else {
        hex_text(n / 16).push(hex_char((n % 16) as int))
    }
}

/// Dotted-decimal notation of an IPv4 address.
pub open spec fn v4_text(a: u32) -> Seq<char> {
    dec_text((a / 0x1000000) as nat) + seq!['.'] + dec_text(((a / 0x10000) % 256) as nat) + seq!['.']
        + dec_text(((a / 0x100) % 256) as nat) + seq!['.'] + dec_text((a % 256) as nat)
}

/// The eight 16-bit groups of an IPv6 address, most significant first.
pub open spec fn segments(v: u128) -> Seq<u16> {
    seq![
        (v / 0x1_0000_0000_0000_0000_0000_0000_0000) as u16,
        ((v / 0x1_0000_0000_0000_0000_0000_0000) % 0x10000) as u16,
        ((v / 0x1_0000_0000_0000_0000_0000) % 0x10000) as u16,
        ((v / 0x1_0000_0000_0000_0000) % 0x10000) as u16,
        ((v / 0x1_0000_0000_0000) % 0x10000) as u16,
        ((v / 0x1_0000_0000) % 0x10000) as u16,
        ((v / 0x1_0000) % 0x10000) as u16,
        (v % 0x10000) as u16,
    ]
}

/// Groups in hexadecimal, separated by colons.
pub open spec fn join_hex(g: Seq<u16>) -> Seq<char>
    decreases g.len(),
{
    if g.len() == 0 {
        Seq::empty()
    } else if g.len() == 1 {
        hex_text(g[0] as nat)
    } else {
        join_hex(g.drop_last()) + seq![':'] + hex_text(g.last() as nat)
    }
}

/// The number of consecutive zero groups starting at `i`.
pub open spec fn zero_run(g: Seq<u16>, i: int) -> nat
    decreases g.len() - i,
{
    if 0 <= i < g.len() && g[i] == 0 {
        1 + zero_run(g, i + 1)
    } else {
        0
    }
}

pub proof fn lemma_zero_run_bound(g: Seq<u16>, i: int)
    requires
        0 <= i <= g.len(),
    ensures
        zero_run(g, i) <= g.len() - i,
    decreases g.len() - i,
{
    if i < g.len() && g[i] == 0 {
        lemma_zero_run_bound(g, i + 1);
    }
}

/// Position predicate: the zero run starting at `i` is at least as long as every other.
pub open spec fn longest_run_at(g: Seq<u16>) -> spec_fn(int) -> bool {
    |i: int| forall|j: int| 0 <= j < g.len() ==> zero_run(g, j) <= zero_run(g, i)
}

/// RFC 5952 text of an IPv6 address: IPv4-mapped addresses as `::ffff:a.b.c.d`;
/// otherwise the first of the longest runs of at least two zero groups written as
/// `::`, every other group in lower-case hexadecimal without leading zeros.
pub open spec fn v6_text(v: u128) -> Seq<char> {
    let g = segments(v);
    if v / 0x1_0000_0000 == 0xffff {
        seq![':', ':', 'f', 'f', 'f', 'f', ':'] + v4_text((v % 0x1_0000_0000) as u32)
    } else {
        let start = first_index_from(0, 8, longest_run_at(g));
        let len = zero_run(g, start);
        if len > 1 {
            join_hex(g.take(start)) + seq![':', ':'] + join_hex(g.skip(start + len))
        } else {
            join_hex(g)
        }
    }
}

/// The text of an address.
pub open spec fn ip_text(ip: IpAddress) -> Seq<char> {
    match ip {
        IpAddress::V4(a) => v4_text(a),
        IpAddress::V6(v) => v6_text(v),
    }
}

fn hex_digit16(d: u16) -> (c: char)
    requires
        d < 16,
    ensures
        c == hex_char(d as int),
{
    if d < 10 {
        ((48 + d) as u8) as char
    } else {
        ((87 + d) as u8) as char
    }
}

/// Appends the hexadecimal notation of `n`.
pub fn push_hex(out: &mut Vec<char>, n: u16)
    ensures
        final(out)@ == old(out)@ + hex_text(n as nat),
    decreases n,
{
    if n >= 16 {
        push_hex(out, n / 16);
    }
    out.push(hex_digit16(n % 16));
    assert(final(out)@ =~= old(out)@ + hex_text(n as nat));
}

/// Appends groups `g[a..b]` in hexadecimal, separated by colons.
fn push_hex_groups(out: &mut Vec<char>, g: &Vec<u16>, a: usize, b: usize)
    requires
        a <= b <= g@.len(),
    ensures
        final(out)@ == old(out)@ + join_hex(g@.subrange(a as int, b as int)),
{
    let ghost start = out@;
    let mut i = a;
    while i < b
        invariant
            a <= i <= b <= g@.len(),
            out@ == start + join_hex(g@.subrange(a as int, i as int)),
        decreases b - i,
    {
        if i > a {
            out.push(':');
        }
        push_hex(out, g[i]);
        proof {
            let s = g@.subrange(a as int, i + 1);
            assert(s.drop_last() =~= g@.subrange(a as int, i as int));
            if i == a {
                assert(s.len() == 1);
            }
        }
        assert(out@ =~= start + join_hex(g@.subrange(a as int, i + 1)));
        i += 1;
    }
}

/// Appends the dotted-decimal text of an IPv4 address.
pub fn push_v4(out: &mut Vec<char>, a: u32)
    ensures
        final(out)@ == old(out)@ + v4_text(a),
{
    push_decimal(out, (a / 0x1000000) as u64);
    out.push('.');
    push_decimal(out, ((a / 0x10000) % 256) as u64);
    out.push('.');
    push_decimal(out, ((a / 0x100) % 256) as u64);
    out.push('.');
    push_decimal(out, (a % 256) as u64);
    assert(final(out)@ =~= old(out)@ + v4_text(a));
}

/// Appends the RFC 5952 text of an IPv6 address.
pub fn push_v6(out: &mut Vec<char>, v: u128)
    ensures
        final(out)@ == old(out)@ + v6_text(v),
{
    if v / 0x1_0000_0000 == 0xffff {
        out.push(':');
        out.push(':');
        out.push('f');
        out.push('f');
        out.push('f');
        out.push('f');
        out.push(':');
        let ghost mid = out@;
        push_v4(out, (v % 0x1_0000_0000) as u32);
        assert(final(out)@ =~= old(out)@ + v6_text(v));
        return;
    }
    let g: Vec<u16> = vec![
        (v / 0x1_0000_0000_0000_0000_0000_0000_0000) as u16,
        ((v / 0x1_0000_0000_0000_0000_0000_0000) % 0x10000) as u16,
        ((v / 0x1_0000_0000_0000_0000_0000) % 0x10000) as u16,
        ((v / 0x1_0000_0000_0000_0000) % 0x10000) as u16,
        ((v / 0x1_0000_0000_0000) % 0x10000) as u16,
        ((v / 0x1_0000_0000) % 0x10000) as u16,
        ((v / 0x1_0000) % 0x10000) as u16,
        (v % 0x10000) as u16,
    ];
    assert(g@ =~= segments(v));
    let ghost gs = segments(v);
    // run lengths of zero groups, computed from the right
    let mut runs: Vec<u64> = vec![0, 0, 0, 0, 0, 0, 0, 0, 0];
    let mut i: usize = 8;
    while i > 0
        invariant
            i <= 8,
            runs@.len() == 9,
            g@ == gs,
            gs.len() == 8,
            forall|j: int| i <= j < 8 ==> runs@[j] == zero_run(gs, j),
            runs@[8] == 0,
            forall|j: int| i <= j <= 8 ==> runs@[j] <= 8 - j,
        decreases i,
    {
        i -= 1;
        assert(zero_run(gs, 8) == 0);
        assert(zero_run(gs, i as int) == if gs[i as int] == 0 { 1 + zero_run(gs, i + 1) } else { 0 });
        let r = if g[i] == 0 { runs[i + 1] + 1 } else { 0 };
        runs.set(i, r);
    }
    // the longest run
    let mut m: u64 = 0;
    let mut k: usize = 0;
    let ghost mut wit: int = 0;
    while k < 8
        invariant
            k <= 8,
            runs@.len() == 9,
            forall|j: int| 0 <= j < 8 ==> runs@[j] == zero_run(gs, j),
            forall|j: int| 0 <= j < k ==> zero_run(gs, j) <= m,
            k == 0 ==> m == 0,
            k > 0 ==> 0 <= wit < k && zero_run(gs, wit) == m,
        decreases 8 - k,
    {
        if runs[k] > m || k == 0 {
            m = runs[k];
            proof {
                wit = k as int;
            }
        }
        k += 1;
    }
    let ghost p = longest_run_at(gs);
    let mut st: usize = 0;
    while st < 8 && runs[st] != m
        invariant
            st <= 8,
            runs@.len() == 9,
            forall|j: int| 0 <= j < 8 ==> runs@[j] == zero_run(gs, j),
            forall|j: int| 0 <= j < 8 ==> zero_run(gs, j) <= m,
            exists|j: int| st <= j < 8 && zero_run(gs, j) == m,
            p == longest_run_at(gs),
            first_index_from(0, 8, p) == first_index_from(st as int, 8, p),
        decreases 8 - st,
    {
        assert(!p(st as int)) by {
            let j = choose|j: int| st <= j < 8 && zero_run(gs, j) == m;
            assert(zero_run(gs, j) > zero_run(gs, st as int));
        }
        st += 1;
    }
    assert(p(st as int));
    assert(first_index_from(st as int, 8, p) == st);
    let len = runs[st];
    proof {
        lemma_zero_run_bound(gs, st as int);
    }
    if len > 1 {
        push_hex_groups(out, &g, 0, st);
        out.push(':');
        out.push(':');
        push_hex_groups(out, &g, st + len as usize, 8);
        assert(g@.subrange(0, st as int) =~= gs.take(st as int));
        assert(g@.subrange(st + len, 8) =~= gs.skip(st + len));
        assert(final(out)@ =~= old(out)@ + v6_text(v));
    } else {
        push_hex_groups(out, &g, 0, 8);
        assert(g@.subrange(0, 8) =~= gs);
    }
}

/// Appends the text of an address.
pub fn push_ip(out: &mut Vec<char>, ip: IpAddress)
    ensures
        final(out)@ == old(out)@ + ip_text(ip),
{
    match ip {
        IpAddress::V4(a) => push_v4(out, a),
        IpAddress::V6(v) => push_v6(out, v),
    }
}

/// The text of an address, as `IpAddr`'s `Display` writes it.
pub fn ip_to_string(ip: IpAddress) -> (s: String)
    ensures
        s@ == ip_text(ip),
{
    let mut v: Vec<char> = Vec::new();
    push_ip(&mut v, ip);
    assert(v@ =~= ip_text(ip));
    string_from_chars(&v)
}


// ---------------------------------------------------------------------------
// Parsing (the grammar of `str::parse::<IpAddr>`)
// ---------------------------------------------------------------------------

pub open spec fn is_hex(c: char) -> bool {
    ('0' <= c <= '9') || ('a' <= c <= 'f') || ('A' <= c <= 'F')
}

pub open spec fn hex_value(c: char) -> int {
    if '0' <= c <= '9' {
        (c as u32) - 48
    } else if 'a' <= c <= 'f' {
        (c as u32) - 87
    } else {
        (c as u32) - 55
    }
}

/// The value of a string of hexadecimal digits.
pub open spec fn hex_digits_value(d: Seq<char>) -> int
    decreases d.len(),
{
    if d.len() == 0 {
        0
    } else {
        hex_digits_value(d.drop_last()) * 16 + hex_value(d.last())
    }
}

/// One IPv6 group: one to four hexadecimal digits (upper or lower case).
pub open spec fn h16(f: Seq<char>) -> Option<u16> {
    if 1 <= f.len() <= 4 && (forall|i: int| 0 <= i < f.len() ==> is_hex(#[trigger] f[i])) {
        Some(hex_digits_value(f) as u16)
    } else {
        None
    }
}

/// One IPv4 octet: one to three decimal digits, no leading zero unless the octet
/// is `0` itself, value at most 255.
pub open spec fn octet(f: Seq<char>) -> Option<u8> {
    if 1 <= f.len() <= 3 && all_digits(f) && !(f.len() > 1 && f[0] == '0') && digits_value(f) <= 255 {
        Some(digits_value(f) as u8)
    } else {
        None
    }
}

/// Dotted-decimal IPv4 text: exactly four octets separated by dots.
pub open spec fn v4_parse(s: Seq<char>) -> Option<u32> {
    let p = split_char(s, '.');
    if p.len() == 4 {
        match (octet(p[0]), octet(p[1]), octet(p[2]), octet(p[3])) {
            (Some(a), Some(b), Some(c), Some(d)) => Some(
                (a as int * 0x1000000 + b as int * 0x10000 + c as int * 0x100 + d as int) as u32,
            ),
            _ => None,
        }
    } else {
        None
    }
}

/// Colon-separated IPv6 groups, the last of which may instead be dotted-decimal
/// IPv4 text (counting as two groups); the flag tells whether it was.
pub open spec fn groups_text(t: Seq<char>) -> Option<(Seq<u16>, bool)> {
    let f = split_char(t, ':');
    let n = f.len();
    if n >= 1 && forall|i: int| 0 <= i < n - 1 ==> (#[trigger] h16(f[i])) is Some {
        match h16(f[n - 1]) {
            Some(_) => Some((Seq::new(n as nat, |i: int| h16(f[i])->0), false)),
            None => match v4_parse(f[n - 1]) {
                Some(a) => Some(
                    (
                        Seq::new((n - 1) as nat, |i: int| h16(f[i])->0) + seq![
                            (a / 0x10000) as u16,
                            (a % 0x10000) as u16,
                        ],
                        true,
                    ),
                ),
                None => None,
            },
        }
    } else {
        None
    }
}

/// IPv6 text: either eight groups without `::`, or groups before and after the
/// first `::` (no IPv4 part before it) totalling at most seven, the `::` standing
/// for as many zero groups as make eight.
pub open spec fn v6_parse(s: Seq<char>) -> Option<u128> {
    match find_seq(s, seq![':', ':']) {
        None => match groups_text(s) {
            Some((g, _)) => if g.len() == 8 {
                Some(groups_value(g) as u128)
            } else {
                None
            },
            None => None,
        },
        Some(k) => {
            let a = s.take(k);
            let b = s.skip(k + 2);
            let ga: Option<Seq<u16>> = if a.len() == 0 {
                Some(Seq::empty())
            } else {
                match groups_text(a) {
                    Some((g, false)) => Some(g),
                    _ => None,
                }
            };
            let gb: Option<Seq<u16>> = if b.len() == 0 {
                Some(Seq::empty())
            } else {
                match groups_text(b) {
                    Some((g, _)) => Some(g),
                    None => None,
                }
            };
            match (ga, gb) {
                (Some(x), Some(y)) => if x.len() <= 7 && y.len() <= 7 - x.len() {
                    Some(
                        groups_value(
                            x + Seq::new((8 - x.len() - y.len()) as nat, |i: int| 0u16) + y,
                        ) as u128,
                    )
                } else {
                    None
                },
                _ => None,
            }
        },
    }
}

/// `str::parse::<IpAddr>`: IPv4 text, else IPv6 text.
pub open spec fn parsed_ip(s: Seq<char>) -> Option<IpAddress> {
    match v4_parse(s) {
        Some(a) => Some(IpAddress::V4(a)),
        None => match v6_parse(s) {
            Some(v) => Some(IpAddress::V6(v)),
            None => None,
        },
    }
}

fn parse_octet(f: &Vec<char>) -> (r: Option<u8>)
    ensures
        r == octet(f@),
{
    if f.len() < 1 || f.len() > 3 {
        return None;
    }
    if f.len() > 1 && f[0] == '0' {
        return None;
    }
    let mut v: u32 = 0;
    let mut i: usize = 0;
    while i < f.len()
        invariant
            i <= f@.len() <= 3,
            forall|j: int| 0 <= j < i ==> is_digit(#[trigger] f@[j]),
            v == digits_value(f@.take(i as int)),
            v < if i == 0 { 1int } else if i == 1 { 10 } else if i == 2 { 100 } else { 1000 },
        decreases f@.len() - i,
    {
        let c = f[i];
        if !('0' <= c && c <= '9') {
            assert(!all_digits(f@));
            return None;
        }
        assert(f@.take(i + 1).drop_last() =~= f@.take(i as int));
        v = v * 10 + ((c as u32) - 48);
        i += 1;
    }
    assert(f@.take(f@.len() as int) =~= f@);
    if v > 255 {
        return None;
    }
    Some(v as u8)
}

/// Parses dotted-decimal IPv4 text.
pub fn parse_v4(s: &Vec<char>) -> (r: Option<u32>)
    ensures
        r == v4_parse(s@),
{
    let p = split_chars(s, '.');
    assert(views(p@).len() == p@.len());
    if p.len() != 4 {
        return None;
    }
    assert(views(p@)[0] == p@[0]@ && views(p@)[1] == p@[1]@ && views(p@)[2] == p@[2]@ && views(p@)[3]
        == p@[3]@);
    let a = parse_octet(&p[0]);
    let b = parse_octet(&p[1]);
    let c = parse_octet(&p[2]);
    let d = parse_octet(&p[3]);
    match (a, b, c, d) {
        (Some(a), Some(b), Some(c), Some(d)) => Some(
            (a as u32) * 0x1000000 + (b as u32) * 0x10000 + (c as u32) * 0x100 + d as u32,
        ),
        _ => None,
    }
}

fn parse_h16(f: &Vec<char>) -> (r: Option<u16>)
    ensures
        r == h16(f@),
{
    if f.len() < 1 || f.len() > 4 {
        return None;
    }
    let mut v: u32 = 0;
    let mut i: usize = 0;
    while i < f.len()
        invariant
            i <= f@.len() <= 4,
            forall|j: int| 0 <= j < i ==> is_hex(#[trigger] f@[j]),
            v == hex_digits_value(f@.take(i as int)),
            0 <= v < if i == 0 { 1int } else if i == 1 { 16 } else if i == 2 { 256 } else if i == 3 {
                4096
            } else {
                65536
            },
        decreases f@.len() - i,
    {
        let c = f[i];
        let d: u32 = if '0' <= c && c <= '9' {
            (c as u32) - 48
        } else if 'a' <= c && c <= 'f' {
            (c as u32) - 87
        } else if 'A' <= c && c <= 'F' {
            (c as u32) - 55
        } else {
            assert(!is_hex(f@[i as int]));
            return None;
        };
        assert(f@.take(i + 1).drop_last() =~= f@.take(i as int));
        v = v * 16 + d;
        i += 1;
    }
    assert(f@.take(f@.len() as int) =~= f@);
    Some(v as u16)
}

/// Colon-separated groups, the last possibly IPv4 text.
fn parse_groups(t: &Vec<char>) -> (r: Option<(Vec<u16>, bool)>)
    ensures
        match r {
            Some((g, b)) => groups_text(t@) == Some((g@, b)),
            None => groups_text(t@) is None,
        },
{
    let f = split_chars(t, ':');
    let ghost fs = split_char(t@, ':');
    assert(views(f@) == fs);
    let n = f.len();
    if n < 1 {
        return None;
    }
    let mut g: Vec<u16> = Vec::new();
    let mut i: usize = 0;
    while i < n - 1
        invariant
            n == f@.len() == fs.len(),
            views(f@) == fs,
            fs == split_char(t@, ':'),
            i <= n - 1,
            g@.len() == i,
            forall|j: int| 0 <= j < i ==> (#[trigger] h16(fs[j])) == Some(g@[j]),
        decreases n - 1 - i,
    {
        assert(views(f@)[i as int] == f@[i as int]@);
        match parse_h16(&f[i]) {
            Some(x) => g.push(x),
            None => {
                assert(h16(fs[i as int]) is None);
                assert(!(forall|j: int| 0 <= j < n - 1 ==> (#[trigger] h16(fs[j])) is Some));
                return None;
            },
        }
        i += 1;
    }
    assert(views(f@)[n - 1] == f@[n - 1]@);
    match parse_h16(&f[n - 1]) {
        Some(x) => {
            g.push(x);
            assert(g@ =~= Seq::new(n as nat, |j: int| h16(fs[j])->0));
            Some((g, false))
        },
        None => match parse_v4(&f[n - 1]) {
            Some(a) => {
                let ghost head = g@;
                assert(head =~= Seq::new((n - 1) as nat, |j: int| h16(fs[j])->0));
                g.push((a / 0x10000) as u16);
                g.push((a % 0x10000) as u16);
                assert(g@ =~= head + seq![(a / 0x10000) as u16, (a % 0x10000) as u16]);
                Some((g, true))
            },
            None => None,
        },
    }
}

fn groups_to_u128(g: &Vec<u16>) -> (v: u128)
    requires
        g@.len() == 8,
    ensures
        v == groups_value(g@),
{
    let mut v: u128 = 0;
    let mut i: usize = 0;
    while i < 8
        invariant
            i <= 8,
            g@.len() == 8,
            v == groups_value(g@.take(i as int)),
            v < pow16(i as nat),
        decreases 8 - i,
    {
        proof {
            lemma_groups_value_take(g@, i as int);
            lemma_pow16_step(i as nat);
        }
        v = v * 65536 + g[i] as u128;
        i += 1;
    }
    assert(g@.take(8) =~= g@);
    v
}

/// Parses IPv6 text.
pub fn parse_v6(s: &Vec<char>) -> (r: Option<u128>)
    ensures
        r == v6_parse(s@),
{
    let dc: Vec<char> = vec![':', ':'];
    assert(dc@ =~= seq![':', ':']);
    let k = find_chars_from(s, 0, &dc);
    let sl = s.len();
    proof {
        let pat = seq![':', ':'];
        assert(dc@ == pat);
        assert(occurs_at(s@, dc@) == occurs_at(s@, pat));
        let end = s@.len() - 2 + 1;
        let fi = first_index_from(0, end, occurs_at(s@, pat));
        if 2 <= s@.len() {
            lemma_first_index_bounds(0, end, occurs_at(s@, pat));
        }
        match k {
            Some(x) => {
                assert(fi <= sl);
                assert(x == fi);
                assert(find_seq(s@, pat) == Some(x as int));
            },
            None => {
                assert(find_seq(s@, pat) == None::<int>);
            },
        }
    }
    match k {
        None => match parse_groups(s) {
            Some((g, _)) => {
                if g.len() == 8 {
                    Some(groups_to_u128(&g))
                } else {
                    None
                }
            },
            None => None,
        },
        Some(k) => {
            let a = crate::text::copy_range(s, 0, k);
            let b = crate::text::copy_range(s, k + 2, s.len());
            assert(a@ =~= s@.take(k as int));
            assert(b@ =~= s@.skip(k + 2));
            let ga: Option<Vec<u16>> = if a.len() == 0 {
                Some(Vec::new())
            } else {
                match parse_groups(&a) {
                    Some((g, false)) => Some(g),
                    _ => None,
                }
            };
            let gb: Option<Vec<u16>> = if b.len() == 0 {
                Some(Vec::new())
            } else {
                match parse_groups(&b) {
                    Some((g, _)) => Some(g),
                    None => None,
                }
            };
            match (ga, gb) {
                (Some(x), Some(y)) => {
                    if x.len() <= 7 && y.len() <= 7 - x.len() {
                        let mut all = crate::text::copy_range(&x, 0, x.len());
                        let zeros = 8 - x.len() - y.len();
                        let mut z: usize = 0;
                        while z < zeros
                            invariant
                                z <= zeros,
                                all@ == x@ + Seq::new(z as nat, |i: int| 0u16),
                            decreases zeros - z,
                        {
                            all.push(0);
                            assert(all@ =~= x@ + Seq::new((z + 1) as nat, |i: int| 0u16));
                            z += 1;
                        }
                        let mut j: usize = 0;
                        let ghost mid = all@;
                        while j < y.len()
                            invariant
                                j <= y@.len(),
                                all@ == mid + y@.take(j as int),
                            decreases y@.len() - j,
                        {
                            all.push(y[j]);
                            assert(all@ =~= mid + y@.take(j + 1));
                            j += 1;
                        }
                        assert(y@.take(y@.len() as int) =~= y@);
                        assert(all@ =~= x@ + Seq::new(zeros as nat, |i: int| 0u16) + y@);
                        Some(groups_to_u128(&all))
                    } else {
                        None
                    }
                },
                _ => None,
            }
        },
    }
}

/// Parses an IP address as `str::parse::<IpAddr>` does.
pub fn parse_ip(s: &str) -> (r: Option<IpAddress>)
    ensures
        r == parsed_ip(s@),
{
    let v = chars_of(s);
    match parse_v4(&v) {
        Some(a) => Some(IpAddress::V4(a)),
        None => match parse_v6(&v) {
            Some(x) => Some(IpAddress::V6(x)),
            None => None,
        },
    }
}

} // verus!
