//! Reading back what is written: the text of an address parses to the address.

use vstd::prelude::*;
use crate::text::{
    all_digits, dec_text, digit_char, digits_value, find_seq, first_index_from, hex_char, is_digit,
    lemma_first_index_bounds, occurs_at, split_char,
};
use crate::ip::{
    IpAddress, groups_text, groups_value, h16, hex_digits_value, hex_text, hex_value, ip_text, is_hex,
    join_hex, lemma_groups_value_take, lemma_zero_run_bound, longest_run_at, octet, parsed_ip, segments,
    v4_parse, v4_text, v6_parse, v6_text, zero_run,
};

verus! {

/// Text without `sep` splits into itself alone.
pub proof fn lemma_split_without_sep(s: Seq<char>, sep: char)
    requires
        forall|i: int| 0 <= i < s.len() ==> s[i] != sep,
    ensures
        split_char(s, sep) == seq![s],
    decreases s.len(),
{
    if s.len() > 0 {
        assert forall|i: int| 0 <= i < s.drop_last().len() implies s.drop_last()[i] != sep by {
            assert(s.drop_last()[i] == s[i]);
        }
        lemma_split_without_sep(s.drop_last(), sep);
        assert(s[s.len() - 1] != sep);
        assert(s.drop_last().push(s.last()) =~= s);
        assert(seq![s.drop_last()].update(0, s.drop_last().push(s.last())) =~= seq![s]);
    } else {
        assert(s =~= Seq::<char>::empty());
    }
}

/// Appending a separator and a field without separators adds that field.
pub proof fn lemma_split_push_field(x: Seq<char>, y: Seq<char>, sep: char)
    requires
        forall|i: int| 0 <= i < y.len() ==> y[i] != sep,
    ensures
        split_char(x + seq![sep] + y, sep) == split_char(x, sep).push(y),
    decreases y.len(),
{
    let s = x + seq![sep] + y;
    if y.len() == 0 {
        assert(s.drop_last() =~= x);
        assert(s.last() == sep);
        assert(y =~= Seq::<char>::empty());
    } else {
        let y2 = y.drop_last();
        assert forall|i: int| 0 <= i < y2.len() implies y2[i] != sep by {
            assert(y2[i] == y[i]);
        }
        lemma_split_push_field(x, y2, sep);
        assert(y[y.len() - 1] != sep);
        assert(y2.push(y.last()) =~= y);
        assert(s.drop_last() =~= x + seq![sep] + y2);
        assert(s.last() == y.last());
        let init = split_char(x, sep).push(y2);
        assert(init.update(init.len() - 1, init.last().push(y.last())) =~= split_char(x, sep).push(y));
    }
}

/// Decimal text: digits only, at most as many as the number needs, no leading
/// zero, and its value is the number.
pub proof fn lemma_dec_text(n: nat)
    ensures
        dec_text(n).len() >= 1,
        all_digits(dec_text(n)),
        digits_value(dec_text(n)) == n,
        n >= 1 ==> dec_text(n)[0] != '0',
        n < 10 ==> dec_text(n).len() == 1,
        n < 100 ==> dec_text(n).len() <= 2,
        n < 1000 ==> dec_text(n).len() <= 3,
    decreases n,
{
    let t = dec_text(n);
    if n < 10 {
        assert(digit_char(n as int) as u32 == 48 + n);
        assert(t == seq![digit_char(n as int)]);
        assert(t.drop_last() =~= Seq::<char>::empty());
        assert(digits_value(Seq::<char>::empty()) == 0);
        assert(digits_value(t) == digits_value(t.drop_last()) * 10 + ((t.last() as u32) - 48) as nat);
    } else {
        lemma_dec_text(n / 10);
        let u = dec_text(n / 10);
        let c = digit_char((n % 10) as int);
        assert(t == u.push(c));
        assert(t.drop_last() =~= u);
        assert(c as u32 == 48 + n % 10);
        assert(n == (n / 10) * 10 + n % 10);
        assert(digits_value(t) == digits_value(u) * 10 + n % 10);
        assert(t[0] == u[0]);
        assert forall|i: int| 0 <= i < t.len() implies is_digit(#[trigger] t[i]) by {
            if i < u.len() {
                assert(t[i] == u[i]);
            }
        }
    }
}

/// The octet text of a number below 256 reads back as that number.
pub proof fn lemma_octet_text(n: u8)
    ensures
        octet(dec_text(n as nat)) == Some(n),
{
    lemma_dec_text(n as nat);
}

/// Dotted-decimal text reads back as the address.
pub proof fn lemma_v4_text_parses(a: u32)
    ensures
        v4_parse(v4_text(a)) == Some(a),
{
    let o1 = (a / 0x1000000) as u8;
    let o2 = ((a / 0x10000) % 256) as u8;
    let o3 = ((a / 0x100) % 256) as u8;
    let o4 = (a % 256) as u8;
    assert(a / 0x1000000 < 256);
    let d1 = dec_text(o1 as nat);
    let d2 = dec_text(o2 as nat);
    let d3 = dec_text(o3 as nat);
    let d4 = dec_text(o4 as nat);
    lemma_dec_text(o1 as nat);
    lemma_dec_text(o2 as nat);
    lemma_dec_text(o3 as nat);
    lemma_dec_text(o4 as nat);
    assert(v4_text(a) == d1 + seq!['.'] + d2 + seq!['.'] + d3 + seq!['.'] + d4);
    lemma_split_without_sep(d1, '.');
    lemma_split_push_field(d1, d2, '.');
    lemma_split_push_field(d1 + seq!['.'] + d2, d3, '.');
    lemma_split_push_field(d1 + seq!['.'] + d2 + seq!['.'] + d3, d4, '.');
    let p = split_char(v4_text(a), '.');
    assert(p =~= seq![d1, d2, d3, d4]);
    lemma_octet_text(o1);
    lemma_octet_text(o2);
    lemma_octet_text(o3);
    lemma_octet_text(o4);
    assert(a == (a / 0x1000000) * 0x1000000 + ((a / 0x10000) % 256) * 0x10000 + ((a / 0x100) % 256)
        * 0x100 + (a % 256)) by (bit_vector);
}

/// A hexadecimal digit character: a hexadecimal digit of that value.
pub proof fn lemma_hex_char(d: int)
    requires
        0 <= d < 16,
    ensures
        is_hex(hex_char(d)),
        hex_value(hex_char(d)) == d,
{
    if d < 10 {
        assert(hex_char(d) as u32 == 48 + d);
    } else {
        assert(hex_char(d) as u32 == 87 + d);
    }
}

/// Hexadecimal text: hexadecimal digits only, at most as many as the number
/// needs, and its value is the number.
pub proof fn lemma_hex_text(n: nat)
    ensures
        hex_text(n).len() >= 1,
        forall|i: int| 0 <= i < hex_text(n).len() ==> is_hex(#[trigger] hex_text(n)[i]),
        hex_digits_value(hex_text(n)) == n,
        n < 16 ==> hex_text(n).len() == 1,
        n < 256 ==> hex_text(n).len() <= 2,
        n < 4096 ==> hex_text(n).len() <= 3,
        n < 65536 ==> hex_text(n).len() <= 4,
    decreases n,
{
    let t = hex_text(n);
    if n < 16 {
        lemma_hex_char(n as int);
        assert(t == seq![hex_char(n as int)]);
        assert(t.drop_last() =~= Seq::<char>::empty());
        assert(hex_digits_value(Seq::<char>::empty()) == 0);
        assert(hex_digits_value(t) == hex_digits_value(t.drop_last()) * 16 + hex_value(t.last()));
    } else {
        lemma_hex_text(n / 16);
        lemma_hex_char((n % 16) as int);
        let u = hex_text(n / 16);
        let c = hex_char((n % 16) as int);
        assert(t == u.push(c));
        assert(t.drop_last() =~= u);
        assert(n == (n / 16) * 16 + n % 16);
        assert(hex_digits_value(t) == hex_digits_value(u) * 16 + n % 16);
        assert forall|i: int| 0 <= i < t.len() implies is_hex(#[trigger] t[i]) by {
            if i < u.len() {
                assert(t[i] == u[i]);
            }
        }
    }
}

/// The hexadecimal text of a group reads back as that group.
pub proof fn lemma_h16_text(n: u16)
    ensures
        h16(hex_text(n as nat)) == Some(n),
{
    lemma_hex_text(n as nat);
}

/// The hexadecimal texts of groups.
pub open spec fn hex_fields(g: Seq<u16>) -> Seq<Seq<char>> {
    g.map_values(|x: u16| hex_text(x as nat))
}

/// What colon-joined groups look like: one field per group, hexadecimal digits
/// and colons only, a digit at each end, and never two colons in a row.
pub proof fn lemma_join_hex(g: Seq<u16>)
    requires
        g.len() >= 1,
    ensures
        split_char(join_hex(g), ':') == hex_fields(g),
        join_hex(g).len() >= 1,
        forall|i: int| 0 <= i < join_hex(g).len() ==> is_hex(#[trigger] join_hex(g)[i]) || join_hex(g)[i] == ':',
        is_hex(join_hex(g)[0]),
        is_hex(join_hex(g).last()),
        forall|i: int| 0 <= i < join_hex(g).len() - 1 ==> !(#[trigger] join_hex(g)[i] == ':' && join_hex(g)[i + 1] == ':'),
    decreases g.len(),
{
    let s = join_hex(g);
    if g.len() == 1 {
        lemma_hex_text(g[0] as nat);
        assert(s == hex_text(g[0] as nat));
        lemma_split_without_sep(s, ':');
        assert(hex_fields(g) =~= seq![s]);
    } else {
        let h = g.drop_last();
        lemma_join_hex(h);
        let t = join_hex(h);
        let u = hex_text(g.last() as nat);
        lemma_hex_text(g.last() as nat);
        assert(s == t + seq![':'] + u);
        lemma_split_push_field(t, u, ':');
        assert(hex_fields(h).push(u) =~= hex_fields(g));
        assert forall|i: int| 0 <= i < s.len() implies is_hex(#[trigger] s[i]) || s[i] == ':' by {
            if i < t.len() {
                assert(s[i] == t[i]);
            } else if i > t.len() {
                assert(s[i] == u[i - t.len() - 1]);
            }
        }
        assert(s[0] == t[0]);
        assert(s.last() == u.last());
        assert(u.last() == u[u.len() - 1]);
        assert forall|i: int| 0 <= i < s.len() - 1 implies !(#[trigger] s[i] == ':' && s[i + 1] == ':') by {
            if i < t.len() - 1 {
                assert(s[i] == t[i] && s[i + 1] == t[i + 1]);
            } else if i == t.len() - 1 {
                assert(s[i] == t.last());
            } else if i == t.len() {
                assert(s[i + 1] == u[0]);
            } else {
                assert(s[i] == u[i - t.len() - 1]);
            }
        }
    }
}

/// Colon-joined groups read back as those groups.
pub proof fn lemma_groups_text_join(g: Seq<u16>)
    requires
        g.len() >= 1,
    ensures
        groups_text(join_hex(g)) == Some((g, false)),
{
    lemma_join_hex(g);
    let f = split_char(join_hex(g), ':');
    let n = f.len();
    assert(n == g.len());
    assert forall|i: int| 0 <= i < n implies #[trigger] h16(f[i]) == Some(g[i]) by {
        assert(f[i] == hex_text(g[i] as nat));
        lemma_h16_text(g[i]);
    }
    assert(h16(f[n - 1]) == Some(g[n - 1]));
    assert(Seq::new(n as nat, |i: int| h16(f[i])->0) =~= g);
}

/// Two colons in a row at `k`.
pub open spec fn double_colon_at(s: Seq<char>, k: int) -> bool {
    s[k] == ':' && s[k + 1] == ':'
}

/// Where `::` occurs in text: at `k` exactly when both characters are colons.
proof fn lemma_occurs_double_colon(s: Seq<char>, k: int)
    requires
        0 <= k <= s.len() - 2,
    ensures
        occurs_at(s, seq![':', ':'])(k) <==> double_colon_at(s, k),
{
    let sub = s.subrange(k, k + 2);
    if double_colon_at(s, k) {
        assert(sub =~= seq![':', ':']);
    }
    if sub == seq![':', ':'] {
        assert(sub[0] == s[k] && sub[1] == s[k + 1]);
    }
}

/// Text with no two colons in a row has no `::`.
pub proof fn lemma_no_double_colon(s: Seq<char>)
    requires
        forall|i: int| 0 <= i < s.len() - 1 ==> !#[trigger] double_colon_at(s, i),
    ensures
        find_seq(s, seq![':', ':']) is None,
{
    let pat = seq![':', ':'];
    if pat.len() <= s.len() {
        let end = s.len() - pat.len() + 1;
        let pred = occurs_at(s, pat);
        lemma_first_index_bounds(0, end, pred);
        let i = first_index_from(0, end, pred);
        if i < end {
            lemma_occurs_double_colon(s, i);
            assert(!double_colon_at(s, i));
        }
    }
}

/// The first `::` in text is at `k` when there is one at `k` and none before.
pub proof fn lemma_first_double_colon(s: Seq<char>, k: int)
    requires
        0 <= k <= s.len() - 2,
        double_colon_at(s, k),
        forall|i: int| 0 <= i < k ==> !#[trigger] double_colon_at(s, i),
    ensures
        find_seq(s, seq![':', ':']) == Some(k),
{
    let pat = seq![':', ':'];
    let end = s.len() - pat.len() + 1;
    let pred = occurs_at(s, pat);
    lemma_first_index_bounds(0, end, pred);
    let i = first_index_from(0, end, pred);
    lemma_occurs_double_colon(s, k);
    if i < k {
        lemma_occurs_double_colon(s, i);
        assert(!double_colon_at(s, i));
    }
    if i > k {
        assert(!pred(k));
    }
}

/// The groups of a zero run are zero.
pub proof fn lemma_zero_run_zeros(g: Seq<u16>, i: int, j: int)
    requires
        0 <= i <= j < i + zero_run(g, i),
    ensures
        g[j] == 0,
    decreases j - i,
{
    if j > i {
        lemma_zero_run_zeros(g, i + 1, j);
    }
}

/// The value of eight groups, written out.
proof fn lemma_groups_value_eight(g: Seq<u16>)
    requires
        g.len() == 8,
    ensures
        groups_value(g) == ((((((g[0] as int * 65536 + g[1] as int) * 65536 + g[2] as int) * 65536
            + g[3] as int) * 65536 + g[4] as int) * 65536 + g[5] as int) * 65536 + g[6] as int) * 65536
            + g[7] as int,
{
    assert(g.take(0) =~= Seq::<u16>::empty());
    lemma_groups_value_take(g, 0);
    lemma_groups_value_take(g, 1);
    lemma_groups_value_take(g, 2);
    lemma_groups_value_take(g, 3);
    lemma_groups_value_take(g, 4);
    lemma_groups_value_take(g, 5);
    lemma_groups_value_take(g, 6);
    lemma_groups_value_take(g, 7);
    assert(g.take(8) =~= g);
}

/// The groups of an address make up its value.
pub proof fn lemma_segments_value(v: u128)
    ensures
        groups_value(segments(v)) == v,
{
    let g = segments(v);
    let g0: u128 = v / 0x1_0000_0000_0000_0000_0000_0000_0000;
    let g1: u128 = (v / 0x1_0000_0000_0000_0000_0000_0000) % 0x10000;
    let g2: u128 = (v / 0x1_0000_0000_0000_0000_0000) % 0x10000;
    let g3: u128 = (v / 0x1_0000_0000_0000_0000) % 0x10000;
    let g4: u128 = (v / 0x1_0000_0000_0000) % 0x10000;
    let g5: u128 = (v / 0x1_0000_0000) % 0x10000;
    let g6: u128 = (v / 0x1_0000) % 0x10000;
    let g7: u128 = v % 0x10000;
    assert(g0 < 0x10000) by (bit_vector)
        requires
            g0 == v / 0x1_0000_0000_0000_0000_0000_0000_0000,
    ;
    assert(v == ((((((g0 * 65536 + g1) * 65536 + g2) * 65536 + g3) * 65536 + g4) * 65536 + g5) * 65536 + g6)
        * 65536 + g7) by (bit_vector)
        requires
            g0 == v / 0x1_0000_0000_0000_0000_0000_0000_0000,
            g1 == (v / 0x1_0000_0000_0000_0000_0000_0000) % 0x10000,
            g2 == (v / 0x1_0000_0000_0000_0000_0000) % 0x10000,
            g3 == (v / 0x1_0000_0000_0000_0000) % 0x10000,
            g4 == (v / 0x1_0000_0000_0000) % 0x10000,
            g5 == (v / 0x1_0000_0000) % 0x10000,
            g6 == (v / 0x1_0000) % 0x10000,
            g7 == v % 0x10000,
    ;
    assert(g[0] as int == g0);
    assert(g[1] as int == g1);
    assert(g[2] as int == g2);
    assert(g[3] as int == g3);
    assert(g[4] as int == g4);
    assert(g[5] as int == g5);
    assert(g[6] as int == g6);
    assert(g[7] as int == g7);
    lemma_groups_value_eight(g);
}

/// A property of every character of two texts holds of every character of
/// their concatenation.
proof fn lemma_concat_chars(x: Seq<char>, y: Seq<char>, p: spec_fn(char) -> bool)
    requires
        forall|i: int| 0 <= i < x.len() ==> p(#[trigger] x[i]),
        forall|i: int| 0 <= i < y.len() ==> p(#[trigger] y[i]),
    ensures
        forall|i: int| 0 <= i < (x + y).len() ==> p(#[trigger] (x + y)[i]),
{
    assert forall|i: int| 0 <= i < (x + y).len() implies p(#[trigger] (x + y)[i]) by {
        if i < x.len() {
            assert((x + y)[i] == x[i]);
        } else {
            assert((x + y)[i] == y[i - x.len()]);
        }
    }
}

/// The text of an IPv4-mapped address reads back as the address, and is no
/// IPv4 text.
#[verifier::spinoff_prover]
#[verifier::rlimit(40)]
proof fn lemma_mapped_text_parses(v: u128)
    requires
        v / 0x1_0000_0000 == 0xffff,
    ensures
        v4_parse(v6_text(v)) is None,
        v6_parse(v6_text(v)) == Some(v),
{
    let lo = (v % 0x1_0000_0000) as u32;
    let w = v4_text(lo);
    let s = v6_text(v);
    let pre = seq![':', ':', 'f', 'f', 'f', 'f', ':'];
    assert(s == pre + w);
    let o1 = (lo / 0x1000000) as u8;
    let o2 = ((lo / 0x10000) % 256) as u8;
    let o3 = ((lo / 0x100) % 256) as u8;
    let o4 = (lo % 256) as u8;
    assert(lo / 0x1000000 < 256);
    let d1 = dec_text(o1 as nat);
    let d2 = dec_text(o2 as nat);
    let d3 = dec_text(o3 as nat);
    let d4 = dec_text(o4 as nat);
    lemma_dec_text(o1 as nat);
    lemma_dec_text(o2 as nat);
    lemma_dec_text(o3 as nat);
    lemma_dec_text(o4 as nat);
    assert(w == d1 + seq!['.'] + d2 + seq!['.'] + d3 + seq!['.'] + d4);
    let dot = seq!['.'];
    // Not IPv4 text: the first dotted field carries the colons.
    let first = pre + d1;
    let not_dot = |c: char| c != '.';
    lemma_concat_chars(pre, d1, not_dot);
    lemma_split_without_sep(first, '.');
    lemma_split_push_field(first, d2, '.');
    lemma_split_push_field(first + dot + d2, d3, '.');
    lemma_split_push_field(first + dot + d2 + dot + d3, d4, '.');
    assert(s =~= first + dot + d2 + dot + d3 + dot + d4);
    assert(split_char(s, '.')[0] == first);
    assert(octet(first) is None);
    // IPv6 text: `::`, then the group ffff and the IPv4 text.
    assert(double_colon_at(s, 0));
    lemma_first_double_colon(s, 0);
    let ffff = seq!['f', 'f', 'f', 'f'];
    let b = s.skip(2);
    assert(b =~= ffff + seq![':'] + w);
    let digit_or_dot = |c: char| is_digit(c) || c == '.';
    lemma_concat_chars(d1, dot, digit_or_dot);
    lemma_concat_chars(d1 + dot, d2, digit_or_dot);
    lemma_concat_chars(d1 + dot + d2, dot, digit_or_dot);
    lemma_concat_chars(d1 + dot + d2 + dot, d3, digit_or_dot);
    lemma_concat_chars(d1 + dot + d2 + dot + d3, dot, digit_or_dot);
    lemma_concat_chars(d1 + dot + d2 + dot + d3 + dot, d4, digit_or_dot);
    assert forall|i: int| 0 <= i < w.len() implies w[i] != ':' by {
        assert(digit_or_dot(w[i]));
    }
    lemma_split_without_sep(ffff, ':');
    lemma_split_push_field(ffff, w, ':');
    let f = split_char(b, ':');
    assert(f =~= seq![ffff, w]);
    assert(hex_digits_value(ffff) == 65535) by {
        assert(ffff.drop_last() =~= seq!['f', 'f', 'f']);
        assert(seq!['f', 'f', 'f'].drop_last() =~= seq!['f', 'f']);
        assert(seq!['f', 'f'].drop_last() =~= seq!['f']);
        assert(seq!['f'].drop_last() =~= Seq::<char>::empty());
        assert(hex_digits_value(Seq::<char>::empty()) == 0);
        assert(hex_digits_value(seq!['f']) == 15);
        assert(hex_digits_value(seq!['f', 'f']) == 255);
        assert(hex_digits_value(seq!['f', 'f', 'f']) == 4095);
    }
    assert(h16(f[0]) == Some(0xffffu16));
    assert(h16(f[1]) is None);
    lemma_v4_text_parses(lo);
    let y = seq![0xffffu16] + seq![(lo / 0x10000) as u16, (lo % 0x10000) as u16];
    assert(Seq::new(1, |i: int| h16(f[i])->0) =~= seq![0xffffu16]);
    assert(groups_text(b) == Some((y, true)));
    let full = Seq::<u16>::empty() + Seq::new(5, |i: int| 0u16) + y;
    assert(full.len() == 8);
    lemma_groups_value_eight(full);
    assert(lo == (lo / 0x10000) * 0x10000 + lo % 0x10000);
    assert(v == (v / 0x1_0000_0000) * 0x1_0000_0000 + v % 0x1_0000_0000);
    assert(groups_value(full) == v);
}

/// Text made of hexadecimal digits and colons splits on dots into itself alone,
/// so it is no IPv4 text.
proof fn lemma_hex_colon_not_v4(s: Seq<char>)
    requires
        forall|i: int| 0 <= i < s.len() ==> is_hex(#[trigger] s[i]) || s[i] == ':',
    ensures
        v4_parse(s) is None,
{
    assert forall|i: int| 0 <= i < s.len() implies s[i] != '.' by {
        assert(is_hex(s[i]) || s[i] == ':');
    }
    lemma_split_without_sep(s, '.');
}

/// The compressed text of an IPv6 address (a run of at least two zero groups
/// written as `::`) reads back as the address, and is no IPv4 text.
#[verifier::spinoff_prover]
#[verifier::rlimit(40)]
proof fn lemma_compressed_v6_text_parses(v: u128)
    requires
        v / 0x1_0000_0000 != 0xffff,
        zero_run(segments(v), first_index_from(0, 8, longest_run_at(segments(v)))) > 1,
    ensures
        v4_parse(v6_text(v)) is None,
        v6_parse(v6_text(v)) == Some(v),
{
    let g = segments(v);
    let p = longest_run_at(g);
    let start = first_index_from(0, 8, p);
    lemma_first_index_bounds(0, 8, p);
    let len = zero_run(g, start);
    lemma_segments_value(v);
    let hex_or_colon = |c: char| is_hex(c) || c == ':';
    lemma_zero_run_bound(g, start);
    let x = g.take(start);
    let y = g.skip(start + len);
    let pt = join_hex(x);
    let qt = join_hex(y);
    let s = pt + seq![':', ':'] + qt;
    assert(v6_text(v) == s);
    if start > 0 {
        lemma_join_hex(x);
        lemma_groups_text_join(x);
    } else {
        assert(pt =~= Seq::<char>::empty());
    }
    if start + len < 8 {
        lemma_join_hex(y);
        lemma_groups_text_join(y);
    } else {
        assert(y =~= Seq::<u16>::empty());
        assert(qt =~= Seq::<char>::empty());
    }
    // The first `::` is the one written for the run.
    let k = pt.len() as int;
    assert(s[k] == ':' && s[k + 1] == ':');
    assert forall|i: int| 0 <= i < k implies !#[trigger] double_colon_at(s, i) by {
        if i < k - 1 {
            assert(s[i] == pt[i] && s[i + 1] == pt[i + 1]);
        } else {
            assert(s[i] == pt.last());
        }
    }
    lemma_first_double_colon(s, k);
    assert(s.take(k) =~= pt);
    assert(s.skip(k + 2) =~= qt);
    // The groups around it, with the zeros between, are the address's.
    let full = x + Seq::new((8 - x.len() - y.len()) as nat, |i: int| 0u16) + y;
    assert forall|i: int| 0 <= i < 8 implies full[i] == g[i] by {
        if start <= i < start + len {
            lemma_zero_run_zeros(g, start, i);
        }
    }
    assert(full =~= g);
    // No dots anywhere.
    assert(forall|i: int| 0 <= i < pt.len() ==> hex_or_colon(#[trigger] pt[i]));
    assert(forall|i: int| 0 <= i < qt.len() ==> hex_or_colon(#[trigger] qt[i]));
    lemma_concat_chars(pt, seq![':', ':'], hex_or_colon);
    lemma_concat_chars(pt + seq![':', ':'], qt, hex_or_colon);
    lemma_hex_colon_not_v4(s);
}

/// The text of an IPv6 address that is not IPv4-mapped reads back as the
/// address, and is no IPv4 text.
#[verifier::spinoff_prover]
#[verifier::rlimit(40)]
proof fn lemma_plain_v6_text_parses(v: u128)
    requires
        v / 0x1_0000_0000 != 0xffff,
    ensures
        v4_parse(v6_text(v)) is None,
        v6_parse(v6_text(v)) == Some(v),
{
    let g = segments(v);
    let p = longest_run_at(g);
    let start = first_index_from(0, 8, p);
    lemma_first_index_bounds(0, 8, p);
    let len = zero_run(g, start);
    lemma_segments_value(v);
    if len > 1 {
        lemma_compressed_v6_text_parses(v);
    } else {
        let s = join_hex(g);
        assert(v6_text(v) == s);
        lemma_join_hex(g);
        assert forall|i: int| 0 <= i < s.len() - 1 implies !#[trigger] double_colon_at(s, i) by {}
        lemma_no_double_colon(s);
        lemma_groups_text_join(g);
        lemma_hex_colon_not_v4(s);
    }
}

/// What is written of an address reads back as that address: the text of every
/// IPv4 and IPv6 address parses to the same address.
pub proof fn lemma_ip_text_parses_back(ip: IpAddress)
    ensures
        parsed_ip(ip_text(ip)) == Some(ip),
{
    match ip {
        IpAddress::V4(a) => lemma_v4_text_parses(a),
        IpAddress::V6(v) => {
            if v / 0x1_0000_0000 == 0xffff {
                lemma_mapped_text_parses(v);
            } else {
                lemma_plain_v6_text_parses(v);
            }
        },
    }
}

} // verus!
