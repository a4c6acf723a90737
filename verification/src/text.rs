//! Character-level text utilities shared by the parsers and report builders.
//!
//! Strings are handled as `Seq<char>` in specifications and as `Vec<char>`
//! while they are being taken apart or assembled.

use vstd::prelude::*;

verus! {

// ---------------------------------------------------------------------------
// Character classes
// ---------------------------------------------------------------------------

/// Unicode `White_Space` (what `char::is_whitespace` tests).
pub open spec fn is_ws(c: char) -> bool {
    let u = c as u32;
    ||| 0x09 <= u <= 0x0d
    ||| u == 0x20
    ||| u == 0x85
    ||| u == 0xa0
    ||| u == 0x1680
    ||| 0x2000 <= u <= 0x200a
    ||| u == 0x2028
    ||| u == 0x2029
    ||| u == 0x202f
    ||| u == 0x205f
    ||| u == 0x3000
}

/// General category `Cc` (what `char::is_control` tests).
pub open spec fn is_control(c: char) -> bool {
    let u = c as u32;
    u <= 0x1f || (0x7f <= u <= 0x9f)
}

/// A carriage return or a line feed.
pub open spec fn is_line_break(c: char) -> bool {
    c == '\r' || c == '\n'
}

pub fn char_is_ws(c: char) -> (b: bool)
    ensures
        b == is_ws(c),
{
    let u = c as u32;
    (0x09 <= u && u <= 0x0d) || u == 0x20 || u == 0x85 || u == 0xa0 || u == 0x1680 || (0x2000 <= u
        && u <= 0x200a) || u == 0x2028 || u == 0x2029 || u == 0x202f || u == 0x205f || u == 0x3000
}

pub fn char_is_control(c: char) -> (b: bool)
    ensures
        b == is_control(c),
{
    let u = c as u32;
    u <= 0x1f || (0x7f <= u && u <= 0x9f)
}

// ---------------------------------------------------------------------------
// Searching
// ---------------------------------------------------------------------------

/// The least index `i` with `from <= i < end` and `pred(i)`, or `end` when there is none.
pub open spec fn first_index_from(from: int, end: int, pred: spec_fn(int) -> bool) -> int
    decreases end - from,
{
    if from >= end {
        end
    } else if pred(from) {
        from
    } else {
        first_index_from(from + 1, end, pred)
    }
}

/// The greatest index `i` with `i < to` and `pred(i)`, or `-1` when there is none
/// (indices below zero are not considered).
pub open spec fn last_index_below(to: int, pred: spec_fn(int) -> bool) -> int
    decreases to,
{
    if to <= 0 {
        -1
    } else if pred(to - 1) {
        to - 1
    } else {
        last_index_below(to - 1, pred)
    }
}

pub proof fn lemma_first_index_bounds(from: int, end: int, pred: spec_fn(int) -> bool)
    requires
        from <= end,
    ensures
        from <= first_index_from(from, end, pred) <= end,
        first_index_from(from, end, pred) < end ==> pred(first_index_from(from, end, pred)),
        forall|k: int| from <= k < first_index_from(from, end, pred) ==> !#[trigger] pred(k),
    decreases end - from,
{
    if from < end && !pred(from) {
        lemma_first_index_bounds(from + 1, end, pred);
    }
}

pub proof fn lemma_last_index_bounds(to: int, pred: spec_fn(int) -> bool)
    requires
        0 <= to,
    ensures
        -1 <= last_index_below(to, pred) < to,
        last_index_below(to, pred) >= 0 ==> pred(last_index_below(to, pred)),
        forall|k: int| last_index_below(to, pred) < k < to ==> !#[trigger] pred(k),
    decreases to,
{
    if to > 0 && !pred(to - 1) {
        lemma_last_index_bounds(to - 1, pred);
    }
}

/// Position predicate: the character at `i` is not whitespace.
pub open spec fn visible_at(s: Seq<char>) -> spec_fn(int) -> bool {
    |i: int| !is_ws(s[i])
}

/// Position predicate: the character at `i` is a line break.
pub open spec fn break_at(s: Seq<char>) -> spec_fn(int) -> bool {
    |i: int| is_line_break(s[i])
}

/// Position predicate: `pat` occurs in `s` starting at `i`.
pub open spec fn occurs_at<A>(s: Seq<A>, pat: Seq<A>) -> spec_fn(int) -> bool {
    |i: int| s.subrange(i, i + pat.len()) == pat
}

/// `pat` occurs somewhere in `s`.
pub open spec fn seq_contains<A>(s: Seq<A>, pat: Seq<A>) -> bool {
    exists|i: int| 0 <= i <= s.len() - pat.len() && #[trigger] s.subrange(i, i + pat.len()) == pat
}

/// The first position at which `pat` occurs in `s`, when it occurs.
pub open spec fn find_seq<A>(s: Seq<A>, pat: Seq<A>) -> Option<int> {
    find_from(s, 0, pat)
}

pub open spec fn starts_with<A>(s: Seq<A>, pat: Seq<A>) -> bool {
    pat.len() <= s.len() && s.take(pat.len() as int) == pat
}

pub open spec fn ends_with<A>(s: Seq<A>, pat: Seq<A>) -> bool {
    pat.len() <= s.len() && s.skip(s.len() - pat.len()) == pat
}

/// Does `pat` occur in `s` at position `i`?
pub fn matches_at_chars(s: &Vec<char>, i: usize, pat: &Vec<char>) -> (b: bool)
    ensures
        b == (i + pat@.len() <= s@.len() && s@.subrange(i as int, i + pat@.len()) == pat@),
{
    if pat.len() > s.len() || i > s.len() - pat.len() {
        return false;
    }
    let mut k: usize = 0;
    while k < pat.len()
        invariant
            i + pat@.len() <= s@.len(),
            s@.len() == s.len(),
            k <= pat@.len(),
            forall|j: int| 0 <= j < k ==> s@[i + j] == pat@[j],
        decreases pat@.len() - k,
    {
        if s[i + k] != pat[k] {
            assert(s@.subrange(i as int, i + pat@.len())[k as int] != pat@[k as int]);
            return false;
        }
        k += 1;
    }
    assert(s@.subrange(i as int, i + pat@.len()) =~= pat@);
    true
}

/// Finds the first occurrence of `pat` in `s` at or after position `from`.
pub fn find_chars_from(s: &Vec<char>, from: usize, pat: &Vec<char>) -> (r: Option<usize>)
    requires
        from <= s@.len(),
    ensures
        r == (if pat@.len() <= s@.len() && first_index_from(
            from as int,
            s@.len() - pat@.len() + 1,
            occurs_at(s@, pat@),
        ) < s@.len() - pat@.len() + 1 {
            Some(
                first_index_from(from as int, s@.len() - pat@.len() + 1, occurs_at(s@, pat@)) as usize,
            )
        } else {
            None::<usize>
        }),
        match r {
            Some(i) => find_from(s@, from as int, pat@) == Some(i as int),
            None => find_from(s@, from as int, pat@) is None,
        },
        r matches Some(i) ==> from <= i && i + pat@.len() <= s@.len() && s@.subrange(
            i as int,
            i + pat@.len(),
        ) == pat@,
{
    if pat.len() > s.len() {
        return None;
    }
    let last = s.len() - pat.len();
    let ghost end = last + 1;
    let ghost p = occurs_at(s@, pat@);
    proof {
        if from <= end {
            lemma_first_index_bounds(from as int, end as int, p);
        }
    }
    let mut i = from;
    loop
        invariant
            from <= i,
            last == s@.len() - pat@.len(),
            end == last + 1,
            pat@.len() <= s@.len(),
            p == occurs_at(s@, pat@),
            i <= end ==> first_index_from(from as int, end as int, p) == first_index_from(i as int, end as int, p),
            i > end ==> i == from && first_index_from(from as int, end as int, p) == end,
        decreases last + 1 - i,
    {
        if i > last {
            return None;
        }
        if matches_at_chars(s, i, pat) {
            return Some(i);
        }
        assert(!p(i as int));
        if i == last {
            assert(first_index_from((i + 1) as int, end as int, p) == end);
            return None;
        }
        i += 1;
    }
}

/// Does `pat` occur in `s` at position `i`?
pub fn matches_at_bytes(s: &Vec<u8>, i: usize, pat: &Vec<u8>) -> (b: bool)
    ensures
        b == (i + pat@.len() <= s@.len() && s@.subrange(i as int, i + pat@.len()) == pat@),
{
    if pat.len() > s.len() || i > s.len() - pat.len() {
        return false;
    }
    let mut k: usize = 0;
    while k < pat.len()
        invariant
            i + pat@.len() <= s@.len(),
            s@.len() == s.len(),
            k <= pat@.len(),
            forall|j: int| 0 <= j < k ==> s@[i + j] == pat@[j],
        decreases pat@.len() - k,
    {
        if s[i + k] != pat[k] {
            assert(s@.subrange(i as int, i + pat@.len())[k as int] != pat@[k as int]);
            return false;
        }
        k += 1;
    }
    assert(s@.subrange(i as int, i + pat@.len()) =~= pat@);
    true
}

/// Finds the first occurrence of `pat` in `s` at or after position `from`.
pub fn find_bytes_from(s: &Vec<u8>, from: usize, pat: &Vec<u8>) -> (r: Option<usize>)
    requires
        from <= s@.len(),
    ensures
        r == (if pat@.len() <= s@.len() && first_index_from(
            from as int,
            s@.len() - pat@.len() + 1,
            occurs_at(s@, pat@),
        ) < s@.len() - pat@.len() + 1 {
            Some(
                first_index_from(from as int, s@.len() - pat@.len() + 1, occurs_at(s@, pat@)) as usize,
            )
        } else {
            None::<usize>
        }),
        r matches Some(i) ==> from <= i && i + pat@.len() <= s@.len() && s@.subrange(
            i as int,
            i + pat@.len(),
        ) == pat@,
{
    if pat.len() > s.len() {
        return None;
    }
    let last = s.len() - pat.len();
    let ghost end = last + 1;
    let ghost p = occurs_at(s@, pat@);
    let mut i = from;
    loop
        invariant
            from <= i,
            last == s@.len() - pat@.len(),
            end == last + 1,
            pat@.len() <= s@.len(),
            p == occurs_at(s@, pat@),
            i <= end ==> first_index_from(from as int, end as int, p) == first_index_from(i as int, end as int, p),
            i > end ==> i == from && first_index_from(from as int, end as int, p) == end,
        decreases last + 1 - i,
    {
        if i > last {
            return None;
        }
        if matches_at_bytes(s, i, pat) {
            return Some(i);
        }
        assert(!p(i as int));
        if i == last {
            assert(first_index_from((i + 1) as int, end as int, p) == end);
            return None;
        }
        i += 1;
    }
}


// ---------------------------------------------------------------------------
// Copying and assembling
// ---------------------------------------------------------------------------

/// The characters of a string slice, in a vector.
pub fn chars_of(s: &str) -> (v: Vec<char>)
    ensures
        v@ == s@,
{
    let mut v: Vec<char> = Vec::new();
    for c in it: s.chars()
        invariant
            it.seq() == s@,
            v@ == it.seq().take(it.index() as int),
    {
        v.push(c);
    }
    v
}

/// Copies `v[a..b]`.
pub fn copy_range<T: Copy>(v: &Vec<T>, a: usize, b: usize) -> (r: Vec<T>)
    requires
        a <= b <= v@.len(),
    ensures
        r@ == v@.subrange(a as int, b as int),
{
    let mut r: Vec<T> = Vec::new();
    let mut i = a;
    while i < b
        invariant
            a <= i <= b <= v@.len(),
            r@ == v@.subrange(a as int, i as int),
        decreases b - i,
    {
        r.push(v[i]);
        assert(r@ =~= v@.subrange(a as int, i + 1));
        i += 1;
    }
    r
}

/// Appends the characters of `s` to `out`.
pub fn push_str(out: &mut Vec<char>, s: &str)
    ensures
        final(out)@ == old(out)@ + s@,
{
    let cs = chars_of(s);
    let ghost start = out@;
    let mut i: usize = 0;
    while i < cs.len()
        invariant
            i <= cs@.len(),
            cs@ == s@,
            out@ == start + cs@.take(i as int),
        decreases cs@.len() - i,
    {
        out.push(cs[i]);
        assert(out@ =~= start + cs@.take(i + 1));
        i += 1;
    }
    assert(cs@.take(cs@.len() as int) =~= cs@);
}

/// Appends a sequence of characters held in a vector.
pub fn push_chars(out: &mut Vec<char>, cs: &Vec<char>)
    ensures
        final(out)@ == old(out)@ + cs@,
{
    let ghost start = out@;
    let mut i: usize = 0;
    while i < cs.len()
        invariant
            i <= cs@.len(),
            out@ == start + cs@.take(i as int),
        decreases cs@.len() - i,
    {
        out.push(cs[i]);
        assert(out@ =~= start + cs@.take(i + 1));
        i += 1;
    }
    assert(cs@.take(cs@.len() as int) =~= cs@);
}

/// `String::from_iter` over the characters of `cs`.
#[verifier::external_body]
pub(crate) fn string_from_chars(cs: &Vec<char>) -> (s: String)
    ensures
        s@ == cs@,
{
    String::from_iter(cs.iter())
}

/// The characters of `s` followed by those of `t`, as a new string.
pub fn concat_str(s: &str, t: &str) -> (r: String)
    ensures
        r@ == s@ + t@,
{
    let mut v = chars_of(s);
    push_str(&mut v, t);
    string_from_chars(&v)
}

// ---------------------------------------------------------------------------
// Case mapping (Unicode tables of the standard library)
// ---------------------------------------------------------------------------

/// What `str::to_lowercase` returns for a string with these characters.
pub uninterp spec fn lower_text(s: Seq<char>) -> Seq<char>;

/// What `str::to_uppercase` returns for a string with these characters.
pub uninterp spec fn upper_text(s: Seq<char>) -> Seq<char>;

/// Every character is ASCII.
pub open spec fn is_ascii_text(s: Seq<char>) -> bool {
    forall|i: int| 0 <= i < s.len() ==> (#[trigger] s[i] as u32) < 128
}

/// ASCII lower case: `A`..`Z` become `a`..`z`, every other character stays.
pub open spec fn ascii_lower(c: char) -> char {
    if 'A' <= c <= 'Z' {
        ((c as u32) + 32) as char
    } else {
        c
    }
}

/// ASCII upper case: `a`..`z` become `A`..`Z`, every other character stays.
pub open spec fn ascii_upper(c: char) -> char {
    if 'a' <= c <= 'z' {
        ((c as u32) - 32) as char
    } else {
        c
    }
}

/// `str::to_lowercase`: its result is named `lower_text` of the input's characters;
/// the Unicode mapping itself is not restated here, only what it does to ASCII
/// text (the Unicode lower case of an ASCII letter is its ASCII lower case, and
/// other ASCII characters have none).
#[verifier::external_body]
pub(crate) fn to_lowercase(s: &str) -> (r: String)
    ensures
        r@ == lower_text(s@),
        is_ascii_text(s@) ==> r@ == s@.map_values(|c: char| ascii_lower(c)),
{
    s.to_lowercase()
}

/// `str::to_uppercase`: its result is named `upper_text` of the input's characters;
/// the Unicode mapping itself is not restated here, only what it does to ASCII
/// text (as for `to_lowercase`).
#[verifier::external_body]
pub(crate) fn to_uppercase(s: &str) -> (r: String)
    ensures
        r@ == upper_text(s@),
        is_ascii_text(s@) ==> r@ == s@.map_values(|c: char| ascii_upper(c)),
{
    s.to_uppercase()
}

/// Does `s` contain `pat`?
pub fn contains_str(s: &str, pat: &str) -> (b: bool)
    ensures
        b == seq_contains(s@, pat@),
{
    let sv = chars_of(s);
    let pv = chars_of(pat);
    let r = find_chars_from(&sv, 0, &pv);
    proof {
        let end = sv@.len() - pv@.len() + 1;
        if pv@.len() <= sv@.len() {
            lemma_first_index_bounds(0, end, occurs_at(sv@, pv@));
            let f = first_index_from(0, end, occurs_at(sv@, pv@));
            if f < end {
                assert(sv@.subrange(f, f + pv@.len()) == pv@);
            } else {
                assert forall|i: int| 0 <= i <= sv@.len() - pv@.len() implies #[trigger] sv@.subrange(
                    i,
                    i + pv@.len(),
                ) != pv@ by {
                    assert(!occurs_at(sv@, pv@)(i));
                }
            }
        }
    }
    r.is_some()
}

/// Does `s` start with `pat`?
pub fn starts_with_str(s: &str, pat: &str) -> (b: bool)
    ensures
        b == starts_with(s@, pat@),
{
    let sv = chars_of(s);
    let pv = chars_of(pat);
    let b = matches_at_chars(&sv, 0, &pv);
    proof {
        if pv@.len() <= sv@.len() {
            assert(sv@.subrange(0, pv@.len() as int) =~= sv@.take(pv@.len() as int));
        }
    }
    b
}

// ---------------------------------------------------------------------------
// Trimming and single-line sanitizing
// ---------------------------------------------------------------------------

/// `str::trim`: the characters between the first and the last non-whitespace one.
pub open spec fn trim(s: Seq<char>) -> Seq<char> {
    let a = first_index_from(0, s.len() as int, visible_at(s));
    if a == s.len() {
        Seq::empty()
    } else {
        s.subrange(a, last_index_below(s.len() as int, visible_at(s)) + 1)
    }
}

/// `trim` of a vector of characters.
pub fn trim_chars(s: &Vec<char>) -> (r: Vec<char>)
    ensures
        r@ == trim(s@),
{
    let ghost p = visible_at(s@);
    let n = s.len();
    let mut a: usize = 0;
    while a < n && char_is_ws(s[a])
        invariant
            a <= n == s@.len(),
            p == visible_at(s@),
            first_index_from(0, n as int, p) == first_index_from(a as int, n as int, p),
        decreases n - a,
    {
        a += 1;
    }
    if a == n {
        return Vec::new();
    }
    assert(p(a as int));
    let mut b: usize = n;
    while !char_is_ws(s[b - 1]) == false
        invariant
            a < b <= n == s@.len(),
            p == visible_at(s@),
            p(a as int),
            last_index_below(n as int, p) == last_index_below(b as int, p),
        decreases b,
    {
        b -= 1;
    }
    copy_range(s, a, b)
}

/// `str::trim` of a string.
pub fn trim_str(s: &str) -> (r: String)
    ensures
        r@ == trim(s@),
{
    let v = chars_of(s);
    let t = trim_chars(&v);
    string_from_chars(&t)
}

/// The first line (split at CR or LF) holding a non-whitespace character, trimmed;
/// empty when the text holds no such character.
pub open spec fn first_content_line(raw: Seq<char>) -> Seq<char> {
    let p = first_index_from(0, raw.len() as int, visible_at(raw));
    if p == raw.len() {
        Seq::empty()
    } else {
        trim(raw.subrange(p, first_index_from(p, raw.len() as int, break_at(raw))))
    }
}

/// Every control character replaced by a space.
pub open spec fn neutralize_controls(s: Seq<char>) -> Seq<char> {
    s.map_values(|c: char| if is_control(c) { ' ' } else { c })
}

/// At most `max` characters: a longer text keeps its first `max - 3` characters
/// (none when `max < 3`) followed by `...`.
pub open spec fn cap_length(s: Seq<char>, max: nat) -> Seq<char> {
    if s.len() > max {
        s.take(if max >= 3 { max - 3 } else { 0 }) + seq!['.', '.', '.']
    } else {
        s
    }
}

/// A raw network reply reduced to one printable, length-capped line.
pub open spec fn clean_line(raw: Seq<char>, max: nat) -> Seq<char> {
    cap_length(trim(neutralize_controls(first_content_line(raw))), max)
}

/// Reduces a raw reply to a single printable line: the first line holding a
/// non-whitespace character, trimmed, with control characters (terminal escapes
/// included) turned into spaces, trimmed again and capped at `max` characters.
pub fn sanitize_line(raw: &str, max: usize) -> (r: String)
    ensures
        r@ == clean_line(raw@, max as nat),
{
    let v = chars_of(raw);
    let n = v.len();
    let ghost vis = visible_at(v@);
    let ghost brk = break_at(v@);
    let mut p: usize = 0;
    while p < n && char_is_ws(v[p])
        invariant
            p <= n == v@.len(),
            vis == visible_at(v@),
            first_index_from(0, n as int, vis) == first_index_from(p as int, n as int, vis),
        decreases n - p,
    {
        p += 1;
    }
    let line: Vec<char> = if p == n {
        Vec::new()
    } else {
        let mut b: usize = p;
        while b < n && v[b] != '\r' && v[b] != '\n'
            invariant
                p <= b <= n == v@.len(),
                brk == break_at(v@),
                first_index_from(p as int, n as int, brk) == first_index_from(b as int, n as int, brk),
            decreases n - b,
        {
            b += 1;
        }
        let seg = copy_range(&v, p, b);
        trim_chars(&seg)
    };
    assert(line@ == first_content_line(v@));
    let mut mapped: Vec<char> = Vec::new();
    let mut i: usize = 0;
    while i < line.len()
        invariant
            i <= line@.len(),
            mapped@ == neutralize_controls(line@).take(i as int),
        decreases line@.len() - i,
    {
        let c = line[i];
        let d = if char_is_control(c) { ' ' } else { c };
        mapped.push(d);
        assert(mapped@ =~= neutralize_controls(line@).take(i + 1));
        i += 1;
    }
    assert(mapped@ =~= neutralize_controls(line@));
    let t = trim_chars(&mapped);
    if t.len() > max {
        let keep = if max >= 3 { max - 3 } else { 0 };
        let mut out = copy_range(&t, 0, keep);
        out.push('.');
        out.push('.');
        out.push('.');
        assert(out@ =~= t@.take(keep as int) + seq!['.', '.', '.']);
        string_from_chars(&out)
    } else {
        string_from_chars(&t)
    }
}

// ---------------------------------------------------------------------------
// Numbers as text
// ---------------------------------------------------------------------------

/// The decimal digit for `d` (`0 <= d < 10`).
pub open spec fn digit_char(d: int) -> char {
    (48 + d) as char
}

/// The lower-case hexadecimal digit for `d` (`0 <= d < 16`).
pub open spec fn hex_char(d: int) -> char {
    if d < 10 {
        (48 + d) as char
    } else {
        (87 + d) as char
    }
}

/// Decimal notation of a natural number, without leading zeros.
pub open spec fn dec_text(n: nat) -> Seq<char>
    decreases n,
{
    if n < 10 {
        seq![digit_char(n as int)]
    } else {
        dec_text(n / 10).push(digit_char((n % 10) as int))
    }
}

/// Decimal notation of an integer, with a leading `-` when negative.
pub open spec fn signed_dec_text(i: int) -> Seq<char> {
    if i < 0 {
        seq!['-'] + dec_text((-i) as nat)
    } else {
        dec_text(i as nat)
    }
}

/// Exactly four lower-case hexadecimal digits (`{:04x}` of a `u16`).
pub open spec fn hex4_text(v: u16) -> Seq<char> {
    seq![
        hex_char((v / 4096) as int),
        hex_char(((v / 256) % 16) as int),
        hex_char(((v / 16) % 16) as int),
        hex_char((v % 16) as int),
    ]
}

fn digit(d: u64) -> (c: char)
    requires
        d < 10,
    ensures
        c == digit_char(d as int),
{
    ((48 + d) as u8) as char
}

fn hex_digit(d: u16) -> (c: char)
    requires
        d < 16,
    ensures
        c == hex_char(d as int),
{
    if d < 10 {
        ((48 + d) as u8) as char
    } else {
        ((87 + d) as u8) as char
    }
}

/// Appends the decimal notation of `n`.
pub fn push_decimal(out: &mut Vec<char>, n: u64)
    ensures
        final(out)@ == old(out)@ + dec_text(n as nat),
    decreases n,
{
    if n >= 10 {
        push_decimal(out, n / 10);
    }
    out.push(digit(n % 10));
    proof {
        if n >= 10 {
            assert(final(out)@ =~= old(out)@ + dec_text(n as nat));
        } else {
            assert(final(out)@ =~= old(out)@ + dec_text(n as nat));
        }
    }
}

/// Appends the decimal notation of a signed integer.
pub fn push_signed_decimal(out: &mut Vec<char>, i: i64)
    ensures
        final(out)@ == old(out)@ + signed_dec_text(i as int),
{
    if i < 0 {
        out.push('-');
        let m: u64 = (-(i as i128)) as u64;
        push_decimal(out, m);
        assert(final(out)@ =~= old(out)@ + signed_dec_text(i as int));
    } else {
        push_decimal(out, i as u64);
    }
}

/// Appends four lower-case hexadecimal digits.
pub fn push_hex4(out: &mut Vec<char>, v: u16)
    ensures
        final(out)@ == old(out)@ + hex4_text(v),
{
    out.push(hex_digit(v / 4096));
    out.push(hex_digit((v / 256) % 16));
    out.push(hex_digit((v / 16) % 16));
    out.push(hex_digit(v % 16));
    assert(final(out)@ =~= old(out)@ + hex4_text(v));
}

/// `u64`'s `Display`: its decimal notation.
pub fn u64_text(n: u64) -> (s: String)
    ensures
        s@ == dec_text(n as nat),
{
    let mut v: Vec<char> = Vec::new();
    push_decimal(&mut v, n);
    assert(v@ =~= dec_text(n as nat));
    string_from_chars(&v)
}


// ---------------------------------------------------------------------------
// Splitting
// ---------------------------------------------------------------------------

/// `str::split` at every occurrence of `sep`: the pieces between separators,
/// empty pieces included (one piece for a text without `sep`).
pub open spec fn split_char(s: Seq<char>, sep: char) -> Seq<Seq<char>>
    decreases s.len(),
{
    if s.len() == 0 {
        seq![Seq::empty()]
    } else {
        let init = split_char(s.drop_last(), sep);
        if s.last() == sep {
            init.push(Seq::empty())
        } else {
            init.update(init.len() - 1, init.last().push(s.last()))
        }
    }
}

/// The views of a vector of character vectors.
pub open spec fn views(v: Seq<Vec<char>>) -> Seq<Seq<char>> {
    v.map_values(|x: Vec<char>| x@)
}

/// Splits at every occurrence of `sep`.
pub fn split_chars(s: &Vec<char>, sep: char) -> (r: Vec<Vec<char>>)
    ensures
        views(r@) == split_char(s@, sep),
{
    let mut parts: Vec<Vec<char>> = Vec::new();
    let mut cur: Vec<char> = Vec::new();
    let mut i: usize = 0;
    assert(s@.take(0) =~= Seq::<char>::empty());
    assert(views(parts@).push(cur@) =~= split_char(s@.take(0), sep));
    while i < s.len()
        invariant
            i <= s@.len(),
            views(parts@).push(cur@) == split_char(s@.take(i as int), sep),
        decreases s@.len() - i,
    {
        let c = s[i];
        let ghost before = views(parts@).push(cur@);
        assert(s@.take(i + 1).drop_last() =~= s@.take(i as int));
        assert(s@.take(i + 1).last() == c);
        if c == sep {
            parts.push(cur);
            cur = Vec::new();
            assert(views(parts@).push(cur@) =~= before.push(Seq::empty()));
        } else {
            cur.push(c);
            assert(views(parts@).push(cur@) =~= before.update(before.len() - 1, before.last().push(c)));
        }
        i += 1;
    }
    assert(s@.take(s@.len() as int) =~= s@);
    parts.push(cur);
    parts
}

/// The number of times `c` occurs in `s`.
pub open spec fn count_char(s: Seq<char>, c: char) -> nat
    decreases s.len(),
{
    if s.len() == 0 {
        0
    } else {
        count_char(s.drop_last(), c) + if s.last() == c { 1nat } else { 0nat }
    }
}

pub proof fn lemma_split_len(s: Seq<char>, sep: char)
    ensures
        split_char(s, sep).len() == count_char(s, sep) + 1,
    decreases s.len(),
{
    if s.len() > 0 {
        lemma_split_len(s.drop_last(), sep);
    }
}

/// Does the vector hold `c`?
pub fn has_char(s: &Vec<char>, c: char) -> (b: bool)
    ensures
        b == s@.contains(c),
{
    let mut i: usize = 0;
    while i < s.len()
        invariant
            i <= s@.len(),
            forall|j: int| 0 <= j < i ==> s@[j] != c,
        decreases s@.len() - i,
    {
        if s[i] == c {
            assert(s@[i as int] == c);
            return true;
        }
        i += 1;
    }
    false
}

// ---------------------------------------------------------------------------
// Unsigned decimal parsing (`str::parse::<u16>`)
// ---------------------------------------------------------------------------

pub open spec fn is_digit(c: char) -> bool {
    '0' <= c <= '9'
}

/// The value of a string of decimal digits.
pub open spec fn digits_value(d: Seq<char>) -> nat
    decreases d.len(),
{
    if d.len() == 0 {
        0
    } else {
        digits_value(d.drop_last()) * 10 + ((d.last() as u32) - 48) as nat
    }
}

/// Every character is an ASCII digit.
pub open spec fn all_digits(d: Seq<char>) -> bool {
    forall|i: int| 0 <= i < d.len() ==> is_digit(#[trigger] d[i])
}

/// The text after an optional leading `+`.
pub open spec fn unsigned_digits(s: Seq<char>) -> Seq<char> {
    if s.len() > 0 && s[0] == '+' {
        s.drop_first()
    } else {
        s
    }
}

/// `str::parse::<u16>`: an optional `+`, then one or more ASCII digits whose value
/// fits in 16 bits.
pub open spec fn parse_u16_text(s: Seq<char>) -> Option<u16> {
    let d = unsigned_digits(s);
    if d.len() > 0 && all_digits(d) && digits_value(d) <= 65535 {
        Some(digits_value(d) as u16)
    } else {
        None
    }
}

proof fn lemma_digits_value_grows(d: Seq<char>, i: int)
    requires
        0 <= i <= d.len(),
        forall|j: int| 0 <= j < d.len() ==> is_digit(#[trigger] d[j]),
    ensures
        digits_value(d.take(i)) <= digits_value(d),
    decreases d.len() - i,
{
    if i < d.len() {
        lemma_digits_value_grows(d, i + 1);
        assert(d.take(i + 1).drop_last() =~= d.take(i));
    } else {
        assert(d.take(i) =~= d);
    }
}

/// Parses a 16-bit unsigned number as `str::parse::<u16>` does.
pub fn parse_u16_chars(s: &Vec<char>) -> (r: Option<u16>)
    ensures
        r == parse_u16_text(s@),
{
    let start: usize = if s.len() > 0 && s[0] == '+' { 1 } else { 0 };
    let ghost d = unsigned_digits(s@);
    assert(d =~= s@.skip(start as int));
    if start >= s.len() {
        return None;
    }
    let mut v: u32 = 0;
    let mut i = start;
    while i < s.len()
        invariant
            start <= i <= s@.len(),
            d == s@.skip(start as int),
            d == unsigned_digits(s@),
            forall|j: int| 0 <= j < i - start ==> is_digit(#[trigger] d[j]),
            v == digits_value(d.take(i - start)),
            v <= 65535,
        decreases s@.len() - i,
    {
        let c = s[i];
        assert(d[i - start] == c);
        if !('0' <= c && c <= '9') {
            assert(!is_digit(d[i - start]));
            assert(!all_digits(d));
            assert(d == unsigned_digits(s@));
            assert(parse_u16_text(s@) is None);
            return None;
        }
        assert(d.take(i - start + 1).drop_last() =~= d.take(i - start));
        assert(d.take(i - start + 1).last() == c);
        let nv = v * 10 + ((c as u32) - 48);
        assert(nv == digits_value(d.take(i - start + 1)));
        if nv > 65535 {
            proof {
                if forall|j: int| 0 <= j < d.len() ==> is_digit(#[trigger] d[j]) {
                    lemma_digits_value_grows(d, i - start + 1);
                    assert(digits_value(d) > 65535);
                }
            }
            return None;
        }
        v = nv;
        i += 1;
    }
    assert(d.take(d.len() as int) =~= d);
    Some(v as u16)
}


/// Do the two strings hold the same characters?
pub fn str_eq(a: &str, b: &str) -> (r: bool)
    ensures
        r == (a@ == b@),
{
    let x = chars_of(a);
    let y = chars_of(b);
    if x.len() != y.len() {
        return false;
    }
    let r = matches_at_chars(&x, 0, &y);
    assert(x@.subrange(0, y@.len() as int) =~= x@);
    r
}


/// The texts one after another with `sep` between each two.
pub open spec fn join_with(items: Seq<Seq<char>>, sep: Seq<char>) -> Seq<char>
    decreases items.len(),
{
    if items.len() == 0 {
        Seq::empty()
    } else if items.len() == 1 {
        items[0]
    } else {
        join_with(items.drop_last(), sep) + sep + items.last()
    }
}

pub proof fn lemma_join_with_push(items: Seq<Seq<char>>, sep: Seq<char>, i: int)
    requires
        0 <= i < items.len(),
    ensures
        join_with(items.take(i + 1), sep) == if i == 0 {
            items[0]
        } else {
            join_with(items.take(i), sep) + sep + items[i]
        },
{
    assert(items.take(i + 1).drop_last() =~= items.take(i));
    if i == 0 {
        assert(items.take(1).len() == 1);
    }
}

/// Joins the strings of a list with `sep` between each two.
pub fn join_strings(items: &Vec<String>, sep: &str) -> (r: String)
    ensures
        r@ == join_with(items@.map_values(|s: String| s@), sep@),
{
    let ghost tv = items@.map_values(|s: String| s@);
    let mut out: Vec<char> = Vec::new();
    let mut i: usize = 0;
    while i < items.len()
        invariant
            i <= items@.len(),
            tv == items@.map_values(|s: String| s@),
            out@ == join_with(tv.take(i as int), sep@),
        decreases items@.len() - i,
    {
        proof {
            lemma_join_with_push(tv, sep@, i as int);
        }
        if i > 0 {
            push_str(&mut out, sep);
        }
        push_str(&mut out, items[i].as_str());
        assert(tv[i as int] == items@[i as int]@);
        i += 1;
    }
    assert(tv.take(items@.len() as int) =~= tv);
    string_from_chars(&out)
}

/// A line taken from between two line feeds: without the carriage return that
/// ended it, if any.
pub open spec fn strip_cr(l: Seq<char>) -> Seq<char> {
    if l.len() > 0 && l.last() == '\r' {
        l.drop_last()
    } else {
        l
    }
}

/// `str::lines`: the pieces between line feeds, each without a carriage return
/// before its line feed; a last piece after the final line feed counts only when
/// it is not empty, and keeps any carriage return it ends with.
pub open spec fn text_lines(s: Seq<char>) -> Seq<Seq<char>> {
    let parts = split_char(s, '\n');
    let ended = parts.drop_last().map_values(|l: Seq<char>| strip_cr(l));
    if parts.last().len() == 0 {
        ended
    } else {
        ended.push(parts.last())
    }
}

fn strip_cr_chars(l: &Vec<char>) -> (r: Vec<char>)
    ensures
        r@ == strip_cr(l@),
{
    let n = l.len();
    if n > 0 && l[n - 1] == '\r' {
        copy_range(l, 0, n - 1)
    } else {
        copy_range(l, 0, n)
    }
}

/// Splits a text into its lines, as `str::lines` does.
pub fn split_lines(s: &str) -> (r: Vec<String>)
    ensures
        r@.map_values(|x: String| x@) == text_lines(s@),
{
    let v = chars_of(s);
    let parts = split_chars(&v, '\n');
    proof {
        lemma_split_len(s@, '\n');
    }
    let ghost pv = views(parts@);
    let ghost ended = pv.drop_last().map_values(|l: Seq<char>| strip_cr(l));
    let n = parts.len();
    let mut out: Vec<String> = Vec::new();
    let mut i: usize = 0;
    while i + 1 < n
        invariant
            n == parts@.len() >= 1,
            i < n,
            pv == views(parts@),
            ended == pv.drop_last().map_values(|l: Seq<char>| strip_cr(l)),
            out@.map_values(|x: String| x@) == ended.take(i as int),
        decreases n - i,
    {
        let l = strip_cr_chars(&parts[i]);
        assert(pv[i as int] == parts@[i as int]@);
        assert(ended[i as int] == strip_cr(pv[i as int]));
        let st = string_from_chars(&l);
        let ghost before = out@;
        out.push(st);
        assert(out@ == before.push(st));
        assert(out@.map_values(|x: String| x@) =~= before.map_values(|x: String| x@).push(st@));
        assert(ended.take(i + 1) =~= ended.take(i as int).push(ended[i as int]));
        i += 1;
    }
    assert(ended.take(i as int) =~= ended);
    if parts[n - 1].len() > 0 {
        out.push(string_from_chars(&parts[n - 1]));
        assert(out@.map_values(|x: String| x@) =~= ended.push(pv.last()));
    }
    out
}

// ---------------------------------------------------------------------------
// Finding text
// ---------------------------------------------------------------------------

/// The first position at or after `from` where `pat` occurs in `s`, as
/// `str::find` on the rest of a string reports it (in characters here).
pub open spec fn find_from<A>(s: Seq<A>, from: int, pat: Seq<A>) -> Option<int> {
    let end = s.len() - pat.len() + 1;
    let i = first_index_from(from, end, occurs_at(s, pat));
    if pat.len() <= s.len() && i < end {
        Some(i)
    } else {
        None
    }
}

// ---------------------------------------------------------------------------
// Decoding bytes
// ---------------------------------------------------------------------------

/// What `String::from_utf8_lossy` returns for these bytes.
pub uninterp spec fn lossy_text(b: Seq<u8>) -> Seq<char>;

/// The characters of ASCII bytes.
pub open spec fn ascii_chars(b: Seq<u8>) -> Seq<char> {
    b.map_values(|x: u8| x as char)
}

/// `String::from_utf8_lossy`: the bytes decoded as UTF-8, each invalid sequence
/// replaced by U+FFFD. The result is named `lossy_text` of the bytes; the
/// contract adds what the documentation makes plain for ASCII input, which is
/// valid UTF-8 standing for those very characters.
#[verifier::external_body]
pub fn utf8_lossy(bytes: &[u8]) -> (r: String)
    ensures
        r@ == lossy_text(bytes@),
        (forall|i: int| 0 <= i < bytes@.len() ==> bytes@[i] < 128) ==> r@ == ascii_chars(bytes@),
{
    String::from_utf8_lossy(bytes).into_owned()
}

/// Position predicate: the character at `i` is not `c`.
pub open spec fn other_than_at(s: Seq<char>, c: char) -> spec_fn(int) -> bool {
    |i: int| s[i] != c
}

/// `str::trim_matches(c)`: the text without the copies of `c` at either end.
pub open spec fn trim_char(s: Seq<char>, c: char) -> Seq<char> {
    let a = first_index_from(0, s.len() as int, other_than_at(s, c));
    if a == s.len() {
        Seq::empty()
    } else {
        s.subrange(a, last_index_below(s.len() as int, other_than_at(s, c)) + 1)
    }
}

/// Removes the copies of `c` at both ends.
pub fn trim_char_chars(s: &Vec<char>, c: char) -> (r: Vec<char>)
    ensures
        r@ == trim_char(s@, c),
{
    let ghost p = other_than_at(s@, c);
    let n = s.len();
    let mut a: usize = 0;
    while a < n && s[a] == c
        invariant
            a <= n == s@.len(),
            p == other_than_at(s@, c),
            first_index_from(0, n as int, p) == first_index_from(a as int, n as int, p),
        decreases n - a,
    {
        a += 1;
    }
    if a == n {
        return Vec::new();
    }
    assert(p(a as int));
    let mut b: usize = n;
    while s[b - 1] == c
        invariant
            a < b <= n == s@.len(),
            p == other_than_at(s@, c),
            p(a as int),
            last_index_below(n as int, p) == last_index_below(b as int, p),
        decreases b,
    {
        b -= 1;
    }
    copy_range(s, a, b)
}

// ---------------------------------------------------------------------------
// Laws of the single-line cleaning
// ---------------------------------------------------------------------------

/// No character of `s` is a control character.
pub open spec fn printable(s: Seq<char>) -> bool {
    forall|i: int| 0 <= i < s.len() ==> !is_control(#[trigger] s[i])
}

proof fn lemma_trim_keeps_printable(s: Seq<char>)
    requires
        printable(s),
    ensures
        printable(trim(s)),
{
    let n = s.len() as int;
    lemma_first_index_bounds(0, n, visible_at(s));
    let a = first_index_from(0, n, visible_at(s));
    if a < n {
        lemma_last_index_bounds(n, visible_at(s));
        let b = last_index_below(n, visible_at(s));
        assert(b >= a) by {
            if b < a {
                assert(visible_at(s)(a));
            }
        }
        let t = s.subrange(a, b + 1);
        assert forall|i: int| 0 <= i < t.len() implies !is_control(#[trigger] t[i]) by {
            assert(t[i] == s[a + i]);
        }
    }
}

/// A reply cleaned to one line (with a cap of at least 3 characters) is safe to
/// print: no control character (so no line break and no terminal escape), and
/// no longer than the cap.
pub proof fn lemma_clean_line_printable(raw: Seq<char>, max: nat)
    requires
        max >= 3,
    ensures
        printable(clean_line(raw, max)),
        clean_line(raw, max).len() <= max,
{
    let n = neutralize_controls(first_content_line(raw));
    assert(printable(n));
    lemma_trim_keeps_printable(n);
    let t = trim(n);
    if t.len() > max {
        let c = t.take(max - 3) + seq!['.', '.', '.'];
        assert forall|i: int| 0 <= i < c.len() implies !is_control(#[trigger] c[i]) by {
            if i < max - 3 {
                assert(c[i] == t[i]);
            }
        }
    }
}


/// The ends of a trimmed text are not whitespace.
proof fn lemma_trim_ends(s: Seq<char>)
    ensures
        trim(s).len() > 0 ==> !is_ws(trim(s)[0]) && !is_ws(trim(s).last()),
{
    let n = s.len() as int;
    lemma_first_index_bounds(0, n, visible_at(s));
    let a = first_index_from(0, n, visible_at(s));
    if a < n {
        lemma_last_index_bounds(n, visible_at(s));
        let b = last_index_below(n, visible_at(s));
        assert(b >= a) by {
            if b < a {
                assert(visible_at(s)(a));
            }
        }
        assert(visible_at(s)(b));
        assert(trim(s)[0] == s[a]);
        assert(trim(s).last() == s[b]);
    }
}

/// A text whose ends are not whitespace is its own trim.
pub proof fn lemma_trim_fixed(s: Seq<char>)
    requires
        s.len() == 0 || (!is_ws(s[0]) && !is_ws(s.last())),
    ensures
        trim(s) == s,
{
    let n = s.len() as int;
    if n == 0 {
        assert(trim(s) =~= s);
    } else {
        assert(visible_at(s)(0));
        assert(first_index_from(0, n, visible_at(s)) == 0);
        assert(visible_at(s)(n - 1));
        assert(last_index_below(n, visible_at(s)) == n - 1);
        assert(s.subrange(0, n) =~= s);
    }
}

/// A printable line that fits the cap and has no whitespace at its ends is
/// left as it is by the cleaning.
proof fn lemma_clean_line_fixed(c: Seq<char>, max: nat)
    requires
        printable(c),
        c.len() <= max,
        c.len() == 0 || (!is_ws(c[0]) && !is_ws(c.last())),
    ensures
        clean_line(c, max) == c,
{
    let n = c.len() as int;
    if n > 0 {
        assert(visible_at(c)(0));
        assert(first_index_from(0, n, visible_at(c)) == 0);
        lemma_first_index_bounds(0, n, break_at(c));
        let e = first_index_from(0, n, break_at(c));
        if e < n {
            assert(break_at(c)(e));
            assert(!is_control(c[e]));
        }
        assert(c.subrange(0, n) =~= c);
        lemma_trim_fixed(c);
    } else {
        assert(first_content_line(c) =~= Seq::<char>::empty());
    }
    assert(neutralize_controls(c) =~= c);
    lemma_trim_fixed(c);
}

/// The ends of a cleaned line (with a cap of at least 3 characters) are not
/// whitespace.
proof fn lemma_clean_line_ends(raw: Seq<char>, max: nat)
    requires
        max >= 3,
    ensures
        clean_line(raw, max).len() == 0 || (!is_ws(clean_line(raw, max)[0]) && !is_ws(
            clean_line(raw, max).last(),
        )),
{
    let n = neutralize_controls(first_content_line(raw));
    let t = trim(n);
    lemma_trim_ends(n);
    let c = clean_line(raw, max);
    if t.len() > max {
        assert(c == t.take(max - 3) + seq!['.', '.', '.']);
        assert(c.last() == '.');
        if max > 3 {
            assert(c[0] == t[0]);
        } else {
            assert(c[0] == '.');
        }
    }
}

/// A cleaned line (with a cap of at least 3 characters) is already trimmed.
pub proof fn lemma_clean_line_trimmed(raw: Seq<char>, max: nat)
    requires
        max >= 3,
    ensures
        trim(clean_line(raw, max)) == clean_line(raw, max),
{
    lemma_clean_line_ends(raw, max);
    lemma_trim_fixed(clean_line(raw, max));
}

/// Cleaning a reply a second time changes nothing: the cleaned line (with a cap
/// of at least 3 characters) is its own cleaning.
pub proof fn lemma_clean_line_idempotent(raw: Seq<char>, max: nat)
    requires
        max >= 3,
    ensures
        clean_line(clean_line(raw, max), max) == clean_line(raw, max),
{
    lemma_clean_line_printable(raw, max);
    lemma_clean_line_ends(raw, max);
    lemma_clean_line_fixed(clean_line(raw, max), max);
}

/// A line cleaned under a larger cap that already fits a smaller cap is what
/// cleaning under the smaller cap gives.
pub proof fn lemma_clean_line_smaller_cap(raw: Seq<char>, small: nat, large: nat)
    requires
        small <= large,
        clean_line(raw, large).len() <= small,
    ensures
        clean_line(raw, small) == clean_line(raw, large),
{
}

/// Joining two texts with a separator joins their pieces.
pub proof fn lemma_split_concat(s: Seq<char>, t: Seq<char>, sep: char)
    ensures
        split_char(s + seq![sep] + t, sep) == split_char(s, sep) + split_char(t, sep),
    decreases t.len(),
{
    let x = s + seq![sep] + t;
    if t.len() == 0 {
        assert(x.drop_last() =~= s);
        assert(t =~= Seq::<char>::empty());
        assert(split_char(t, sep) =~= seq![Seq::<char>::empty()]);
        assert(split_char(s, sep).push(Seq::<char>::empty()) =~= split_char(s, sep) + split_char(t, sep));
    } else {
        let t2 = t.drop_last();
        lemma_split_concat(s, t2, sep);
        assert(x.drop_last() =~= s + seq![sep] + t2);
        assert(x.last() == t.last());
        let a = split_char(s, sep);
        let b = split_char(t2, sep);
        lemma_split_len(t2, sep);
        if t.last() == sep {
            assert((a + b).push(Seq::<char>::empty()) =~= a + b.push(Seq::<char>::empty()));
        } else {
            assert((a + b).update((a + b).len() - 1, (a + b).last().push(t.last())) =~= a + b.update(
                b.len() - 1,
                b.last().push(t.last()),
            ));
        }
    }
}

} // verus!
