//! Support for native script plugins: which files are plugins, which ports they
//! run against, the host functions' requests and replies, and how a plugin's
//! finding joins a port's banner. The scripts themselves run in a Lua VM.

use vstd::prelude::*;
use crate::model::{PortResult, PortStatus, PortView, TransportProtocol, opt_text};
use crate::text::{
    char_is_ws, chars_of, is_ws, parse_u16_chars, parse_u16_text, push_str, split_lines, starts_with,
    starts_with_str, string_from_chars, text_lines,
};

verus! {

/// Plugins run against open TCP ports only (they speak TCP).
pub fn wants_plugins(port_res: &PortResult) -> (b: bool)
    ensures
        b == (port_res.status == PortStatus::Open && port_res.protocol == TransportProtocol::Tcp),
{
    port_res.status == PortStatus::Open && port_res.protocol == TransportProtocol::Tcp
}

/// The extension of a file name, as `Path::extension` reads it: the text after
/// the last dot, unless that dot opens the name.
pub open spec fn extension_of(name: Seq<char>) -> Option<Seq<char>> {
    let d = crate::text::last_index_below(name.len() as int, |i: int| name[i] == '.');
    if d > 0 {
        Some(name.skip(d + 1))
    } else {
        None
    }
}

/// Is the file a Lua plugin (extension `lua`)?
pub fn is_lua_script(file_name: &str) -> (b: bool)
    ensures
        b == (extension_of(file_name@) == Some("lua"@)),
{
    let v = chars_of(file_name);
    let ghost p = |i: int| v@[i] == '.';
    let mut d: usize = v.len();
    while d > 0 && v[d - 1] != '.'
        invariant
            d <= v@.len(),
            p == (|i: int| v@[i] == '.'),
            crate::text::last_index_below(v@.len() as int, p) == crate::text::last_index_below(d as int, p),
        decreases d,
    {
        d -= 1;
    }
    proof {
        reveal_strlit("lua");
    }
    assert(file_name@ == v@);
    if d <= 1 {
        return false;
    }
    let dot = d - 1;
    let n = v.len();
    let ok = n - d == 3 && v[d] == 'l' && v[d + 1] == 'u' && v[d + 2] == 'a';
    proof {
        if ok {
            assert(v@.skip(dot + 1) =~= "lua"@);
        } else if v@.skip(dot + 1) == "lua"@ {
            assert(v@.skip(dot + 1).len() == 3);
            assert(v@.skip(dot + 1)[0] == 'l' && v@.skip(dot + 1)[1] == 'u' && v@.skip(dot + 1)[2] == 'a');
        }
    }
    ok
}

/// The timeout a plugin's host call uses: its own, else two seconds.
pub fn plugin_timeout(requested: Option<u64>) -> (t: u64)
    ensures
        t == match requested {
            Some(x) => x,
            None => 2000,
        },
{
    match requested {
        Some(x) => x,
        None => 2000,
    }
}

/// The request a plugin's `http_get(host, port, path)` sends.
pub open spec fn plugin_request_text(host: Seq<char>, path: Seq<char>) -> Seq<char> {
    "GET "@ + path + " HTTP/1.0\r\nHost: "@ + host + "\r\nUser-Agent: netenum/0.1.0\r\nConnection: close\r\n\r\n"@
}

/// Builds the request of a plugin's `http_get`.
pub fn plugin_request(host: &str, path: &str) -> (r: String)
    ensures
        r@ == plugin_request_text(host@, path@),
{
    let mut v: Vec<char> = Vec::new();
    push_str(&mut v, "GET ");
    push_str(&mut v, path);
    push_str(&mut v, " HTTP/1.0\r\nHost: ");
    push_str(&mut v, host);
    push_str(&mut v, "\r\nUser-Agent: netenum/0.1.0\r\nConnection: close\r\n\r\n");
    string_from_chars(&v)
}

/// The whitespace-separated words of a text (`str::split_whitespace`).
pub open spec fn words(s: Seq<char>) -> Seq<Seq<char>>
    decreases s.len(),
{
    if s.len() == 0 {
        Seq::empty()
    } else {
        let w = words(s.drop_last());
        let c = s.last();
        if is_ws(c) {
            w
        } else if s.len() >= 2 && !is_ws(s[s.len() - 2]) {
            w.update(w.len() - 1, w.last().push(c))
        } else {
            w.push(seq![c])
        }
    }
}

proof fn lemma_words_nonempty(s: Seq<char>)
    ensures
        s.len() > 0 && !is_ws(s.last()) ==> words(s).len() > 0,
    decreases s.len(),
{
    if s.len() > 0 {
        lemma_words_nonempty(s.drop_last());
        if !is_ws(s.last()) && s.len() >= 2 && !is_ws(s[s.len() - 2]) {
            assert(s.drop_last().last() == s[s.len() - 2]);
        }
    }
}

fn split_words(s: &Vec<char>) -> (r: Vec<Vec<char>>)
    ensures
        crate::text::views(r@) == words(s@),
{
    let mut out: Vec<Vec<char>> = Vec::new();
    let mut i: usize = 0;
    while i < s.len()
        invariant
            i <= s@.len(),
            crate::text::views(out@) == words(s@.take(i as int)),
        decreases s@.len() - i,
    {
        let c = s[i];
        let ghost t = s@.take(i + 1);
        assert(t.drop_last() =~= s@.take(i as int));
        assert(t.last() == c);
        let ghost before = crate::text::views(out@);
        if char_is_ws(c) {
        } else if i >= 1 && !char_is_ws(s[i - 1]) {
            assert(t[t.len() - 2] == s@[i - 1]);
            proof {
                lemma_words_nonempty(s@.take(i as int));
                assert(s@.take(i as int).last() == s@[i - 1]);
            }
            let last = out.len() - 1;
            let mut w = out.remove(last);
            w.push(c);
            out.push(w);
            assert(crate::text::views(out@) =~= before.update(before.len() - 1, before.last().push(c)));
        } else {
            let mut w: Vec<char> = Vec::new();
            w.push(c);
            out.push(w);
            assert(crate::text::views(out@) =~= before.push(seq![c]));
        }
        i += 1;
    }
    assert(s@.take(s@.len() as int) =~= s@);
    out
}

/// The status code of a raw HTTP reply: the second word of its first line read
/// as a number, when the reply starts with `HTTP/`; 0 otherwise.
pub open spec fn reply_status(resp: Seq<char>) -> u16 {
    if starts_with(resp, "HTTP/"@) && text_lines(resp).len() > 0 && words(text_lines(resp)[0]).len()
        >= 2 {
        match parse_u16_text(words(text_lines(resp)[0])[1]) {
            Some(c) => c,
            None => 0,
        }
    } else {
        0
    }
}

/// Reads the status code of a raw HTTP reply (0 when there is none).
pub fn http_status_code(resp: &str) -> (r: u16)
    ensures
        r == reply_status(resp@),
{
    if !starts_with_str(resp, "HTTP/") {
        return 0;
    }
    let lines = split_lines(resp);
    if lines.len() == 0 {
        return 0;
    }
    assert(lines@.map_values(|x: String| x@)[0] == lines@[0]@);
    let first = chars_of(lines[0].as_str());
    let ws = split_words(&first);
    if ws.len() < 2 {
        return 0;
    }
    assert(crate::text::views(ws@)[1] == ws@[1]@);
    match parse_u16_chars(&ws[1]) {
        Some(c) => c,
        None => 0,
    }
}

/// A port's banner after a plugin reported `finding`: appended after ` | `, or
/// the finding alone when there was no banner.
pub open spec fn enriched_banner(banner: Option<Seq<char>>, finding: Seq<char>) -> Seq<char> {
    match banner {
        Some(b) => b + " | "@ + finding,
        None => finding,
    }
}

/// Adds a plugin's finding to a port's banner.
pub fn add_plugin_finding(port_res: &mut PortResult, finding: String)
    ensures
        final(port_res)@.banner == Some(enriched_banner(old(port_res)@.banner, finding@)),
        final(port_res).port == old(port_res).port,
        final(port_res).status == old(port_res).status,
        final(port_res).protocol == old(port_res).protocol,
        final(port_res)@.service == old(port_res)@.service,
        final(port_res).confidence == old(port_res).confidence,
        final(port_res).confidence_source == old(port_res).confidence_source,
        final(port_res)@.cpe == old(port_res)@.cpe,
{
    let new_banner = match &port_res.banner {
        Some(b) => {
            let mut v: Vec<char> = Vec::new();
            push_str(&mut v, b.as_str());
            push_str(&mut v, " | ");
            push_str(&mut v, finding.as_str());
            string_from_chars(&v)
        },
        None => finding,
    };
    port_res.banner = Some(new_banner);
}

} // verus!
