//! HTTP fingerprinting: which ports to fetch, the request sent, reading the
//! response (headers and body), the page title, and the findings.

use vstd::prelude::*;
use crate::enumeration::{lower_service, ports_where, service_mentions};
use crate::ip::{IpAddress, ip_text, push_ip};
use crate::model::{
    Finding, FindingContent, FindingProtocol, HostResult, PortStatus, PortView, Severity,
    TransportProtocol, contents, make_port_finding, opt_text, port_finding, port_views,
};
use crate::text::{
    ascii_lower, chars_of, contains_str, copy_range, find_chars_from, find_from, find_seq,
    first_index_from, last_index_below, lemma_first_index_bounds, lemma_last_index_bounds, lower_text,
    matches_at_chars, push_chars, push_str, seq_contains, split_lines, starts_with, str_eq,
    string_from_chars, text_lines, to_lowercase, trim, trim_chars, visible_at,
};

verus! {

/// An open TCP port whose service name mentions "http".
pub open spec fn http_candidate(p: PortView) -> bool {
    &&& p.status == PortStatus::Open
    &&& p.protocol == TransportProtocol::Tcp
    &&& service_mentions(p.service, "http"@)
}

/// The ports of a host that HTTP fingerprinting fetches, in order.
pub fn http_ports(host: &HostResult) -> (r: Vec<u16>)
    ensures
        r@ == ports_where(host@.ports, |p: PortView| http_candidate(p)),
{
    let ghost pv = port_views(host.ports@);
    let ghost pred = |p: PortView| http_candidate(p);
    let mut out: Vec<u16> = Vec::new();
    let mut i: usize = 0;
    while i < host.ports.len()
        invariant
            i <= host.ports@.len(),
            pv == port_views(host.ports@),
            pred == (|p: PortView| http_candidate(p)),
            out@ == ports_where(pv.take(i as int), pred),
        decreases host.ports@.len() - i,
    {
        assert(pv.take(i + 1).drop_last() =~= pv.take(i as int));
        let p = &host.ports[i];
        assert(pv.take(i + 1).last() == p@);
        if p.status == PortStatus::Open && p.protocol == TransportProtocol::Tcp {
            let is_http = match lower_service(p) {
                Some(s) => contains_str(s.as_str(), "http"),
                None => false,
            };
            if is_http {
                out.push(p.port);
            }
        }
        i += 1;
    }
    assert(pv.take(host.ports@.len() as int) =~= pv);
    out
}

/// The request sent to fetch `/` from `ip`.
pub open spec fn fetch_request_text(ip: IpAddress) -> Seq<char> {
    "GET / HTTP/1.0\r\nHost: "@ + ip_text(ip)
        + "\r\nUser-Agent: netenum/0.1.0\r\nAccept: */*\r\nConnection: close\r\n\r\n"@
}

/// Builds the request that fetches `/` from `ip`.
pub fn fetch_request(ip: IpAddress) -> (r: String)
    ensures
        r@ == fetch_request_text(ip),
{
    let mut v: Vec<char> = Vec::new();
    push_str(&mut v, "GET / HTTP/1.0\r\nHost: ");
    push_ip(&mut v, ip);
    push_str(&mut v, "\r\nUser-Agent: netenum/0.1.0\r\nAccept: */*\r\nConnection: close\r\n\r\n");
    string_from_chars(&v)
}

/// A response split at the first blank line: the head before it and the body
/// after it (the whole text and an empty body when there is none).
pub open spec fn head_and_body(text: Seq<char>) -> (Seq<char>, Seq<char>) {
    match find_seq(text, "\r\n\r\n"@) {
        Some(i) => (text.take(i), text.skip(i + 4)),
        None => (text, Seq::empty()),
    }
}

/// A header line as a (name, value) pair: split at its first colon, the name
/// trimmed and lower-cased, the value trimmed; `None` without a colon.
pub open spec fn header_pair(line: Seq<char>) -> Option<(Seq<char>, Seq<char>)> {
    match find_seq(line, ":"@) {
        Some(i) => Some((lower_text(trim(line.take(i))), trim(line.skip(i + 1)))),
        None => None,
    }
}

/// The (name, value) pairs of a list of header lines, in order.
pub open spec fn header_pairs(lines: Seq<Seq<char>>) -> Seq<(Seq<char>, Seq<char>)>
    decreases lines.len(),
{
    if lines.len() == 0 {
        Seq::empty()
    } else {
        let r = header_pairs(lines.drop_last());
        match header_pair(lines.last()) {
            Some(p) => r.push(p),
            None => r,
        }
    }
}

/// The value of header `name`: that of its last occurrence.
pub open spec fn header_value(pairs: Seq<(Seq<char>, Seq<char>)>, name: Seq<char>) -> Option<
    Seq<char>,
>
    decreases pairs.len(),
{
    if pairs.len() == 0 {
        None
    } else if pairs.last().0 == name {
        Some(pairs.last().1)
    } else {
        header_value(pairs.drop_last(), name)
    }
}

/// A response read from its text: `None` unless the first line of the head
/// starts with `HTTP/`; otherwise the header pairs of the other head lines and
/// the body.
pub open spec fn parsed_response(text: Seq<char>) -> Option<(Seq<(Seq<char>, Seq<char>)>, Seq<char>)> {
    let (head, body) = head_and_body(text);
    let lines = text_lines(head);
    if lines.len() > 0 && starts_with(lines[0], "HTTP/"@) {
        Some((header_pairs(lines.skip(1)), body))
    } else {
        None
    }
}

/// A fetched response: its headers, in order, and its body.
#[derive(Debug, Clone)]
pub struct HttpResponse {
    pub headers: Vec<(String, String)>,
    pub body: String,
}

/// The header pairs as character sequences.
pub open spec fn pair_texts(v: Seq<(String, String)>) -> Seq<(Seq<char>, Seq<char>)> {
    v.map_values(|p: (String, String)| (p.0@, p.1@))
}

fn header_pair_of(line: &str) -> (r: Option<(String, String)>)
    ensures
        match (r, header_pair(line@)) {
            (Some(p), Some(q)) => p.0@ == q.0 && p.1@ == q.1,
            (None, None) => true,
            _ => false,
        },
{
    let v = chars_of(line);
    let colon = chars_of(":");
    proof {
        reveal_strlit(":");
    }
    match find_chars_from(&v, 0, &colon) {
        Some(i) => {
            assert(find_seq(line@, ":"@) == Some(i as int));
            let n = v.len();
            let name_part = copy_range(&v, 0, i);
            let value_part = copy_range(&v, i + 1, n);
            assert(name_part@ =~= line@.take(i as int));
            assert(value_part@ =~= line@.skip(i + 1));
            let name_trim = trim_chars(&name_part);
            let name = to_lowercase(string_from_chars(&name_trim).as_str());
            let value_trim = trim_chars(&value_part);
            Some((name, string_from_chars(&value_trim)))
        },
        None => {
            assert(find_seq(line@, ":"@) is None);
            None
        },
    }
}

/// Reads a response from its text (already decoded).
pub fn parse_response(text: &str) -> (r: Option<HttpResponse>)
    ensures
        match (r, parsed_response(text@)) {
            (Some(resp), Some((pairs, body))) => pair_texts(resp.headers@) == pairs && resp.body@
                == body,
            (None, None) => true,
            _ => false,
        },
{
    let v = chars_of(text);
    let sep = chars_of("\r\n\r\n");
    proof {
        reveal_strlit("\r\n\r\n");
    }
    let (head, body) = match find_chars_from(&v, 0, &sep) {
        Some(i) => {
            assert(find_seq(text@, "\r\n\r\n"@) == Some(i as int));
            let n = v.len();
            let h = copy_range(&v, 0, i);
            let b = copy_range(&v, i + 4, n);
            assert(h@ =~= text@.take(i as int));
            assert(b@ =~= text@.skip(i + 4));
            (h, b)
        },
        None => {
            assert(find_seq(text@, "\r\n\r\n"@) is None);
            let h = copy_range(&v, 0, v.len());
            assert(h@ =~= text@);
            (h, Vec::new())
        },
    };
    let head_s = string_from_chars(&head);
    let lines = split_lines(head_s.as_str());
    let ghost lv = lines@.map_values(|x: String| x@);
    if lines.len() == 0 {
        return None;
    }
    assert(lv[0] == lines@[0]@);
    let first = chars_of(lines[0].as_str());
    let http = chars_of("HTTP/");
    let ok = matches_at_chars(&first, 0, &http);
    if !ok {
        proof {
            if http@.len() <= first@.len() {
                assert(first@.subrange(0, http@.len() as int) =~= first@.take(http@.len() as int));
            }
        }
        return None;
    }
    assert(first@.subrange(0, http@.len() as int) =~= first@.take(http@.len() as int));
    let ghost rest = lv.skip(1);
    let mut headers: Vec<(String, String)> = Vec::new();
    let mut k: usize = 1;
    while k < lines.len()
        invariant
            1 <= k <= lines@.len(),
            lv == lines@.map_values(|x: String| x@),
            rest == lv.skip(1),
            pair_texts(headers@) == header_pairs(rest.take(k - 1)),
        decreases lines@.len() - k,
    {
        assert(rest.take(k as int).drop_last() =~= rest.take(k - 1));
        assert(rest.take(k as int).last() == lines@[k as int]@);
        match header_pair_of(lines[k].as_str()) {
            Some(p) => {
                let ghost before = headers@;
                let ghost pt = (p.0@, p.1@);
                headers.push(p);
                assert(pair_texts(headers@) =~= pair_texts(before).push(pt));
            },
            None => {},
        }
        k += 1;
    }
    assert(rest.take(lines@.len() - 1) =~= rest);
    Some(HttpResponse { headers, body: string_from_chars(&body) })
}

/// The response headers known to leak backend technology, in the order they are
/// reported.
pub open spec fn tech_headers() -> Seq<Seq<char>> {
    seq![
        "server"@,
        "x-powered-by"@,
        "x-aspnet-version"@,
        "x-aspnetmvc-version"@,
        "x-generator"@,
        "x-drupal-cache"@,
        "x-varnish"@,
        "via"@,
    ]
}

fn tech_header_names() -> (r: Vec<&'static str>)
    ensures
        r@.len() == tech_headers().len(),
        forall|k: int| 0 <= k < r@.len() ==> #[trigger] r@[k]@ == tech_headers()[k],
{
    let mut v: Vec<&'static str> = Vec::new();
    v.push("server");
    v.push("x-powered-by");
    v.push("x-aspnet-version");
    v.push("x-aspnetmvc-version");
    v.push("x-generator");
    v.push("x-drupal-cache");
    v.push("x-varnish");
    v.push("via");
    v
}

/// The text with its ASCII letters in lower case, every other character kept.
pub open spec fn ascii_lowered(s: Seq<char>) -> Seq<char> {
    s.map_values(|c: char| ascii_lower(c))
}

/// The contents of the first `<title>` element of an HTML body, trimmed; `None`
/// when there is none or it is blank. The tags `<title`, the `>` that closes
/// it, and `</title` are found with ASCII letters compared without regard to
/// case, and the title is the text of the body between them.
pub open spec fn title_of(body: Seq<char>) -> Option<Seq<char>> {
    let l = ascii_lowered(body);
    match find_from(l, 0, "<title"@) {
        None => None,
        Some(i) => match find_from(l, i, ">"@) {
            None => None,
            Some(j) => match find_from(l, j + 1, "</title"@) {
                None => None,
                Some(k) => if trim(body.subrange(j + 1, k)).len() > 0 {
                    Some(trim(body.subrange(j + 1, k)))
                } else {
                    None
                },
            },
        },
    }
}

fn lower_ascii_char(c: char) -> (r: char)
    ensures
        r == ascii_lower(c),
{
    if 'A' <= c && c <= 'Z' {
        let u = (c as u8) + 32;
        assert(c as u32 == c as u8);
        (u as char)
    } else {
        c
    }
}

fn lower_ascii_chars(v: &Vec<char>) -> (r: Vec<char>)
    ensures
        r@ == ascii_lowered(v@),
{
    let mut out: Vec<char> = Vec::new();
    let mut i: usize = 0;
    while i < v.len()
        invariant
            i <= v@.len(),
            out@ =~= ascii_lowered(v@.take(i as int)),
        decreases v@.len() - i,
    {
        out.push(lower_ascii_char(v[i]));
        i += 1;
        assert(out@ =~= ascii_lowered(v@.take(i as int)));
    }
    assert(v@.take(v@.len() as int) =~= v@);
    out
}

proof fn lemma_trim_within(s: Seq<char>)
    ensures
        seq_contains(s, trim(s)),
{
    let n = s.len() as int;
    lemma_first_index_bounds(0, n, visible_at(s));
    let a = first_index_from(0, n, visible_at(s));
    if a == n {
        assert(s.subrange(0, 0 + trim(s).len() as int) =~= trim(s));
    } else {
        lemma_last_index_bounds(n, visible_at(s));
        let b = last_index_below(n, visible_at(s));
        assert(b >= a) by {
            if b < a {
                assert(visible_at(s)(a));
            }
        }
        assert(trim(s) == s.subrange(a, b + 1));
        assert(s.subrange(a, a + trim(s).len()) =~= trim(s));
    }
}

/// Extracts the contents of the first `<title>` tag from an HTML body, if any.
/// A title found is text of the body itself.
pub fn extract_title(body: &str) -> (r: Option<String>)
    ensures
        opt_text(r) == title_of(body@),
        r matches Some(t) ==> seq_contains(body@, t@),
{
    let b = chars_of(body);
    let l = lower_ascii_chars(&b);
    let open_tag = chars_of("<title");
    let gt = chars_of(">");
    let close_tag = chars_of("</title");
    proof {
        reveal_strlit(">");
    }
    let i = match find_chars_from(&l, 0, &open_tag) {
        Some(i) => i,
        None => return None,
    };
    let j = match find_chars_from(&l, i, &gt) {
        Some(j) => j,
        None => return None,
    };
    let ln = l.len();
    assert(j + 1 <= ln);
    let k = match find_chars_from(&l, j + 1, &close_tag) {
        Some(k) => k,
        None => return None,
    };
    let seg = copy_range(&b, j + 1, k);
    let t = trim_chars(&seg);
    if t.len() == 0 {
        None
    } else {
        proof {
            lemma_trim_within(seg@);
            let w = choose|w: int| 0 <= w <= seg@.len() - t@.len() && #[trigger] seg@.subrange(w, w + t@.len()) == t@;
            assert(body@.subrange(j + 1 + w, j + 1 + w + t@.len()) =~= t@);
        }
        Some(string_from_chars(&t))
    }
}

/// A finding of the HTTP module about one port: informational, no advice.
pub open spec fn http_finding(kind: Seq<char>, host: IpAddress, port: u16, evidence: Seq<char>) -> FindingContent {
    port_finding("http"@, FindingProtocol::Http, kind, host, port, Severity::Info, evidence, Seq::empty())
}

/// Builds an HTTP finding.
pub fn make_finding(kind: &str, host: IpAddress, port: u16, evidence: String) -> (f: Finding)
    ensures
        f.content() == http_finding(kind@, host, port, evidence@),
{
    make_port_finding("http", FindingProtocol::Http, kind, host, port, Severity::Info, evidence, String::new())
}

/// The header findings for the technology headers among `names` that the
/// response carries, in the order of `names`.
pub open spec fn header_findings(
    host: IpAddress,
    port: u16,
    pairs: Seq<(Seq<char>, Seq<char>)>,
    names: Seq<Seq<char>>,
) -> Seq<FindingContent>
    decreases names.len(),
{
    if names.len() == 0 {
        Seq::empty()
    } else {
        let r = header_findings(host, port, pairs, names.drop_last());
        let n = names.last();
        match header_value(pairs, n) {
            Some(v) => r.push(http_finding("header:"@ + n, host, port, n + ": "@ + v)),
            None => r,
        }
    }
}

/// The findings of a fetched response: one per technology header it carries,
/// then the page title when there is one.
pub open spec fn response_findings(
    host: IpAddress,
    port: u16,
    pairs: Seq<(Seq<char>, Seq<char>)>,
    body: Seq<char>,
) -> Seq<FindingContent> {
    let h = header_findings(host, port, pairs, tech_headers());
    match title_of(body) {
        Some(t) => h.push(http_finding("title"@, host, port, "Title: "@ + t)),
        None => h,
    }
}

fn lookup_header(headers: &Vec<(String, String)>, name: &str) -> (r: Option<String>)
    ensures
        opt_text(r) == header_value(pair_texts(headers@), name@),
{
    let ghost pt = pair_texts(headers@);
    let mut i: usize = headers.len();
    assert(pt.take(i as int) =~= pt);
    while i > 0
        invariant
            i <= headers@.len(),
            pt == pair_texts(headers@),
            header_value(pt, name@) == header_value(pt.take(i as int), name@),
        decreases i,
    {
        let h = &headers[i - 1];
        assert(pt.take(i as int).last() == (h.0@, h.1@));
        assert(pt.take(i as int).drop_last() =~= pt.take(i - 1));
        if str_eq(h.0.as_str(), name) {
            return Some(h.1.clone());
        }
        i -= 1;
    }
    None
}

/// The findings of the response fetched from `host:port`.
pub fn build_findings(host: IpAddress, port: u16, resp: &HttpResponse) -> (r: Vec<Finding>)
    ensures
        contents(r@) == response_findings(host, port, pair_texts(resp.headers@), resp.body@),
{
    assert(pair_texts(resp.headers@).take(resp.headers@.len() as int) =~= pair_texts(resp.headers@));
    let names = tech_header_names();
    let ghost nv = tech_headers();
    let ghost pt = pair_texts(resp.headers@);
    let mut out: Vec<Finding> = Vec::new();
    assert(contents(out@) =~= Seq::<FindingContent>::empty());
    let mut i: usize = 0;
    while i < names.len()
        invariant
            i <= names@.len(),
            nv == tech_headers(),
            names@.len() == nv.len(),
            forall|k: int| 0 <= k < names@.len() ==> #[trigger] names@[k]@ == nv[k],
            pt == pair_texts(resp.headers@),
            contents(out@) == header_findings(host, port, pt, nv.take(i as int)),
        decreases names@.len() - i,
    {
        assert(nv.take(i + 1).drop_last() =~= nv.take(i as int));
        assert(nv.take(i + 1).last() == names@[i as int]@);
        let n = names[i];
        match lookup_header(&resp.headers, n) {
            Some(v) => {
                let mut kind: Vec<char> = Vec::new();
                push_str(&mut kind, "header:");
                push_str(&mut kind, n);
                let kind_s = string_from_chars(&kind);
                let mut ev: Vec<char> = Vec::new();
                push_str(&mut ev, n);
                push_str(&mut ev, ": ");
                push_str(&mut ev, v.as_str());
                let ghost before = contents(out@);
                out.push(make_finding(kind_s.as_str(), host, port, string_from_chars(&ev)));
                assert(contents(out@) =~= before.push(
                    http_finding("header:"@ + n@, host, port, n@ + ": "@ + v@),
                ));
            },
            None => {},
        }
        i += 1;
    }
    assert(nv.take(names@.len() as int) =~= nv);
    let ghost h = contents(out@);
    match extract_title(resp.body.as_str()) {
        Some(t) => {
            let mut ev: Vec<char> = Vec::new();
            push_str(&mut ev, "Title: ");
            push_str(&mut ev, t.as_str());
            out.push(make_finding("title", host, port, string_from_chars(&ev)));
            assert(contents(out@) =~= h.push(http_finding("title"@, host, port, "Title: "@ + t@)));
        },
        None => {},
    }
    out
}


/// Header findings are scoped per header name: on the same port of the same
/// host, two different header names never share a finding id.
pub proof fn lemma_header_ids_distinct(n1: Seq<char>, n2: Seq<char>, host: IpAddress, port: u16)
    requires
        n1 != n2,
    ensures
        http_finding("header:"@ + n1, host, port, Seq::empty()).id != http_finding(
            "header:"@ + n2,
            host,
            port,
            Seq::empty(),
        ).id,
{
    let pre = "http"@ + seq![':'] + "header:"@;
    let suf = seq![':'] + ip_text(host) + seq![':'] + crate::text::dec_text(port as nat);
    let id1 = http_finding("header:"@ + n1, host, port, Seq::empty()).id;
    let id2 = http_finding("header:"@ + n2, host, port, Seq::empty()).id;
    assert(id1 =~= pre + n1 + suf);
    assert(id2 =~= pre + n2 + suf);
    if id1 == id2 {
        assert(n1.len() == n2.len());
        assert(id1.subrange(pre.len() as int, (pre.len() + n1.len()) as int) =~= n1);
        assert(id2.subrange(pre.len() as int, (pre.len() + n2.len()) as int) =~= n2);
    }
}

} // verus!
