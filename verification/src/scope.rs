//! Scope guardrails: which resolved targets a scan is permitted to touch.

use vstd::prelude::*;
use crate::ip::{IpAddress, parse_ip, parsed_ip};
use crate::text::{push_str, starts_with, string_from_chars, trim, trim_str};

verus! {

/// An IP network: an address and a prefix length, as `ipnet` holds one. The
/// address may have bits set past the prefix; membership only looks at the
/// prefix.
#[derive(Debug, Clone, Copy, PartialEq, Eq, Structural)]
pub struct Network {
    pub addr: IpAddress,
    pub prefix_len: u8,
}

/// The prefix fits the address family.
pub open spec fn well_formed(n: Network) -> bool {
    match n.addr {
        IpAddress::V4(_) => n.prefix_len <= 32,
        IpAddress::V6(_) => n.prefix_len <= 128,
    }
}

/// The network mask of an IPv4 prefix length (`Ipv4Net::netmask`).
pub open spec fn v4_netmask(p: u8) -> u32 {
    if p == 0 {
        0
    } else {
        0xffff_ffffu32 << ((32 - p) as u32)
    }
}

/// The host mask of an IPv4 prefix length (`Ipv4Net::hostmask`).
pub open spec fn v4_hostmask(p: u8) -> u32 {
    if p >= 32 {
        0
    } else {
        0xffff_ffffu32 >> (p as u32)
    }
}

/// The network mask of an IPv6 prefix length (`Ipv6Net::netmask`).
pub open spec fn v6_netmask(p: u8) -> u128 {
    if p == 0 {
        0
    } else {
        0xffff_ffff_ffff_ffff_ffff_ffff_ffff_ffffu128 << ((128 - p) as u128)
    }
}

/// The host mask of an IPv6 prefix length (`Ipv6Net::hostmask`).
pub open spec fn v6_hostmask(p: u8) -> u128 {
    if p >= 128 {
        0
    } else {
        0xffff_ffff_ffff_ffff_ffff_ffff_ffff_ffffu128 >> (p as u128)
    }
}

/// `ip` lies between the network address and the broadcast address of `n`, in
/// the same family (`IpNet::contains`).
pub open spec fn net_contains(n: Network, ip: IpAddress) -> bool {
    match (n.addr, ip) {
        (IpAddress::V4(a), IpAddress::V4(x)) => (a & v4_netmask(n.prefix_len)) <= x && x <= (a
            | v4_hostmask(n.prefix_len)),
        (IpAddress::V6(a), IpAddress::V6(x)) => (a & v6_netmask(n.prefix_len)) <= x && x <= (a
            | v6_hostmask(n.prefix_len)),
        _ => false,
    }
}

/// The network of one address: the full-length prefix (`IpNet::from(IpAddr)`).
pub open spec fn host_network(ip: IpAddress) -> Network {
    match ip {
        IpAddress::V4(_) => Network { addr: ip, prefix_len: 32 },
        IpAddress::V6(_) => Network { addr: ip, prefix_len: 128 },
    }
}

/// The first and the last host address of a network, as numbers: every
/// address from the network address to the broadcast address, except that an
/// IPv4 network with a prefix shorter than 31 leaves out both of those
/// (`IpNet::hosts`).
pub open spec fn host_bounds(n: Network) -> (int, int) {
    match n.addr {
        IpAddress::V4(a) => {
            let net = (a & v4_netmask(n.prefix_len)) as int;
            let bc = (a | v4_hostmask(n.prefix_len)) as int;
            if n.prefix_len < 31 {
                (net + 1, bc - 1)
            } else {
                (net, bc)
            }
        },
        IpAddress::V6(a) => (
            (a & v6_netmask(n.prefix_len)) as int,
            (a | v6_hostmask(n.prefix_len)) as int,
        ),
    }
}

/// The host addresses of a network, ascending.
pub open spec fn net_hosts(n: Network) -> Seq<IpAddress> {
    let (lo, hi) = host_bounds(n);
    Seq::new(
        (hi - lo + 1) as nat,
        |i: int|
            match n.addr {
                IpAddress::V4(_) => IpAddress::V4((lo + i) as u32),
                IpAddress::V6(_) => IpAddress::V6((lo + i) as u128),
            },
    )
}

proof fn lemma_v4_span(a: u32, p: u8)
    requires
        p <= 32,
    ensures
        (a & v4_netmask(p)) <= (a | v4_hostmask(p)),
        p < 31 ==> (a | v4_hostmask(p)) - (a & v4_netmask(p)) >= 2,
{
    if p == 0 {
        assert(a & 0u32 == 0u32) by (bit_vector);
        assert(0xffff_ffffu32 >> 0u32 == 0xffff_ffffu32) by (bit_vector);
        assert((a | 0xffff_ffffu32) == 0xffff_ffffu32) by (bit_vector);
    } else if p == 32 {
        assert(0xffff_ffffu32 << 0u32 == 0xffff_ffffu32) by (bit_vector);
        assert(a & 0xffff_ffffu32 == a) by (bit_vector);
        assert(a | 0u32 == a) by (bit_vector);
    } else {
        let s: u32 = (32 - p) as u32;
        let q: u32 = p as u32;
        assert(v4_netmask(p) == 0xffff_ffffu32 << s);
        assert(v4_hostmask(p) == 0xffff_ffffu32 >> q);
        assert((a & (0xffff_ffffu32 << s)) as int + (0xffff_ffffu32 >> q) as int == (a | (
        0xffff_ffffu32 >> q)) as int) by (bit_vector)
            requires
                1 <= s <= 31,
                q == 32 - s,
        ;
        assert(q <= 30 ==> (0xffff_ffffu32 >> q) >= 3) by (bit_vector)
            requires
                1 <= q <= 31,
        ;
    }
}

proof fn lemma_v6_span(a: u128, p: u8)
    requires
        p <= 128,
    ensures
        (a & v6_netmask(p)) <= (a | v6_hostmask(p)),
{
    if p == 0 {
        assert(a & 0u128 == 0u128) by (bit_vector);
    } else if p == 128 {
        assert(0xffff_ffff_ffff_ffff_ffff_ffff_ffff_ffffu128 << 0u128
            == 0xffff_ffff_ffff_ffff_ffff_ffff_ffff_ffffu128) by (bit_vector);
        assert(a & 0xffff_ffff_ffff_ffff_ffff_ffff_ffff_ffffu128 == a) by (bit_vector);
        assert(a | 0u128 == a) by (bit_vector);
    } else {
        let s: u128 = (128 - p) as u128;
        let q: u128 = p as u128;
        assert(v6_netmask(p) == 0xffff_ffff_ffff_ffff_ffff_ffff_ffff_ffffu128 << s);
        assert(v6_hostmask(p) == 0xffff_ffff_ffff_ffff_ffff_ffff_ffff_ffffu128 >> q);
        assert((a & (0xffff_ffff_ffff_ffff_ffff_ffff_ffff_ffffu128 << s)) <= (a | (
        0xffff_ffff_ffff_ffff_ffff_ffff_ffff_ffffu128 >> q))) by (bit_vector)
            requires
                1 <= s <= 127,
                q == 128 - s,
        ;
    }
}

impl Network {
    /// The network of one address.
    pub fn host(ip: IpAddress) -> (n: Network)
        ensures
            n == host_network(ip),
            well_formed(n),
    {
        match ip {
            IpAddress::V4(_) => Network { addr: ip, prefix_len: 32 },
            IpAddress::V6(_) => Network { addr: ip, prefix_len: 128 },
        }
    }

    /// The host addresses of the network, ascending (`IpNet::hosts`).
    pub fn hosts(&self) -> (r: Vec<IpAddress>)
        requires
            well_formed(*self),
        ensures
            r@ == net_hosts(*self),
    {
        let p = self.prefix_len;
        match self.addr {
            IpAddress::V4(a) => {
                let nm: u32 = if p == 0 {
                    0
                } else {
                    0xffff_ffffu32 << ((32 - p) as u32)
                };
                let hm: u32 = if p >= 32 {
                    0
                } else {
                    0xffff_ffffu32 >> (p as u32)
                };
                proof {
                    lemma_v4_span(a, p);
                }
                let mut lo: u32 = a & nm;
                let mut hi: u32 = a | hm;
                if p < 31 {
                    lo = lo + 1;
                    hi = hi - 1;
                }
                let ghost f = |i: int| IpAddress::V4((lo + i) as u32);
                let mut out: Vec<IpAddress> = Vec::new();
                let mut x: u32 = lo;
                loop
                    invariant_except_break
                        lo <= x <= hi,
                        f == (|i: int| IpAddress::V4((lo + i) as u32)),
                        out@ =~= Seq::new((x - lo) as nat, f),
                    ensures
                        out@ =~= Seq::new((hi - lo + 1) as nat, f),
                    decreases hi - x,
                {
                    let ghost before = out@;
                    out.push(IpAddress::V4(x));
                    assert(out@ =~= Seq::new((x - lo + 1) as nat, f)) by {
                        assert forall|i: int| 0 <= i < x - lo + 1 implies out@[i] == f(i) by {
                            if i < x - lo {
                                assert(out@[i] == before[i]);
                            }
                        }
                    }
                    if x == hi {
                        break;
                    }
                    x = x + 1;
                }
                out
            },
            IpAddress::V6(a) => {
                let nm: u128 = if p == 0 {
                    0
                } else {
                    0xffff_ffff_ffff_ffff_ffff_ffff_ffff_ffffu128 << ((128 - p) as u128)
                };
                let hm: u128 = if p >= 128 {
                    0
                } else {
                    0xffff_ffff_ffff_ffff_ffff_ffff_ffff_ffffu128 >> (p as u128)
                };
                proof {
                    lemma_v6_span(a, p);
                }
                let lo: u128 = a & nm;
                let hi: u128 = a | hm;
                let ghost f = |i: int| IpAddress::V6((lo + i) as u128);
                let mut out: Vec<IpAddress> = Vec::new();
                let mut x: u128 = lo;
                loop
                    invariant_except_break
                        lo <= x <= hi,
                        f == (|i: int| IpAddress::V6((lo + i) as u128)),
                        out@ =~= Seq::new((x - lo) as nat, f),
                    ensures
                        out@ =~= Seq::new((hi - lo + 1) as nat, f),
                    decreases hi - x,
                {
                    let ghost before = out@;
                    out.push(IpAddress::V6(x));
                    assert(out@ =~= Seq::new((x - lo + 1) as nat, f)) by {
                        assert forall|i: int| 0 <= i < x - lo + 1 implies out@[i] == f(i) by {
                            if i < x - lo {
                                assert(out@[i] == before[i]);
                            }
                        }
                    }
                    if x == hi {
                        break;
                    }
                    x = x + 1;
                }
                out
            },
        }
    }

    /// Does the network hold `ip`?
    pub fn contains(&self, ip: IpAddress) -> (b: bool)
        requires
            well_formed(*self),
        ensures
            b == net_contains(*self, ip),
    {
        let p = self.prefix_len;
        match (self.addr, ip) {
            (IpAddress::V4(a), IpAddress::V4(x)) => {
                let nm: u32 = if p == 0 {
                    0
                } else {
                    0xffff_ffffu32 << ((32 - p) as u32)
                };
                let hm: u32 = if p >= 32 {
                    0
                } else {
                    0xffff_ffffu32 >> (p as u32)
                };
                (a & nm) <= x && x <= (a | hm)
            },
            (IpAddress::V6(a), IpAddress::V6(x)) => {
                let nm: u128 = if p == 0 {
                    0
                } else {
                    0xffff_ffff_ffff_ffff_ffff_ffff_ffff_ffffu128 << ((128 - p) as u128)
                };
                let hm: u128 = if p >= 128 {
                    0
                } else {
                    0xffff_ffff_ffff_ffff_ffff_ffff_ffff_ffffu128 >> (p as u128)
                };
                (a & nm) <= x && x <= (a | hm)
            },
            _ => false,
        }
    }
}

/// What `IpNet::from_str` returns for a text with these characters.
pub uninterp spec fn ip_net_parsed(s: Seq<char>) -> Option<Network>;

/// Parses a network in CIDR notation (`address/prefix`) with `ipnet`'s `IpNet`
/// parser. The contract states what that parser's source shows of every network
/// it returns: the text holds the `/` before the prefix, and the prefix fits the
/// address family (it reads at most 32 for IPv4, 128 for IPv6). Which texts it
/// accepts is left to the name `ip_net_parsed`.
#[verifier::external_body]
pub(crate) fn parse_ip_net(s: &str) -> (r: Option<Network>)
    ensures
        r == ip_net_parsed(s@),
        r matches Some(n) ==> well_formed(n) && s@.contains('/'),
{
    match s.parse::<ipnet::IpNet>() {
        Ok(ipnet::IpNet::V4(n)) => Some(
            Network { addr: IpAddress::V4(u32::from(n.addr())), prefix_len: n.prefix_len() },
        ),
        Ok(ipnet::IpNet::V6(n)) => Some(
            Network { addr: IpAddress::V6(u128::from(n.addr())), prefix_len: n.prefix_len() },
        ),
        Err(_) => None,
    }
}

/// The error for a scope entry that is neither a network nor an address.
pub open spec fn invalid_entry_message(t: Seq<char>) -> Seq<char> {
    "Invalid scope entry '"@ + t + "': expected an IP address or CIDR network"@
}

/// What one trimmed scope entry stands for: a network in CIDR notation, else a
/// single address, else an error.
pub open spec fn parsed_entry(t: Seq<char>) -> Result<Network, Seq<char>> {
    match ip_net_parsed(t) {
        Some(n) => Ok(n),
        None => match parsed_ip(t) {
            Some(ip) => Ok(host_network(ip)),
            None => Err(invalid_entry_message(t)),
        },
    }
}

/// An entry that says nothing: blank, or a comment starting with `#`.
pub open spec fn skipped_entry(t: Seq<char>) -> bool {
    t.len() == 0 || t[0] == '#'
}

/// The networks of a list of scope entries, each trimmed, blank entries and
/// comments skipped; the error of the first entry that does not parse.
pub open spec fn parsed_entries(es: Seq<Seq<char>>) -> Result<Seq<Network>, Seq<char>>
    decreases es.len(),
{
    if es.len() == 0 {
        Ok(Seq::empty())
    } else {
        match parsed_entries(es.drop_last()) {
            Err(e) => Err(e),
            Ok(ns) => {
                let t = trim(es.last());
                if skipped_entry(t) {
                    Ok(ns)
                } else {
                    match parsed_entry(t) {
                        Ok(n) => Ok(ns.push(n)),
                        Err(e) => Err(e),
                    }
                }
            },
        }
    }
}

fn parse_entry(t: &str) -> (r: Result<Network, String>)
    ensures
        match (r, parsed_entry(t@)) {
            (Ok(n), Ok(m)) => n == m && well_formed(n),
            (Err(e), Err(m)) => e@ == m,
            _ => false,
        },
{
    if let Some(net) = parse_ip_net(t) {
        return Ok(net);
    }
    if let Some(ip) = parse_ip(t) {
        return Ok(Network::host(ip));
    }
    let mut msg: Vec<char> = Vec::new();
    push_str(&mut msg, "Invalid scope entry '");
    push_str(&mut msg, t);
    push_str(&mut msg, "': expected an IP address or CIDR network");
    assert(msg@ =~= invalid_entry_message(t@));
    Err(string_from_chars(&msg))
}

/// The texts of a list of strings.
pub open spec fn entry_texts(v: Seq<String>) -> Seq<Seq<char>> {
    v.map_values(|s: String| s@)
}

fn parse_entries(entries: &Vec<String>) -> (r: Result<Vec<Network>, String>)
    ensures
        match (r, parsed_entries(entry_texts(entries@))) {
            (Ok(v), Ok(ns)) => v@ == ns && forall|i: int| 0 <= i < ns.len() ==> well_formed(
                #[trigger] ns[i],
            ),
            (Err(e), Err(m)) => e@ == m,
            _ => false,
        },
{
    let ghost es = entry_texts(entries@);
    let mut nets: Vec<Network> = Vec::new();
    let mut i: usize = 0;
    while i < entries.len()
        invariant
            i <= entries@.len(),
            es == entry_texts(entries@),
            parsed_entries(es.take(i as int)) == Ok::<Seq<Network>, Seq<char>>(nets@),
            forall|k: int| 0 <= k < nets@.len() ==> well_formed(#[trigger] nets@[k]),
        decreases entries@.len() - i,
    {
        assert(es.take(i + 1).drop_last() =~= es.take(i as int));
        assert(es.take(i + 1).last() == entries@[i as int]@);
        let t = trim_str(entries[i].as_str());
        let skip = is_skipped(t.as_str());
        if !skip {
            match parse_entry(t.as_str()) {
                Ok(n) => {
                    nets.push(n);
                },
                Err(e) => {
                    proof {
                        lemma_error_stays(es, i as int + 1);
                    }
                    return Err(e);
                },
            }
        }
        i += 1;
    }
    assert(es.take(entries@.len() as int) =~= es);
    Ok(nets)
}

proof fn lemma_error_stays(es: Seq<Seq<char>>, k: int)
    requires
        0 <= k <= es.len(),
        parsed_entries(es.take(k)) is Err,
    ensures
        parsed_entries(es) == parsed_entries(es.take(k)),
    decreases es.len() - k,
{
    if k < es.len() {
        assert(es.take(k + 1).drop_last() =~= es.take(k));
        lemma_error_stays(es, k + 1);
    } else {
        assert(es.take(k) =~= es);
    }
}

fn is_skipped(t: &str) -> (b: bool)
    ensures
        b == skipped_entry(t@),
{
    let v = crate::text::chars_of(t);
    v.len() == 0 || v[0] == '#'
}

/// Governs which resolved targets a scan is actually permitted to touch.
///
/// The denylist always takes precedence over the allowlist. An empty allowlist
/// means "no restriction beyond the denylist", so single-target and CIDR
/// workflows keep working without opting in.
#[derive(Debug)]
pub struct ScopePolicy {
    allow: Vec<Network>,
    deny: Vec<Network>,
}

/// What a scope policy holds: its allowed and its denied networks.
pub struct ScopeView {
    pub allow: Seq<Network>,
    pub deny: Seq<Network>,
}

impl View for ScopePolicy {
    type V = ScopeView;

    closed spec fn view(&self) -> ScopeView {
        ScopeView { allow: self.allow@, deny: self.deny@ }
    }
}

/// Some network of `nets` holds `ip`.
pub open spec fn any_contains(nets: Seq<Network>, ip: IpAddress) -> bool {
    exists|i: int| 0 <= i < nets.len() && net_contains(#[trigger] nets[i], ip)
}

/// The policy permits `ip`: no denied network holds it, and the allowlist is
/// empty or one of its networks holds it.
pub open spec fn permitted(p: ScopeView, ip: IpAddress) -> bool {
    &&& !any_contains(p.deny, ip)
    &&& (p.allow.len() == 0 || any_contains(p.allow, ip))
}

/// The addresses of `hosts` that the policy permits (`keep`) or refuses
/// (`!keep`), in their order.
pub open spec fn select_hosts(p: ScopeView, hosts: Seq<IpAddress>, keep: bool) -> Seq<IpAddress>
    decreases hosts.len(),
{
    if hosts.len() == 0 {
        Seq::empty()
    } else {
        let r = select_hosts(p, hosts.drop_last(), keep);
        if permitted(p, hosts.last()) == keep {
            r.push(hosts.last())
        } else {
            r
        }
    }
}

fn any_net_contains(nets: &Vec<Network>, ip: IpAddress) -> (b: bool)
    requires
        forall|i: int| 0 <= i < nets@.len() ==> well_formed(#[trigger] nets@[i]),
    ensures
        b == any_contains(nets@, ip),
{
    let mut i: usize = 0;
    while i < nets.len()
        invariant
            i <= nets@.len(),
            forall|k: int| 0 <= k < nets@.len() ==> well_formed(#[trigger] nets@[k]),
            forall|k: int| 0 <= k < i ==> !net_contains(#[trigger] nets@[k], ip),
        decreases nets@.len() - i,
    {
        if nets[i].contains(ip) {
            return true;
        }
        i += 1;
    }
    false
}

impl ScopePolicy {
    #[verifier::type_invariant]
    spec fn networks_well_formed(self) -> bool {
        &&& forall|i: int| 0 <= i < self.allow@.len() ==> well_formed(#[trigger] self.allow@[i])
        &&& forall|i: int| 0 <= i < self.deny@.len() ==> well_formed(#[trigger] self.deny@[i])
    }

    /// A policy that permits everything.
    pub fn new() -> (p: ScopePolicy)
        ensures
            p@.allow.len() == 0,
            p@.deny.len() == 0,
    {
        ScopePolicy { allow: Vec::new(), deny: Vec::new() }
    }

    /// Builds a policy from allow and deny entries (the command-line values
    /// followed by the lines of any scope files): each entry trimmed, blank ones
    /// and `#` comments skipped, each a network in CIDR notation or a single
    /// address. The first entry that is neither is reported, allow entries first.
    pub fn build(allow: &Vec<String>, deny: &Vec<String>) -> (r: Result<ScopePolicy, String>)
        ensures
            match (parsed_entries(entry_texts(allow@)), parsed_entries(entry_texts(deny@))) {
                (Err(e), _) => r matches Err(m) && m@ == e,
                (Ok(_), Err(e)) => r matches Err(m) && m@ == e,
                (Ok(a), Ok(d)) => r matches Ok(p) && p@.allow == a && p@.deny == d,
            },
    {
        let a = match parse_entries(allow) {
            Ok(v) => v,
            Err(e) => return Err(e),
        };
        let d = match parse_entries(deny) {
            Ok(v) => v,
            Err(e) => return Err(e),
        };
        Ok(ScopePolicy { allow: a, deny: d })
    }

    /// Is the scan permitted to touch `ip`? The denylist always wins; an empty
    /// allowlist restricts nothing.
    pub fn is_allowed(&self, ip: IpAddress) -> (b: bool)
        ensures
            b == permitted(self@, ip),
    {
        proof {
            use_type_invariant(self);
        }
        if any_net_contains(&self.deny, ip) {
            return false;
        }
        self.allow.len() == 0 || any_net_contains(&self.allow, ip)
    }

    /// Splits `hosts` into (in scope, out of scope), each in the order given.
    pub fn partition(&self, hosts: Vec<IpAddress>) -> (r: (Vec<IpAddress>, Vec<IpAddress>))
        ensures
            r.0@ == select_hosts(self@, hosts@, true),
            r.1@ == select_hosts(self@, hosts@, false),
    {
        let mut inside: Vec<IpAddress> = Vec::new();
        let mut outside: Vec<IpAddress> = Vec::new();
        let mut i: usize = 0;
        while i < hosts.len()
            invariant
                i <= hosts@.len(),
                inside@ == select_hosts(self@, hosts@.take(i as int), true),
                outside@ == select_hosts(self@, hosts@.take(i as int), false),
            decreases hosts@.len() - i,
        {
            assert(hosts@.take(i + 1).drop_last() =~= hosts@.take(i as int));
            assert(hosts@.take(i + 1).last() == hosts@[i as int]);
            let ip = hosts[i];
            if self.is_allowed(ip) {
                inside.push(ip);
            } else {
                outside.push(ip);
            }
            i += 1;
        }
        assert(hosts@.take(hosts@.len() as int) =~= hosts@);
        (inside, outside)
    }
}

impl Clone for ScopePolicy {
    fn clone(&self) -> (p: ScopePolicy)
        ensures
            p@ == self@,
    {
        proof {
            use_type_invariant(self);
        }
        let p = ScopePolicy { allow: self.allow.clone(), deny: self.deny.clone() };
        assert(p.allow@ =~= self.allow@);
        assert(p.deny@ =~= self.deny@);
        p
    }
}

impl Default for ScopePolicy {
    fn default() -> (p: ScopePolicy)
        ensures
            p@.allow.len() == 0,
            p@.deny.len() == 0,
    {
        ScopePolicy::new()
    }
}

// ---------------------------------------------------------------------------
// Laws
// ---------------------------------------------------------------------------

/// A denied address is never permitted, whatever the allowlist says.
pub proof fn lemma_deny_wins(p: ScopeView, ip: IpAddress)
    requires
        any_contains(p.deny, ip),
    ensures
        !permitted(p, ip),
{
}

/// With an empty allowlist, exactly the addresses outside every denied network
/// are permitted.
pub proof fn lemma_empty_allowlist(p: ScopeView, ip: IpAddress)
    requires
        p.allow.len() == 0,
    ensures
        permitted(p, ip) <==> !any_contains(p.deny, ip),
{
}

/// The network of a single address holds that address and no other.
pub proof fn lemma_host_network_holds_only_itself(ip: IpAddress, x: IpAddress)
    ensures
        well_formed(host_network(ip)),
        net_contains(host_network(ip), x) <==> x == ip,
{
    match (ip, x) {
        (IpAddress::V4(a), IpAddress::V4(b)) => {
            assert(0xffff_ffffu32 << 0u32 == 0xffff_ffffu32) by (bit_vector);
            assert(a & 0xffff_ffffu32 == a) by (bit_vector);
            assert(a | 0u32 == a) by (bit_vector);
        },
        (IpAddress::V6(a), IpAddress::V6(b)) => {
            assert(0xffff_ffff_ffff_ffff_ffff_ffff_ffff_ffffu128 << 0u128
                == 0xffff_ffff_ffff_ffff_ffff_ffff_ffff_ffffu128) by (bit_vector);
            assert(a & 0xffff_ffff_ffff_ffff_ffff_ffff_ffff_ffffu128 == a) by (bit_vector);
            assert(a | 0u128 == a) by (bit_vector);
        },
        _ => {},
    }
}

/// Partitioning loses and duplicates nothing: every address lands on exactly
/// one side, the permitted side holds only permitted addresses and the other
/// only refused ones, and together they are as long as the input.
pub proof fn lemma_partition_complete(p: ScopeView, hosts: Seq<IpAddress>)
    ensures
        select_hosts(p, hosts, true).len() + select_hosts(p, hosts, false).len() == hosts.len(),
        forall|x: IpAddress|
            #![trigger select_hosts(p, hosts, true).contains(x)]
            #![trigger select_hosts(p, hosts, false).contains(x)]
            hosts.contains(x) <==> (select_hosts(p, hosts, true).contains(x) || select_hosts(
                p,
                hosts,
                false,
            ).contains(x)),
        forall|i: int|
            0 <= i < select_hosts(p, hosts, true).len() ==> permitted(
                p,
                #[trigger] select_hosts(p, hosts, true)[i],
            ),
        forall|i: int|
            0 <= i < select_hosts(p, hosts, false).len() ==> !permitted(
                p,
                #[trigger] select_hosts(p, hosts, false)[i],
            ),
    decreases hosts.len(),
{
    if hosts.len() > 0 {
        let init = hosts.drop_last();
        lemma_partition_complete(p, init);
        let last = hosts.last();
        let a = select_hosts(p, init, true);
        let b = select_hosts(p, init, false);
        assert forall|x: IpAddress| hosts.contains(x) <==> (init.contains(x) || x == last) by {
            if hosts.contains(x) {
                let i = choose|i: int| 0 <= i < hosts.len() && hosts[i] == x;
                if i < hosts.len() - 1 {
                    assert(init[i] == x);
                }
            }
            if init.contains(x) {
                let i = choose|i: int| 0 <= i < init.len() && init[i] == x;
                assert(hosts[i] == x);
            }
        }
        if permitted(p, last) {
            assert forall|x: IpAddress| a.push(last).contains(x) <==> (a.contains(x) || x == last) by {
                if a.push(last).contains(x) {
                    let i = choose|i: int| 0 <= i < a.len() + 1 && a.push(last)[i] == x;
                    if i < a.len() {
                        assert(a[i] == x);
                    }
                }
                if a.contains(x) {
                    let i = choose|i: int| 0 <= i < a.len() && a[i] == x;
                    assert(a.push(last)[i] == x);
                }
                if x == last {
                    assert(a.push(last)[a.len() as int] == x);
                }
            }
        } else {
            assert forall|x: IpAddress| b.push(last).contains(x) <==> (b.contains(x) || x == last) by {
                if b.push(last).contains(x) {
                    let i = choose|i: int| 0 <= i < b.len() + 1 && b.push(last)[i] == x;
                    if i < b.len() {
                        assert(b[i] == x);
                    }
                }
                if b.contains(x) {
                    let i = choose|i: int| 0 <= i < b.len() && b[i] == x;
                    assert(b.push(last)[i] == x);
                }
                if x == last {
                    assert(b.push(last)[b.len() as int] == x);
                }
            }
        }
        assert forall|x: IpAddress|
            hosts.contains(x) <==> (select_hosts(p, hosts, true).contains(x) || select_hosts(
                p,
                hosts,
                false,
            ).contains(x)) by {
            assert(init.contains(x) <==> (a.contains(x) || b.contains(x)));
        }
    }
}


/// Every host address of a network lies in that network.
pub proof fn lemma_hosts_in_network(n: Network, i: int)
    requires
        well_formed(n),
        0 <= i < net_hosts(n).len(),
    ensures
        net_contains(n, net_hosts(n)[i]),
{
    match n.addr {
        IpAddress::V4(a) => {
            lemma_v4_span(a, n.prefix_len);
        },
        IpAddress::V6(a) => {
            lemma_v6_span(a, n.prefix_len);
        },
    }
}

/// Every entry of the lists counts, not only the first: an address that any
/// denied network holds is refused; with a non-empty allowlist, an address that
/// no denied network holds is permitted exactly when some allowed network (any
/// of them) holds it.
pub proof fn lemma_every_entry_counts(p: ScopeView, ip: IpAddress, i: int)
    ensures
        0 <= i < p.deny.len() && net_contains(p.deny[i], ip) ==> !permitted(p, ip),
        0 <= i < p.allow.len() && net_contains(p.allow[i], ip) && (forall|j: int|
            0 <= j < p.deny.len() ==> !net_contains(#[trigger] p.deny[j], ip)) ==> permitted(p, ip),
        p.allow.len() > 0 && (forall|j: int| 0 <= j < p.allow.len() ==> !net_contains(#[trigger] p.allow[j], ip))
            ==> !permitted(p, ip),
{
    if 0 <= i < p.deny.len() && net_contains(p.deny[i], ip) {
        assert(any_contains(p.deny, ip));
    }
    if 0 <= i < p.allow.len() && net_contains(p.allow[i], ip) {
        assert(any_contains(p.allow, ip));
    }
}

} // verus!
