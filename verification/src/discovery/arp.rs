//! ARP discovery on directly connected IPv4 subnets: which interface can reach
//! a target, the request frames sent, the replies recognized, and the targets
//! they show alive.

use vstd::prelude::*;
use crate::text::str_eq;

verus! {

/// The mask of an IPv4 prefix as `ipnetwork` computes it.
pub open spec fn v4_mask(prefix: u8) -> u32 {
    (!(0xffff_ffffu64 >> (prefix as u64))) as u32
}

/// An IPv4 network of an interface holds `ip` (`Ipv4Network::contains`): both
/// agree on the masked bits.
pub open spec fn v4_net_contains(net: (u32, u8), ip: u32) -> bool {
    (ip & v4_mask(net.1)) == (net.0 & v4_mask(net.1))
}

/// Does the interface network hold `ip`?
pub fn net_holds(net: (u32, u8), ip: u32) -> (b: bool)
    requires
        net.1 <= 32,
    ensures
        b == v4_net_contains(net, ip),
{
    let mask: u32 = (!(0xffff_ffffu64 >> (net.1 as u64))) as u32;
    (ip & mask) == (net.0 & mask)
}

/// What discovery needs to know of a local network interface.
#[derive(Debug, Clone)]
pub struct InterfaceInfo {
    pub name: String,
    pub mac: Option<[u8; 6]>,
    /// Its IPv4 networks: own address and prefix length.
    pub v4_nets: Vec<(u32, u8)>,
}

/// The interface has a real hardware address (present and not all zeros).
pub open spec fn has_real_mac(mac: Option<[u8; 6]>) -> bool {
    match mac {
        Some(m) => m@ != seq![0u8, 0u8, 0u8, 0u8, 0u8, 0u8],
        None => false,
    }
}

/// The first network of `nets` holding `ip`, as the interface's own address.
pub open spec fn first_holding(nets: Seq<(u32, u8)>, ip: u32) -> Option<u32>
    decreases nets.len(),
{
    if nets.len() == 0 {
        None
    } else if v4_net_contains(nets[0], ip) {
        Some(nets[0].0)
    } else {
        first_holding(nets.drop_first(), ip)
    }
}

/// The first interface (from index `from` on) with a real hardware address and
/// a network holding `target`: its index and its own address on that network.
pub open spec fn local_interface_from(ifaces: Seq<InterfaceInfo>, from: int, target: u32) -> Option<(int, u32)>
    decreases ifaces.len() - from,
{
    if from >= ifaces.len() || from < 0 {
        None
    } else if has_real_mac(ifaces[from].mac) && first_holding(ifaces[from].v4_nets@, target) is Some {
        Some((from, first_holding(ifaces[from].v4_nets@, target)->0))
    } else {
        local_interface_from(ifaces, from + 1, target)
    }
}

fn real_mac(mac: &Option<[u8; 6]>) -> (b: bool)
    ensures
        b == has_real_mac(*mac),
{
    match mac {
        Some(m) => {
            let z = m[0] == 0 && m[1] == 0 && m[2] == 0 && m[3] == 0 && m[4] == 0 && m[5] == 0;
            proof {
                if z {
                    assert(m@ =~= seq![0u8, 0u8, 0u8, 0u8, 0u8, 0u8]);
                } else {
                    assert(m@ != seq![0u8, 0u8, 0u8, 0u8, 0u8, 0u8]) by {
                        if m@ == seq![0u8, 0u8, 0u8, 0u8, 0u8, 0u8] {
                            assert(m@[0] == 0 && m@[1] == 0 && m@[2] == 0);
                            assert(m@[3] == 0 && m@[4] == 0 && m@[5] == 0);
                        }
                    }
                }
            }
            !z
        },
        None => false,
    }
}

fn holding_net(nets: &Vec<(u32, u8)>, ip: u32) -> (r: Option<u32>)
    requires
        forall|k: int| 0 <= k < nets@.len() ==> #[trigger] nets@[k].1 <= 32,
    ensures
        r == first_holding(nets@, ip),
{
    let mut i: usize = 0;
    assert(nets@.skip(0) =~= nets@);
    while i < nets.len()
        invariant
            i <= nets@.len(),
            forall|k: int| 0 <= k < nets@.len() ==> #[trigger] nets@[k].1 <= 32,
            first_holding(nets@, ip) == first_holding(nets@.skip(i as int), ip),
        decreases nets@.len() - i,
    {
        assert(nets@.skip(i as int)[0] == nets@[i as int]);
        assert(nets@.skip(i as int).drop_first() =~= nets@.skip(i + 1));
        if net_holds(nets[i], ip) {
            return Some(nets[i].0);
        }
        i += 1;
    }
    None
}

/// Every network of every interface has an IPv4 prefix length (at most 32), as
/// `ipnetwork` guarantees.
pub open spec fn prefixes_valid(ifaces: Seq<InterfaceInfo>) -> bool {
    forall|i: int, k: int|
        0 <= i < ifaces.len() && 0 <= k < ifaces[i].v4_nets@.len() ==> #[trigger] ifaces[i].v4_nets@[k].1
            <= 32
}

/// Finds the local interface whose directly connected subnet holds `target`
/// (ARP only reaches the same segment): its index and its own IPv4 address.
pub fn find_local_interface(ifaces: &Vec<InterfaceInfo>, target: u32) -> (r: Option<(usize, u32)>)
    requires
        prefixes_valid(ifaces@),
    ensures
        match local_interface_from(ifaces@, 0, target) {
            Some((i, a)) => r == Some((i as usize, a)),
            None => r is None,
        },
{
    let mut i: usize = 0;
    while i < ifaces.len()
        invariant
            i <= ifaces@.len(),
            prefixes_valid(ifaces@),
            local_interface_from(ifaces@, 0, target) == local_interface_from(ifaces@, i as int, target),
        decreases ifaces@.len() - i,
    {
        let iface = &ifaces[i];
        assert(forall|k: int| 0 <= k < iface.v4_nets@.len() ==> #[trigger] iface.v4_nets@[k].1 <= 32) by {
            assert forall|k: int| 0 <= k < iface.v4_nets@.len() implies #[trigger] iface.v4_nets@[k].1 <= 32 by {
                assert(ifaces@[i as int].v4_nets@[k].1 <= 32);
            }
        }
        if real_mac(&iface.mac) {
            match holding_net(&iface.v4_nets, target) {
                Some(a) => {
                    return Some((i, a));
                },
                None => {},
            }
        }
        i += 1;
    }
    None
}

/// The targets to ARP through one interface.
#[derive(Debug, Clone)]
pub struct ArpGroup {
    /// Index of the interface.
    pub iface: usize,
    /// The interface's own address on the targets' subnet.
    pub src_ip: u32,
    pub targets: Vec<u32>,
}

/// A group as plain values.
pub open spec fn group_view(g: ArpGroup) -> (int, u32, Seq<u32>) {
    (g.iface as int, g.src_ip, g.targets@)
}

/// The position of the group whose interface is named `name`.
pub open spec fn group_named(ifaces: Seq<InterfaceInfo>, groups: Seq<(int, u32, Seq<u32>)>, name: Seq<char>) -> Option<int>
    decreases groups.len(),
{
    if groups.len() == 0 {
        None
    } else if ifaces[groups.last().0].name@ == name {
        Some(groups.len() - 1)
    } else {
        group_named(ifaces, groups.drop_last(), name)
    }
}

/// The ARP groups of a list of targets: each target whose subnet a local
/// interface holds joins the group of that interface (by interface name),
/// groups in the order their first target appears; the other targets are left
/// to ping discovery.
pub open spec fn arp_groups(ifaces: Seq<InterfaceInfo>, targets: Seq<u32>) -> Seq<(int, u32, Seq<u32>)>
    decreases targets.len(),
{
    if targets.len() == 0 {
        Seq::empty()
    } else {
        let r = arp_groups(ifaces, targets.drop_last());
        let t = targets.last();
        match local_interface_from(ifaces, 0, t) {
            None => r,
            Some((i, a)) => match group_named(ifaces, r, ifaces[i].name@) {
                Some(g) => r.update(g, (r[g].0, r[g].1, r[g].2.push(t))),
                None => r.push((i, a, seq![t])),
            },
        }
    }
}

/// The interface index of every group is a valid one.
pub open spec fn groups_valid(ifaces: Seq<InterfaceInfo>, groups: Seq<(int, u32, Seq<u32>)>) -> bool {
    forall|g: int| 0 <= g < groups.len() ==> 0 <= #[trigger] groups[g].0 < ifaces.len()
}

proof fn lemma_local_interface_valid(ifaces: Seq<InterfaceInfo>, from: int, t: u32)
    ensures
        local_interface_from(ifaces, from, t) matches Some((i, a)) ==> 0 <= i < ifaces.len(),
    decreases ifaces.len() - from,
{
    if from >= 0 && from < ifaces.len() {
        lemma_local_interface_valid(ifaces, from + 1, t);
    }
}

proof fn lemma_group_named_valid(ifaces: Seq<InterfaceInfo>, groups: Seq<(int, u32, Seq<u32>)>, name: Seq<char>)
    ensures
        group_named(ifaces, groups, name) matches Some(g) ==> 0 <= g < groups.len(),
    decreases groups.len(),
{
    if groups.len() > 0 {
        lemma_group_named_valid(ifaces, groups.drop_last(), name);
    }
}

proof fn lemma_groups_valid(ifaces: Seq<InterfaceInfo>, targets: Seq<u32>)
    ensures
        groups_valid(ifaces, arp_groups(ifaces, targets)),
    decreases targets.len(),
{
    if targets.len() > 0 {
        lemma_groups_valid(ifaces, targets.drop_last());
        let r = arp_groups(ifaces, targets.drop_last());
        lemma_local_interface_valid(ifaces, 0, targets.last());
        match local_interface_from(ifaces, 0, targets.last()) {
            Some((i, a)) => {
                lemma_group_named_valid(ifaces, r, ifaces[i].name@);
            },
            None => {},
        }
    }
}

/// The views of a list of groups.
pub open spec fn group_views(gs: Seq<ArpGroup>) -> Seq<(int, u32, Seq<u32>)> {
    gs.map_values(|g: ArpGroup| group_view(g))
}

fn find_group(ifaces: &Vec<InterfaceInfo>, groups: &Vec<ArpGroup>, name: &str) -> (r: Option<usize>)
    requires
        groups_valid(ifaces@, group_views(groups@)),
    ensures
        match group_named(ifaces@, group_views(groups@), name@) {
            Some(g) => r == Some(g as usize),
            None => r is None,
        },
{
    let ghost gv = group_views(groups@);
    let mut i: usize = groups.len();
    assert(gv.take(i as int) =~= gv);
    while i > 0
        invariant
            i <= groups@.len(),
            gv == group_views(groups@),
            groups_valid(ifaces@, gv),
            group_named(ifaces@, gv, name@) == group_named(ifaces@, gv.take(i as int), name@),
        decreases i,
    {
        assert(gv.take(i as int).drop_last() =~= gv.take(i - 1));
        assert(gv.take(i as int).last() == gv[i - 1]);
        let idx = groups[i - 1].iface;
        assert(0 <= gv[i - 1].0 < ifaces@.len());
        if str_eq(ifaces[idx].name.as_str(), name) {
            return Some(i - 1);
        }
        i -= 1;
    }
    None
}

/// Groups the ARP-eligible targets by the local interface that reaches them.
pub fn group_arp_targets(ifaces: &Vec<InterfaceInfo>, targets: &Vec<u32>) -> (r: Vec<ArpGroup>)
    requires
        prefixes_valid(ifaces@),
    ensures
        group_views(r@) == arp_groups(ifaces@, targets@),
{
    let mut groups: Vec<ArpGroup> = Vec::new();
    let mut k: usize = 0;
    assert(group_views(groups@) =~= arp_groups(ifaces@, targets@.take(0)));
    while k < targets.len()
        invariant
            k <= targets@.len(),
            prefixes_valid(ifaces@),
            group_views(groups@) == arp_groups(ifaces@, targets@.take(k as int)),
            groups_valid(ifaces@, group_views(groups@)),
        decreases targets@.len() - k,
    {
        assert(targets@.take(k + 1).drop_last() =~= targets@.take(k as int));
        let t = targets[k];
        proof {
            lemma_groups_valid(ifaces@, targets@.take(k + 1));
            lemma_local_interface_valid(ifaces@, 0, t);
        }
        let ghost before = group_views(groups@);
        let nif = ifaces.len();
        let ngr = groups.len();
        assert(targets@.take(k + 1).last() == t);
        match find_local_interface(ifaces, t) {
            None => {
                assert(group_views(groups@) == arp_groups(ifaces@, targets@.take(k + 1)));
            },
            Some((i, a)) => {
                proof {
                    lemma_group_named_valid(ifaces@, before, ifaces@[i as int].name@);
                }
                match find_group(ifaces, &groups, ifaces[i].name.as_str()) {
                    Some(g) => {
                        let mut grp = groups.remove(g);
                        grp.targets.push(t);
                        groups.insert(g, grp);
                        assert(group_views(groups@) =~= before.update(
                            g as int,
                            (before[g as int].0, before[g as int].1, before[g as int].2.push(t)),
                        ));
                        assert(group_views(groups@) == arp_groups(ifaces@, targets@.take(k + 1)));
                    },
                    None => {
                        let mut tv: Vec<u32> = Vec::new();
                        tv.push(t);
                        assert(tv@ =~= seq![t]);
                        groups.push(ArpGroup { iface: i, src_ip: a, targets: tv });
                        assert(group_views(groups@) =~= before.push((i as int, a, seq![t])));
                        assert(group_views(groups@) == arp_groups(ifaces@, targets@.take(k + 1)));
                    },
                }
            },
        }
        k += 1;
    }
    assert(targets@.take(targets@.len() as int) =~= targets@);
    groups
}

/// The broadcast ARP request frame asking who has `target`: Ethernet broadcast
/// destination, our hardware address, type ARP; then hardware type Ethernet,
/// protocol IPv4, address lengths 6 and 4, operation "request", our hardware
/// and protocol addresses, a zero target hardware address and the target.
pub open spec fn arp_request_bytes(src_mac: Seq<u8>, src_ip: u32, target: u32) -> Seq<u8> {
    seq![0xffu8, 0xffu8, 0xffu8, 0xffu8, 0xffu8, 0xffu8] + src_mac + seq![0x08u8, 0x06u8] + seq![
        0x00u8,
        0x01u8,
        0x08u8,
        0x00u8,
        6u8,
        4u8,
        0x00u8,
        0x01u8,
    ] + src_mac + be32_bytes(src_ip) + seq![0u8, 0u8, 0u8, 0u8, 0u8, 0u8] + be32_bytes(target)
}

/// The bytes of an IPv4 address, most significant first.
pub open spec fn be32_bytes(v: u32) -> Seq<u8> {
    seq![(v / 0x100_0000) as u8, ((v / 0x1_0000) % 256) as u8, ((v / 256) % 256) as u8, (v % 256) as u8]
}

fn push_be32(v: &mut Vec<u8>, x: u32)
    ensures
        final(v)@ == old(v)@ + be32_bytes(x),
{
    v.push((x / 0x100_0000) as u8);
    v.push(((x / 0x1_0000) % 256) as u8);
    v.push(((x / 256) % 256) as u8);
    v.push((x % 256) as u8);
    assert(final(v)@ =~= old(v)@ + be32_bytes(x));
}

fn push_mac(v: &mut Vec<u8>, mac: [u8; 6])
    ensures
        final(v)@ == old(v)@ + mac@,
{
    let mut k: usize = 0;
    while k < 6
        invariant
            k <= 6,
            v@ == old(v)@ + mac@.take(k as int),
        decreases 6 - k,
    {
        v.push(mac[k]);
        assert(mac@.take(k + 1) =~= mac@.take(k as int).push(mac@[k as int]));
        k += 1;
    }
    assert(mac@.take(6) =~= mac@);
}

/// Builds the ARP request frame for `target`.
pub fn arp_request_frame(src_mac: [u8; 6], src_ip: u32, target: u32) -> (r: Vec<u8>)
    ensures
        r@ == arp_request_bytes(src_mac@, src_ip, target),
{
    let mut r: Vec<u8> = Vec::new();
    let mut k: usize = 0;
    while k < 6
        invariant
            k <= 6,
            r@ == Seq::new(k as nat, |i: int| 0xffu8),
        decreases 6 - k,
    {
        r.push(0xff);
        assert(r@ =~= Seq::new((k + 1) as nat, |i: int| 0xffu8));
        k += 1;
    }
    assert(r@ =~= seq![0xffu8, 0xffu8, 0xffu8, 0xffu8, 0xffu8, 0xffu8]);
    push_mac(&mut r, src_mac);
    r.push(0x08);
    r.push(0x06);
    r.push(0x00);
    r.push(0x01);
    r.push(0x08);
    r.push(0x00);
    r.push(6);
    r.push(4);
    r.push(0x00);
    r.push(0x01);
    push_mac(&mut r, src_mac);
    push_be32(&mut r, src_ip);
    let mut z: usize = 0;
    let ghost before = r@;
    while z < 6
        invariant
            z <= 6,
            r@ == before + Seq::new(z as nat, |i: int| 0u8),
        decreases 6 - z,
    {
        r.push(0);
        assert(r@ =~= before + Seq::new((z + 1) as nat, |i: int| 0u8));
        z += 1;
    }
    push_be32(&mut r, target);
    assert(r@ =~= arp_request_bytes(src_mac@, src_ip, target));
    r
}

/// The sender of an ARP reply frame: a frame long enough for an Ethernet header
/// and an ARP packet (42 bytes), of type ARP (0x0806), with operation "reply"
/// (2); `None` for any other frame.
pub open spec fn arp_reply_sender(f: Seq<u8>) -> Option<u32> {
    if f.len() >= 42 && f[12] == 0x08 && f[13] == 0x06 && f[20] == 0 && f[21] == 2 {
        Some((f[28] as int * 0x100_0000 + f[29] as int * 0x1_0000 + f[30] as int * 256 + f[31] as int) as u32)
    } else {
        None
    }
}

/// Reads the sender's IPv4 address out of an ARP reply frame.
pub fn parse_arp_reply(frame: &[u8]) -> (r: Option<u32>)
    ensures
        r == arp_reply_sender(frame@),
{
    if frame.len() >= 42 && frame[12] == 0x08 && frame[13] == 0x06 && frame[20] == 0 && frame[21]
        == 2 {
        let a: u32 = (frame[28] as u32) * 0x100_0000 + (frame[29] as u32) * 0x1_0000 + (frame[30] as u32)
            * 256 + (frame[31] as u32);
        Some(a)
    } else {
        None
    }
}

/// `s` without any copy of `x`.
pub open spec fn without(s: Seq<u32>, x: u32) -> Seq<u32>
    decreases s.len(),
{
    if s.len() == 0 {
        Seq::empty()
    } else {
        let r = without(s.drop_last(), x);
        if s.last() == x {
            r
        } else {
            r.push(s.last())
        }
    }
}

/// Takes in one received frame while waiting for ARP replies: a reply from a
/// target still pending moves it from `pending` to the end of `found`; any
/// other frame changes nothing.
pub fn take_reply(pending: &mut Vec<u32>, found: &mut Vec<u32>, frame: &[u8])
    ensures
        match arp_reply_sender(frame@) {
            Some(s) => if old(pending)@.contains(s) {
                &&& final(pending)@ == without(old(pending)@, s)
                &&& final(found)@ == old(found)@.push(s)
            } else {
                &&& final(pending)@ == old(pending)@
                &&& final(found)@ == old(found)@
            },
            None => {
                &&& final(pending)@ == old(pending)@
                &&& final(found)@ == old(found)@
            },
        },
{
    let sender = match parse_arp_reply(frame) {
        Some(s) => s,
        None => return,
    };
    let mut kept: Vec<u32> = Vec::new();
    let mut hit = false;
    let mut i: usize = 0;
    while i < pending.len()
        invariant
            i <= pending@.len(),
            pending@ == old(pending)@,
            kept@ == without(pending@.take(i as int), sender),
            hit == pending@.take(i as int).contains(sender),
        decreases pending@.len() - i,
    {
        assert(pending@.take(i + 1).drop_last() =~= pending@.take(i as int));
        let x = pending[i];
        if x == sender {
            hit = true;
            assert(pending@.take(i + 1)[i as int] == sender);
        } else {
            kept.push(x);
            assert(pending@.take(i + 1).contains(sender) ==> pending@.take(i as int).contains(sender)) by {
                if pending@.take(i + 1).contains(sender) {
                    let m = choose|m: int| 0 <= m < i + 1 && #[trigger] pending@.take(i + 1)[m] == sender;
                    assert(pending@.take(i as int)[m] == sender);
                }
            }
        }
        assert(pending@.take(i as int).contains(sender) ==> pending@.take(i + 1).contains(sender)) by {
            if pending@.take(i as int).contains(sender) {
                let m = choose|m: int| 0 <= m < i && #[trigger] pending@.take(i as int)[m] == sender;
                assert(pending@.take(i + 1)[m] == sender);
            }
        }
        i += 1;
    }
    assert(pending@.take(pending@.len() as int) =~= pending@);
    if hit {
        *pending = kept;
        found.push(sender);
    }
}


/// A request frame we send is never taken for a reply: its operation field says
/// "request".
pub proof fn lemma_own_request_not_reply(src_mac: Seq<u8>, src_ip: u32, target: u32)
    requires
        src_mac.len() == 6,
    ensures
        arp_reply_sender(arp_request_bytes(src_mac, src_ip, target)) is None,
{
    let f = arp_request_bytes(src_mac, src_ip, target);
    assert(f[21] == 1u8);
}

} // verus!
