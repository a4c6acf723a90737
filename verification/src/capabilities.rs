//! What the machine running a scan can do.

use vstd::prelude::*;

verus! {

/// The system capabilities detected at runtime: whether privileged raw packet
/// operations (such as SYN scans) are possible, and whether the Nmap binary is
/// available to perform service enrichment.
#[derive(Debug, Clone, Copy)]
pub struct Capabilities {
    /// True if the `nmap` binary was found on the system PATH.
    pub nmap_present: bool,
    /// True if the program has permissions to open raw sockets.
    pub has_raw_socket: bool,
}

/// Tries to open a raw ICMP socket (`socket2::Socket::new` with a
/// `libc::SOCK_RAW` type), which needs CAP_NET_RAW or root. The answer depends
/// on the machine and the process's privileges, so nothing is stated of it.
#[verifier::external_body]
fn raw_socket_allowed() -> bool {
    let raw_type = socket2::Type::from(libc::SOCK_RAW);
    socket2::Socket::new(socket2::Domain::IPV4, raw_type, Some(socket2::Protocol::ICMPV4)).is_ok()
}

impl Capabilities {
    /// The capabilities of this machine, given whether the `nmap` binary answered
    /// on the system PATH: raw-socket permission is probed here.
    pub fn detect(nmap_present: bool) -> (c: Capabilities)
        ensures
            c.nmap_present == nmap_present,
    {
        let has_raw_socket = raw_socket_allowed();
        Capabilities { nmap_present, has_raw_socket }
    }
}

} // verus!
