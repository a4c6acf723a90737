//! The parts of Nmap's XML report (`-oX`) that enrichment reads.

use vstd::prelude::*;

verus! {

#[derive(Debug, Clone)]
pub struct NmapRun {
    pub hosts: Vec<Host>,
}

#[derive(Debug, Clone)]
pub struct Host {
    pub addresses: Vec<Address>,
    pub ports_container: Option<PortsContainer>,
    pub os: Option<Os>,
}

#[derive(Debug, Clone)]
pub struct Os {
    pub matches: Vec<OsMatch>,
}

#[derive(Debug, Clone)]
pub struct OsMatch {
    pub name: String,
    pub accuracy: u8,
}

#[derive(Debug, Clone)]
pub struct Address {
    pub addr: String,
    pub addr_type: String,
}

#[derive(Debug, Clone)]
pub struct PortsContainer {
    pub ports: Vec<Port>,
}

#[derive(Debug, Clone)]
pub struct Port {
    pub port_id: u16,
    pub state: State,
    pub service: Option<Service>,
    pub scripts: Vec<Script>,
}

#[derive(Debug, Clone)]
pub struct State {
    pub state: String,
}

#[derive(Debug, Clone)]
pub struct Service {
    pub name: Option<String>,
    pub product: Option<String>,
    pub version: Option<String>,
    pub extra_info: Option<String>,
    /// Nmap's own match confidence, 0-10.
    pub conf: Option<u8>,
}

#[derive(Debug, Clone)]
pub struct Script {
    pub id: String,
    pub output: Option<String>,
}

} // verus!
