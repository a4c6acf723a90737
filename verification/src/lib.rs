//! Network enumeration toolkit: the verified core.

pub mod text;
pub mod ip;
pub mod ip_roundtrip;
pub mod model;
pub mod cli;
pub mod config;
pub mod capabilities;
pub mod nmap;
pub mod engine;
pub mod scope;
pub mod targets;
pub mod enumeration;
pub mod banner;
pub mod scanners;
pub mod udp_identify;
pub mod discovery;
pub mod scripting;
pub mod report;
