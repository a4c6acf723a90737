//! Protocol-specific enumeration: what each module decides from the responses
//! it gets, and the findings it reports.

pub mod dns;
pub mod ftp;
pub mod http;
pub mod smb;
pub mod snmp;
pub mod tls;

use vstd::prelude::*;
use crate::model::{HostResult, PortResult, PortView, port_views, opt_text};
use crate::text::{lower_text, seq_contains, to_lowercase};

verus! {

/// The lower-cased service name, if any.
pub open spec fn lowered_service(service: Option<Seq<char>>) -> Option<Seq<char>> {
    match service {
        Some(s) => Some(lower_text(s)),
        None => None,
    }
}

/// The service name, lower-cased, contains `pat`.
pub open spec fn service_mentions(service: Option<Seq<char>>, pat: Seq<char>) -> bool {
    match lowered_service(service) {
        Some(s) => seq_contains(s, pat),
        None => false,
    }
}

/// The lower-cased service name of a port result, if any.
pub fn lower_service(p: &PortResult) -> (r: Option<String>)
    ensures
        opt_text(r) == lowered_service(p@.service),
{
    match &p.service {
        Some(s) => Some(to_lowercase(s.as_str())),
        None => None,
    }
}

/// The ports, in order, whose results satisfy `pred`.
pub open spec fn ports_where(ps: Seq<PortView>, pred: spec_fn(PortView) -> bool) -> Seq<u16>
    decreases ps.len(),
{
    if ps.len() == 0 {
        Seq::empty()
    } else {
        let r = ports_where(ps.drop_last(), pred);
        if pred(ps.last()) {
            r.push(ps.last().port)
        } else {
            r
        }
    }
}

} // verus!
