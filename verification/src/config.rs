//! Scan profiles and the configuration a scan finally runs with.

use vstd::prelude::*;
use crate::text::copy_range;

verus! {

#[derive(Debug, Clone)]
pub struct DiscoveryProfile {
    pub ping: bool,
    pub tcp_ports: Vec<u16>,
}

#[derive(Debug, Clone)]
pub struct Profile {
    pub concurrency: Option<usize>,
    pub timeout_ms: Option<u64>,
    pub discovery: Option<DiscoveryProfile>,
}

/// A profiles file: named profiles, in the order the file's table yields them.
#[derive(Debug, Clone)]
pub struct ConfigFile {
    pub profiles: Vec<(String, Profile)>,
}

/// The final resolved configuration for the scan.
#[derive(Debug, Clone)]
pub struct ScanConfig {
    pub concurrency: usize,
    pub timeout_ms: u64,
    pub ping_discovery: bool,
    pub tcp_ping_ports: Vec<u16>,
}

/// The TCP ports probed for host discovery when no profile names any.
pub open spec fn default_tcp_ping_ports() -> Seq<u16> {
    seq![22u16, 80u16, 443u16, 445u16]
}

impl ScanConfig {
    /// The command-line values, each overridden by the profile's value when the
    /// profile sets one; discovery defaults to ping plus TCP ports 22, 80, 443 and
    /// 445 unless the profile has a discovery section.
    pub fn merge(cli_concurrency: usize, cli_timeout: u64, profile: Option<&Profile>) -> (c: Self)
        ensures
            c.concurrency == (match profile {
                Some(p) => match p.concurrency {
                    Some(n) => n,
                    None => cli_concurrency,
                },
                None => cli_concurrency,
            }),
            c.timeout_ms == (match profile {
                Some(p) => match p.timeout_ms {
                    Some(t) => t,
                    None => cli_timeout,
                },
                None => cli_timeout,
            }),
            c.ping_discovery == (match profile {
                Some(p) => match p.discovery {
                    Some(d) => d.ping,
                    None => true,
                },
                None => true,
            }),
            c.tcp_ping_ports@ == (match profile {
                Some(p) => match p.discovery {
                    Some(d) => d.tcp_ports@,
                    None => default_tcp_ping_ports(),
                },
                None => default_tcp_ping_ports(),
            }),
    {
        let mut concurrency = cli_concurrency;
        let mut timeout_ms = cli_timeout;
        let mut ping_discovery = true;
        let mut tcp_ping_ports: Vec<u16> = vec![22, 80, 443, 445];
        assert(tcp_ping_ports@ =~= default_tcp_ping_ports());

        if let Some(prof) = profile {
            if let Some(c) = prof.concurrency {
                concurrency = c;
            }
            if let Some(t) = prof.timeout_ms {
                timeout_ms = t;
            }
            if let Some(disc) = &prof.discovery {
                ping_discovery = disc.ping;
                tcp_ping_ports = copy_range(&disc.tcp_ports, 0, disc.tcp_ports.len());
                assert(tcp_ping_ports@ =~= disc.tcp_ports@);
            }
        }

        ScanConfig { concurrency, timeout_ms, ping_discovery, tcp_ping_ports }
    }
}

/// Why no profile could be chosen.
#[derive(Debug, Clone, PartialEq, Eq)]
pub enum ProfileError {
    /// The named profile is not in the profiles file.
    NotFound(String),
    /// A profile name was given without a profiles file.
    NameWithoutFile,
}

impl ProfileError {
    /// The message shown for the error.
    pub fn message(&self) -> (m: String)
        ensures
            m@ == (match self {
                ProfileError::NotFound(name) => "Error: Profile '"@ + name@
                    + "' not found in profiles file."@,
                ProfileError::NameWithoutFile => "Error: Profile name specified without a profiles file path (--profile-path / -P)."@,
            }),
    {
        match self {
            ProfileError::NotFound(name) => {
                let mut v = crate::text::chars_of("Error: Profile '");
                crate::text::push_str(&mut v, name.as_str());
                crate::text::push_str(&mut v, "' not found in profiles file.");
                let m = crate::text::string_from_chars(&v);
                assert(m@ =~= "Error: Profile '"@ + name@ + "' not found in profiles file."@);
                m
            },
            ProfileError::NameWithoutFile => {
                "Error: Profile name specified without a profiles file path (--profile-path / -P).".to_owned()
            },
        }
    }
}

/// The index of the first profile called `name`, if any.
pub open spec fn profile_index(profiles: Seq<(String, Profile)>, name: Seq<char>) -> Option<int> {
    let i = crate::text::first_index_from(0, profiles.len() as int, |j: int| profiles[j].0@ == name);
    if i < profiles.len() {
        Some(i)
    } else {
        None
    }
}

fn find_profile(profiles: &Vec<(String, Profile)>, name: &str) -> (r: Option<usize>)
    ensures
        match r {
            Some(i) => profile_index(profiles@, name@) == Some(i as int),
            None => profile_index(profiles@, name@) is None,
        },
{
    let ghost p = |j: int| profiles@[j].0@ == name@;
    let mut i: usize = 0;
    while i < profiles.len()
        invariant
            i <= profiles@.len(),
            p == (|j: int| profiles@[j].0@ == name@),
            crate::text::first_index_from(0, profiles@.len() as int, p)
                == crate::text::first_index_from(i as int, profiles@.len() as int, p),
        decreases profiles@.len() - i,
    {
        if crate::text::str_eq(profiles[i].0.as_str(), name) {
            return Some(i);
        }
        i += 1;
    }
    None
}

/// Which profile a scan uses: the one named, when a name is given (an error when
/// there is no profiles file or no such profile); otherwise, with a profiles file,
/// the one called `default`, else the first profile of the file (the flag of the
/// result is then set), else none.
pub fn select_profile(config: Option<&ConfigFile>, name: Option<&str>) -> (r: Result<
    (Option<usize>, bool),
    ProfileError,
>)
    ensures
        match (config, name) {
            (None, Some(_)) => r == Err::<(Option<usize>, bool), ProfileError>(
                ProfileError::NameWithoutFile,
            ),
            (None, None) => r == Ok::<(Option<usize>, bool), ProfileError>((None, false)),
            (Some(c), Some(n)) => match profile_index(c.profiles@, n@) {
                Some(i) => r == Ok::<(Option<usize>, bool), ProfileError>((Some(i as usize), false)),
                None => r matches Err(ProfileError::NotFound(m)) && m@ == n@,
            },
            (Some(c), None) => match profile_index(c.profiles@, "default"@) {
                Some(i) => r == Ok::<(Option<usize>, bool), ProfileError>((Some(i as usize), false)),
                None => if c.profiles@.len() > 0 {
                    r == Ok::<(Option<usize>, bool), ProfileError>((Some(0), true))
                } else {
                    r == Ok::<(Option<usize>, bool), ProfileError>((None, false))
                },
            },
        },
{
    match (config, name) {
        (None, Some(_)) => Err(ProfileError::NameWithoutFile),
        (None, None) => Ok((None, false)),
        (Some(c), Some(n)) => match find_profile(&c.profiles, n) {
            Some(i) => Ok((Some(i), false)),
            None => Err(ProfileError::NotFound(n.to_owned())),
        },
        (Some(c), None) => match find_profile(&c.profiles, "default") {
            Some(i) => Ok((Some(i), false)),
            None => if c.profiles.len() > 0 {
                Ok((Some(0), true))
            } else {
                Ok((None, false))
            },
        },
    }
}

} // verus!
