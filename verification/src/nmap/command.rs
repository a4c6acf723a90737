//! The Nmap command line: scan options, ports, NSE scripts and targets.

use vstd::prelude::*;
use crate::ip::{IpAddress, ip_text, push_ip};
use crate::model::{TransportProtocol, texts};
use crate::text::{dec_text, join_with, push_decimal, push_str, str_eq, string_from_chars};

verus! {

pub struct NmapCommandBuilder {
    pub targets: Vec<IpAddress>,
    pub ports: Vec<u16>,
    pub protocol: TransportProtocol,
    pub version_detection: bool,
    pub os_detection: bool,
    pub scripts: Vec<String>,
}

/// The arguments Nmap is run with: XML report on standard output; a UDP scan when
/// asked; version and OS detection when enabled; the ports, comma-separated, when
/// there are any; the scripts, comma-separated, when there are any; then every
/// target address.
pub open spec fn nmap_args(
    targets: Seq<IpAddress>,
    ports: Seq<u16>,
    protocol: TransportProtocol,
    version_detection: bool,
    os_detection: bool,
    scripts: Seq<Seq<char>>,
) -> Seq<Seq<char>> {
    option_args(protocol, version_detection, os_detection) + port_args(ports) + script_args(scripts)
        + targets.map_values(|ip: IpAddress| ip_text(ip))
}

pub open spec fn option_args(protocol: TransportProtocol, version_detection: bool, os_detection: bool) -> Seq<Seq<char>> {
    seq!["-oX"@, "-"@] + (if protocol == TransportProtocol::Udp {
        seq!["-sU"@]
    } else {
        Seq::empty()
    }) + (if version_detection {
        seq!["-sV"@]
    } else {
        Seq::empty()
    }) + (if os_detection {
        seq!["-O"@]
    } else {
        Seq::empty()
    })
}

pub open spec fn port_args(ports: Seq<u16>) -> Seq<Seq<char>> {
    if ports.len() > 0 {
        seq!["-p"@, join_with(ports.map_values(|p: u16| dec_text(p as nat)), seq![','])]
    } else {
        Seq::empty()
    }
}

pub open spec fn script_args(scripts: Seq<Seq<char>>) -> Seq<Seq<char>> {
    if scripts.len() > 0 {
        seq!["--script"@, join_with(scripts, seq![','])]
    } else {
        Seq::empty()
    }
}

fn port_list_text(ports: &Vec<u16>) -> (r: String)
    ensures
        r@ == join_with(ports@.map_values(|p: u16| dec_text(p as nat)), seq![',']),
{
    let ghost pv = ports@.map_values(|p: u16| dec_text(p as nat));
    let mut out: Vec<char> = Vec::new();
    let mut i: usize = 0;
    while i < ports.len()
        invariant
            i <= ports@.len(),
            pv == ports@.map_values(|p: u16| dec_text(p as nat)),
            out@ == join_with(pv.take(i as int), seq![',']),
        decreases ports@.len() - i,
    {
        proof {
            crate::text::lemma_join_with_push(pv, seq![','], i as int);
        }
        if i > 0 {
            out.push(',');
        }
        push_decimal(&mut out, ports[i] as u64);
        i += 1;
    }
    assert(pv.take(ports@.len() as int) =~= pv);
    string_from_chars(&out)
}

fn push_target_args(args: &mut Vec<String>, targets: &Vec<IpAddress>)
    ensures
        texts(final(args)@) == texts(old(args)@) + targets@.map_values(|ip: IpAddress| ip_text(ip)),
{
    let ghost before_targets = texts(args@);
    let mut k: usize = 0;
    while k < targets.len()
        invariant
            k <= targets@.len(),
            texts(args@) == before_targets + targets@.take(k as int).map_values(
                |ip: IpAddress| ip_text(ip),
            ),
        decreases targets@.len() - k,
    {
        let mut t: Vec<char> = Vec::new();
        push_ip(&mut t, targets[k]);
        let ghost prev = texts(args@);
        args.push(string_from_chars(&t));
        assert(t@ =~= ip_text(targets@[k as int]));
        assert(targets@.take(k + 1).map_values(|ip: IpAddress| ip_text(ip)) =~= targets@.take(
            k as int,
        ).map_values(|ip: IpAddress| ip_text(ip)).push(ip_text(targets@[k as int])));
        assert(texts(args@) =~= prev.push(t@));
        k += 1;
    }
    assert(targets@.take(targets@.len() as int) =~= targets@);
}

impl NmapCommandBuilder {
    /// A TCP scan of `ports` on `targets` with version detection and no OS
    /// detection or scripts.
    pub fn new(targets: Vec<IpAddress>, ports: Vec<u16>) -> (b: Self)
        ensures
            b.targets@ == targets@,
            b.ports@ == ports@,
            b.protocol == TransportProtocol::Tcp,
            b.version_detection,
            !b.os_detection,
            b.scripts@.len() == 0,
    {
        NmapCommandBuilder {
            targets,
            ports,
            protocol: TransportProtocol::Tcp,
            version_detection: true,
            os_detection: false,
            scripts: Vec::new(),
        }
    }

    pub fn with_protocol(self, protocol: TransportProtocol) -> (b: Self)
        ensures
            b == (NmapCommandBuilder { protocol, ..self }),
    {
        let mut b = self;
        b.protocol = protocol;
        b
    }

    pub fn with_os_detection(self, enabled: bool) -> (b: Self)
        ensures
            b == (NmapCommandBuilder { os_detection: enabled, ..self }),
    {
        let mut b = self;
        b.os_detection = enabled;
        b
    }

    pub fn with_version_detection(self, enabled: bool) -> (b: Self)
        ensures
            b == (NmapCommandBuilder { version_detection: enabled, ..self }),
    {
        let mut b = self;
        b.version_detection = enabled;
        b
    }

    /// Adds a script unless one with the same name is already attached.
    pub fn with_script(self, script: String) -> (b: Self)
        ensures
            b.targets == self.targets,
            b.ports == self.ports,
            b.protocol == self.protocol,
            b.version_detection == self.version_detection,
            b.os_detection == self.os_detection,
            texts(b.scripts@) == if texts(self.scripts@).contains(script@) {
                texts(self.scripts@)
            } else {
                texts(self.scripts@).push(script@)
            },
    {
        let mut b = self;
        let mut i: usize = 0;
        while i < b.scripts.len()
            invariant
                b == self,
                i <= self.scripts@.len(),
                forall|j: int| 0 <= j < i ==> self.scripts@[j]@ != script@,
            decreases self.scripts@.len() - i,
        {
            if str_eq(b.scripts[i].as_str(), script.as_str()) {
                assert(texts(self.scripts@)[i as int] == script@);
                return b;
            }
            i += 1;
        }
        assert(!texts(self.scripts@).contains(script@)) by {
            if texts(self.scripts@).contains(script@) {
                let j = choose|j: int| 0 <= j < self.scripts@.len() && texts(self.scripts@)[j] == script@;
                assert(self.scripts@[j]@ == script@);
            }
        }
        let ghost before = texts(self.scripts@);
        b.scripts.push(script);
        assert(texts(b.scripts@) =~= before.push(script@));
        b
    }

    /// The argument list for this scan.
    pub fn build_args(&self) -> (args: Vec<String>)
        ensures
            texts(args@) == nmap_args(
                self.targets@,
                self.ports@,
                self.protocol,
                self.version_detection,
                self.os_detection,
                texts(self.scripts@),
            ),
    {
        let mut args: Vec<String> = Vec::new();
        args.push("-oX".to_owned());
        args.push("-".to_owned());
        if self.protocol == TransportProtocol::Udp {
            args.push("-sU".to_owned());
        }
        if self.version_detection {
            args.push("-sV".to_owned());
        }
        if self.os_detection {
            args.push("-O".to_owned());
        }
        assert(texts(args@) =~= option_args(self.protocol, self.version_detection, self.os_detection));
        let ghost s1 = texts(args@);
        if self.ports.len() > 0 {
            args.push("-p".to_owned());
            args.push(port_list_text(&self.ports));
        }
        assert(texts(args@) =~= s1 + port_args(self.ports@));
        let ghost s2 = texts(args@);
        if self.scripts.len() > 0 {
            args.push("--script".to_owned());
            args.push(crate::text::join_strings(&self.scripts, ","));
            assert(self.scripts@.map_values(|s: String| s@) =~= texts(self.scripts@));
            proof {
                reveal_strlit(",");
            }
            assert(","@ =~= seq![',']);
        }
        assert(texts(args@) =~= s2 + script_args(texts(self.scripts@)));
        push_target_args(&mut args, &self.targets);
        assert(texts(args@) =~= nmap_args(
            self.targets@,
            self.ports@,
            self.protocol,
            self.version_detection,
            self.os_detection,
            texts(self.scripts@),
        ));
        args
    }
}

/// What `Path::new(dir).join(file)` yields, as text.
pub uninterp spec fn joined_path(dir: Seq<char>, file: Seq<char>) -> Seq<char>;

/// `Path::join` of two texts, given back as text (lossless: both inputs are
/// UTF-8); what it yields is named `joined_path`. The contract adds the two
/// cases `Path::join` / `PathBuf::push` document (paths on Unix, where this tool
/// runs): an absolute `file` (leading `/`) replaces `dir`, and a relative one
/// extends a `dir` that does not end in `/`, with a `/` between them. Other cases
/// (empty or `/`-ended `dir`) are left to the name.
#[verifier::external_body]
fn join_path(dir: &str, file: &str) -> (r: String)
    ensures
        r@ == joined_path(dir@, file@),
        file@.len() > 0 && file@[0] == '/' ==> r@ == file@,
        file@.len() > 0 && file@[0] != '/' && dir@.len() > 0 && dir@.last() != '/' ==> r@ == dir@
            + seq!['/'] + file@,
{
    std::path::Path::new(dir).join(file).to_string_lossy().into_owned()
}

/// `Path::exists`: whether something is on disk at that path right now.
/// Nothing is stated of the answer.
#[verifier::external_body]
fn path_exists(path: &str) -> bool {
    std::path::Path::new(path).exists()
}

/// The scripts attached for a set of open ports: `etcd-info.nse` when the etcd
/// port 2379 is open, given by `script_path` when a script file is present there
/// and by bare name otherwise.
pub open spec fn scripts_for(open_ports: Seq<u16>, script_path: Seq<char>, present: bool) -> Seq<
    Seq<char>,
> {
    if open_ports.contains(2379u16) {
        if present {
            seq![script_path]
        } else {
            seq!["etcd-info.nse"@]
        }
    } else {
        Seq::empty()
    }
}

/// Chooses the scripts for a set of open ports, given whether the custom script
/// file is present at `script_path`.
pub fn select_scripts(open_ports: &[u16], script_path: &str, present: bool) -> (r: Vec<String>)
    ensures
        texts(r@) == scripts_for(open_ports@, script_path@, present),
{
    let mut scripts: Vec<String> = Vec::new();
    let mut has_etcd = false;
    let mut i: usize = 0;
    while i < open_ports.len()
        invariant
            i <= open_ports@.len(),
            has_etcd == exists|j: int| 0 <= j < i && open_ports@[j] == 2379u16,
        decreases open_ports@.len() - i,
    {
        if open_ports[i] == 2379 {
            has_etcd = true;
        }
        i += 1;
    }
    assert(has_etcd == open_ports@.contains(2379u16));
    if has_etcd {
        if present {
            scripts.push(script_path.to_owned());
        } else {
            scripts.push("etcd-info.nse".to_owned());
        }
    }
    assert(texts(scripts@) =~= scripts_for(open_ports@, script_path@, present));
    scripts
}

/// Automatically registers custom scripts based on the open ports found: for the
/// etcd port 2379, the script `etcd-info.nse` under `custom_nse_dir` when that file
/// exists, else the script by bare name. Whether the file exists is read from disk.
pub fn auto_select_scripts(open_ports: &[u16], custom_nse_dir: &str) -> (r: Vec<String>)
    ensures
        exists|present: bool|
            texts(r@) == scripts_for(
                open_ports@,
                joined_path(custom_nse_dir@, "etcd-info.nse"@),
                present,
            ),
{
    let path = join_path(custom_nse_dir, "etcd-info.nse");
    let present = path_exists(path.as_str());
    select_scripts(open_ports, path.as_str(), present)
}

} // verus!
