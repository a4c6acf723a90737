# netenum

An asynchronous network enumeration tool: host discovery, TCP connect / SYN /
UDP port scans, banner and UDP service identification, optional Nmap
enrichment, protocol enumeration (DNS, HTTP, FTP, SMB, SNMP, TLS), scope
guardrails and a console / JSON report.

## Layout

- `src/` — the library, verified with Verus: every decision the tool makes
  (port-list parsing, profile selection, scope policy, target classification,
  scan summaries, packet and request building, reply parsing, finding
  construction, report formatting) stands there with a contract. Calls into
  outside crates (`ipnet`, `x509-parser`, `pnet` checksums, `socket2`) sit
  behind small trusted wrappers whose doc comments say what is assumed.
- `app/` — the `netenum` binary: argument parsing, sockets, subprocesses,
  resolvers, TLS handshakes, the Lua plugin runtime and the JSON/TOML/XML
  formats. It hands plain values to the library and acts on what comes back.
- `tests/` — tests of the library's behaviour on concrete values.

The SMB null-session probe in `app/enumerate.rs` uses the `smb` client crate,
which is not among this crate's dependencies, so `app/` does not type-check at
that call. The
decisions around the probe (`null_session_findings` and the negotiate
findings) are in `src/` and verified.
