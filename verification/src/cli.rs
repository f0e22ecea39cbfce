//! Command-line settings, the checks on flag combinations, and how the
//! destination or bind address is worked out from them.

use vstd::prelude::*;

use std::path::PathBuf;

use crate::matcher::{pattern_error, regex_compile_error};
use crate::text::chars_of;

verus! {

#[verifier::external_type_specification]
#[verifier::external_body]
pub struct ExPathBuf(PathBuf);

/// The settings of one invocation (client mode: `rnc [OPTIONS] <HOST> <PORT>`;
/// server mode: `rnc -l [OPTIONS] [BIND_ADDR] <PORT>` or `rnc -l -p <PORT>`).
#[derive(Debug)]
pub struct Cli {
    /// Listen for an incoming connection instead of connecting out.
    pub listen: bool,
    /// Use UDP instead of TCP.
    pub udp: bool,
    /// Verbosity level (one per `-v`).
    pub verbose: u8,
    /// Server mode: keep listening after a connection ends.
    pub keep_open: bool,
    /// Port given with `-p`.
    pub port_flag: Option<u16>,
    /// Connection and idle read timeout, in seconds.
    pub timeout: Option<u64>,
    /// Command whose stdio is wired to the connection.
    pub exec_command: Option<String>,
    /// Hex-dump traffic to stderr.
    pub hex: bool,
    /// Print a transfer summary at the end.
    pub stats: bool,
    /// Elapsed-time markers in the hex dump.
    pub timestamp: bool,
    /// File that receives the JSON-lines event log.
    pub json_log: Option<PathBuf>,
    /// Receive-side line filter pattern.
    pub filter: Option<String>,
    /// Throughput cap in bytes per second.
    pub rate_limit: Option<u64>,
    /// Client mode: how many times to retry a failed connection.
    pub retry: u32,
    /// Client mode: seconds between retries.
    pub retry_delay: u64,
    /// Server mode: relay between all connected clients.
    pub broadcast: bool,
    /// Client mode: SOCKS5 proxy as `HOST:PORT`.
    pub proxy: Option<String>,
    /// Wrap the connection in TLS.
    pub tls: bool,
    /// Client TLS: skip certificate verification.
    pub tls_insecure: bool,
    /// Client TLS: CA certificates to trust.
    pub tls_ca: Option<PathBuf>,
    /// Server TLS: certificate chain file.
    pub tls_cert: Option<PathBuf>,
    /// Server TLS: private key file.
    pub tls_key: Option<PathBuf>,
    /// Destination host (client) or bind address (server).
    pub host: Option<String>,
    /// Destination port (client) or listen port (server).
    pub port: Option<u16>,
}

impl Default for Cli {
    /// Every flag off, every option absent, every count zero.
    fn default() -> (r: Cli)
        ensures
            !r.listen && !r.udp && r.verbose == 0 && !r.keep_open,
            r.port_flag is None && r.timeout is None && r.exec_command is None,
            !r.hex && !r.stats && !r.timestamp,
            r.json_log is None && r.filter is None && r.rate_limit is None,
            r.retry == 0 && r.retry_delay == 0,
            !r.broadcast && r.proxy is None,
            !r.tls && !r.tls_insecure,
            r.tls_ca is None && r.tls_cert is None && r.tls_key is None,
            r.host is None && r.port is None,
    {
        Cli {
            listen: false,
            udp: false,
            verbose: 0,
            keep_open: false,
            port_flag: None,
            timeout: None,
            exec_command: None,
            hex: false,
            stats: false,
            timestamp: false,
            json_log: None,
            filter: None,
            rate_limit: None,
            retry: 0,
            retry_delay: 0,
            broadcast: false,
            proxy: None,
            tls: false,
            tls_insecure: false,
            tls_ca: None,
            tls_cert: None,
            tls_key: None,
            host: None,
            port: None,
        }
    }
}

/// The address and port a session dials or binds.
#[derive(Debug, PartialEq, Eq)]
pub struct Target {
    pub addr: String,
    pub port: u16,
}

/// Whether `c` is an ASCII decimal digit.
pub open spec fn is_digit(c: char) -> bool {
    '0' <= c && c <= '9'
}

/// The number written by the decimal digits `s` (leading zeros allowed).
pub open spec fn digits_value(s: Seq<char>) -> nat
    decreases s.len(),
{
    if s.len() == 0 {
        0
    } else {
        digits_value(s.drop_last()) * 10 + ((s.last() as u32) - ('0' as u32)) as nat
    }
}

/// The digits of a port string: a leading `+` is dropped when something
/// follows it.
pub open spec fn port_digits(s: Seq<char>) -> Seq<char> {
    if s.len() > 1 && s[0] == '+' {
        s.drop_first()
    } else {
        s
    }
}

/// What parsing `s` as a `u16` gives: an optional `+`, then one or more
/// ASCII digits whose value is at most 65535.
pub open spec fn parse_port_spec(s: Seq<char>) -> Option<u16> {
    let d = port_digits(s);
    if d.len() > 0 && (forall|i: int| 0 <= i < d.len() ==> #[trigger] is_digit(d[i])) && digits_value(d)
        <= 65535 {
        Some(digits_value(d) as u16)
    } else {
        None
    }
}

proof fn lemma_digits_value_take(s: Seq<char>, k: int)
    requires
        0 <= k < s.len(),
    ensures
        digits_value(s.take(k + 1)) == digits_value(s.take(k)) * 10 + ((s[k] as u32) - ('0' as u32)) as nat,
{
    assert(s.take(k + 1).drop_last() =~= s.take(k));
}

proof fn lemma_digits_value_prefix_le(s: Seq<char>, k: int)
    requires
        0 <= k <= s.len(),
        forall|i: int| 0 <= i < s.len() ==> #[trigger] is_digit(s[i]),
    ensures
        digits_value(s.take(k)) <= digits_value(s),
    decreases s.len(),
{
    if k == s.len() {
        assert(s.take(k) =~= s);
    } else {
        let t = s.drop_last();
        assert forall|i: int| 0 <= i < t.len() implies #[trigger] is_digit(t[i]) by {
            assert(t[i] == s[i]);
        }
        lemma_digits_value_prefix_le(t, k);
        assert(t.take(k) =~= s.take(k));
    }
}

/// Parses a port number as `u16::from_str` does.
pub fn parse_port(s: &str) -> (r: Option<u16>)
    ensures
        r == parse_port_spec(s@),
{
    let cs = chars_of(s);
    let ghost d = port_digits(s@);
    let start: usize = if cs.len() > 1 && cs[0] == '+' { 1 } else { 0 };
    assert(d =~= cs@.skip(start as int));
    if start == cs.len() {
        return None;
    }
    let mut value: u32 = 0;
    let mut i: usize = start;
    while i < cs.len()
        invariant
            start <= i <= cs.len(),
            start < cs.len(),
            cs@ == s@,
            d == port_digits(s@),
            d =~= cs@.skip(start as int),
            forall|j: int| 0 <= j < i - start ==> #[trigger] is_digit(d[j]),
            value as nat == digits_value(d.take(i - start)),
            value <= 65535,
        decreases cs.len() - i,
    {
        let c = cs[i];
        if !('0' <= c && c <= '9') {
            assert(!is_digit(d[i - start]));
            return None;
        }
        proof {
            lemma_digits_value_take(d, i - start);
        }
        let next: u32 = value * 10 + ((c as u32) - ('0' as u32));
        if next > 65535 {
            proof {
                if forall|m: int| 0 <= m < d.len() ==> #[trigger] is_digit(d[m]) {
                    lemma_digits_value_prefix_le(d, i - start + 1);
                }
            }
            return None;
        }
        value = next;
        i = i + 1;
    }
    assert(d.take(i - start) =~= d);
    Some(value as u16)
}

/// The listen address used when none is given.
pub open spec fn any_address() -> Seq<char> {
    "0.0.0.0"@
}

/// The bind address in listen mode: the host if given, else `0.0.0.0`.
pub open spec fn bind_address(host: Option<String>) -> Seq<char> {
    match host {
        Some(h) => h@,
        None => any_address(),
    }
}

/// Where a session goes, or why it cannot start: in listen mode the port is
/// `-p`, else the positional port, else a lone positional taken as the port;
/// in client mode the host is required, and the port is the positional one
/// or else `-p`.
pub open spec fn target_spec(c: Cli) -> Result<(Seq<char>, u16), Seq<char>> {
    if c.listen {
        if c.port_flag is Some {
            Ok((bind_address(c.host), c.port_flag->0))
        } else if c.port is Some {
            Ok((bind_address(c.host), c.port->0))
        } else if c.host is Some {
            match parse_port_spec(c.host->0@) {
                Some(p) => Ok((any_address(), p)),
                None => Err("invalid port number: "@ + c.host->0@),
            }
        } else {
            Err("listen mode requires a port (-p <PORT> or a positional PORT)"@)
        }
    } else if c.host is None {
        Err("missing destination host"@)
    } else if c.port is Some {
        Ok((c.host->0@, c.port->0))
    } else if c.port_flag is Some {
        Ok((c.host->0@, c.port_flag->0))
    } else {
        Err("missing destination port"@)
    }
}

/// The first flag combination that `validate` refuses, as its message.
pub open spec fn flag_conflict(c: Cli) -> Option<Seq<char>> {
    if c.exec_command is Some && c.udp {
        Some("-e/--exec is not supported together with -u/--udp"@)
    } else if c.tls && c.udp {
        Some("--tls is not supported together with -u/--udp"@)
    } else if c.broadcast && !c.listen {
        Some("--broadcast requires -l/--listen"@)
    } else if c.broadcast && c.udp {
        Some("--broadcast is not supported together with -u/--udp"@)
    } else if c.broadcast && c.exec_command is Some {
        Some("--broadcast is not supported together with -e/--exec"@)
    } else if c.proxy is Some && c.listen {
        Some("--proxy is client-only (not valid with -l/--listen)"@)
    } else if c.proxy is Some && c.udp {
        Some("--proxy only supports TCP (SOCKS5 CONNECT), not -u/--udp"@)
    } else if c.retry != 0 && c.listen {
        Some("--retry is client-only (not valid with -l/--listen)"@)
    } else if c.tls_insecure && !c.tls {
        Some("--tls-insecure requires --tls"@)
    } else if c.tls_ca is Some && !c.tls {
        Some("--tls-ca requires --tls"@)
    } else if (c.tls_cert is Some || c.tls_key is Some) && !c.listen {
        Some("--tls-cert/--tls-key are server-only (not valid without -l/--listen)"@)
    } else if c.tls && c.listen && (c.tls_cert is None || c.tls_key is None) {
        Some("--tls server mode requires both --tls-cert and --tls-key"@)
    } else {
        None
    }
}

/// What `validate` reports for `c`: the first conflicting flag combination,
/// else a filter pattern that does not compile, else nothing.
pub open spec fn validation_spec(c: Cli) -> Option<Seq<char>> {
    match flag_conflict(c) {
        Some(m) => Some(m),
        None => match c.filter {
            Some(p) => match regex_compile_error(p@) {
                Some(e) => Some("invalid --filter regex: "@ + e),
                None => None,
            },
            None => None,
        },
    }
}

/// The rules `validate` enforces, each on its own: it succeeds exactly when
/// every one of them holds.
/// - `-e` and `--tls` are TCP-only;
/// - `--broadcast` needs `-l`, and goes with neither `-u` nor `-e`;
/// - `--proxy` and `--retry` are client-only, and `--proxy` is TCP-only;
/// - `--tls-insecure` and `--tls-ca` need `--tls`;
/// - `--tls-cert`/`--tls-key` are server-only, and a TLS server needs both;
/// - a filter pattern must compile.
pub proof fn law_validate_accepts_exactly_consistent_flags(c: Cli)
    ensures
        validation_spec(c) is None <==> {
            &&& !(c.exec_command is Some && c.udp)
            &&& !(c.tls && c.udp)
            &&& c.broadcast ==> c.listen && !c.udp && c.exec_command is None
            &&& c.proxy is Some ==> !c.listen && !c.udp
            &&& c.retry != 0 ==> !c.listen
            &&& c.tls_insecure ==> c.tls
            &&& c.tls_ca is Some ==> c.tls
            &&& (c.tls_cert is Some || c.tls_key is Some) ==> c.listen
            &&& c.tls && c.listen ==> c.tls_cert is Some && c.tls_key is Some
            &&& c.filter is Some ==> regex_compile_error(c.filter->0@) is None
        },
{
}

/// A TLS listener is accepted only with both a certificate and a key.
pub proof fn law_tls_server_needs_cert_and_key(c: Cli)
    ensures
        validation_spec(c) is None && c.tls && c.listen ==> c.tls_cert is Some && c.tls_key is Some,
{
    law_validate_accepts_exactly_consistent_flags(c);
}

fn some_message(m: &str) -> (r: Option<String>)
    ensures
        r matches Some(s) && s@ == m@,
{
    Some(m.to_owned())
}

fn first_conflict(c: &Cli) -> (r: Option<String>)
    ensures
        match r {
            Some(s) => flag_conflict(*c) == Some(s@),
            None => flag_conflict(*c) is None,
        },
{
    if c.exec_command.is_some() && c.udp {
        return some_message("-e/--exec is not supported together with -u/--udp");
    }
    if c.tls && c.udp {
        return some_message("--tls is not supported together with -u/--udp");
    }
    if c.broadcast {
        if !c.listen {
            return some_message("--broadcast requires -l/--listen");
        }
        if c.udp {
            return some_message("--broadcast is not supported together with -u/--udp");
        }
        if c.exec_command.is_some() {
            return some_message("--broadcast is not supported together with -e/--exec");
        }
    }
    if c.proxy.is_some() {
        if c.listen {
            return some_message("--proxy is client-only (not valid with -l/--listen)");
        }
        if c.udp {
            return some_message("--proxy only supports TCP (SOCKS5 CONNECT), not -u/--udp");
        }
    }
    if c.retry != 0 && c.listen {
        return some_message("--retry is client-only (not valid with -l/--listen)");
    }
    if c.tls_insecure && !c.tls {
        return some_message("--tls-insecure requires --tls");
    }
    if c.tls_ca.is_some() && !c.tls {
        return some_message("--tls-ca requires --tls");
    }
    if (c.tls_cert.is_some() || c.tls_key.is_some()) && !c.listen {
        return some_message("--tls-cert/--tls-key are server-only (not valid without -l/--listen)");
    }
    if c.tls && c.listen && (c.tls_cert.is_none() || c.tls_key.is_none()) {
        return some_message("--tls server mode requires both --tls-cert and --tls-key");
    }
    None
}

impl Cli {
    /// Works out the bind address and port (server) or the destination host
    /// and port (client) from the equivalent ways netcat accepts them.
    pub fn resolve_target(&self) -> (r: Result<Target, String>)
        ensures
            match r {
                Ok(t) => target_spec(*self) == Ok::<(Seq<char>, u16), Seq<char>>((t.addr@, t.port)),
                Err(e) => target_spec(*self) == Err::<(Seq<char>, u16), Seq<char>>(e@),
            },
    {
        if self.listen {
            if let Some(port) = self.port_flag {
                let addr = match &self.host {
                    Some(h) => h.clone(),
                    None => "0.0.0.0".to_owned(),
                };
                return Ok(Target { addr, port });
            }
            if let Some(port) = self.port {
                let addr = match &self.host {
                    Some(h) => h.clone(),
                    None => "0.0.0.0".to_owned(),
                };
                return Ok(Target { addr, port });
            }
            if let Some(host) = &self.host {
                return match parse_port(host.as_str()) {
                    Some(port) => Ok(Target { addr: "0.0.0.0".to_owned(), port }),
                    None => {
                        let mut m = "invalid port number: ".to_owned();
                        m.append(host.as_str());
                        Err(m)
                    },
                };
            }
            Err("listen mode requires a port (-p <PORT> or a positional PORT)".to_owned())
        } else {
            let addr = match &self.host {
                Some(h) => h.clone(),
                None => {
                    return Err("missing destination host".to_owned());
                },
            };
            let port = match self.port {
                Some(p) => p,
                None => match self.port_flag {
                    Some(p) => p,
                    None => {
                        return Err("missing destination port".to_owned());
                    },
                },
            };
            Ok(Target { addr, port })
        }
    }

    /// Rejects flag combinations that do not make sense together, and a
    /// filter pattern that does not compile, before any network activity.
    pub fn validate(&self) -> (r: Result<(), String>)
        ensures
            match validation_spec(*self) {
                Some(m) => r matches Err(e) && e@ == m,
                None => r is Ok,
            },
    {
        if let Some(m) = first_conflict(self) {
            return Err(m);
        }
        if let Some(pattern) = &self.filter {
            if let Some(e) = pattern_error(pattern.as_str()) {
                let mut m = "invalid --filter regex: ".to_owned();
                m.append(e.as_str());
                return Err(m);
            }
        }
        Ok(())
    }
}

} // verus!
