//! Readiness of services: probe ports, the addresses and URLs that are
//! probed, and the shell command that starts a service.

use vstd::prelude::*;
use crate::text::{chars_of, contains_seq, dec, find_from, matches_at, starts_with, trim, trim_str, u64_to_string};
use crate::toolchain::{parse_u32, parse_u32_exec};

verus! {

/// `str::parse::<u16>`.
pub open spec fn parse_u16(s: Seq<char>) -> Option<u16> {
    match parse_u32(s) {
        Some(n) => if n <= 65535 {
            Some(n as u16)
        } else {
            None
        },
        None => None,
    }
}

pub fn parse_u16_exec(s: &str) -> (r: Option<u16>)
    ensures
        r == parse_u16(s@),
{
    match parse_u32_exec(s) {
        Some(n) => if n <= 65535 {
            Some(n as u16)
        } else {
            None
        },
        None => None,
    }
}

/// The port of a readiness probe, written as a number (surrounding spaces
/// allowed).
pub fn probe_port(port: &str, service: &str) -> (r: Result<u16, String>)
    ensures
        match parse_u16(trim(port@)) {
            Some(p) => r == Ok::<u16, String>(p),
            None => r matches Err(m) && m@ == "Invalid readiness_probe.port for '"@ + service@
                + "': "@ + port@,
        },
{
    let t = trim_str(port);
    match parse_u16_exec(t.as_str()) {
        Some(p) => Ok(p),
        None => {
            let mut m = String::from_str("Invalid readiness_probe.port for '");
            m.append(service);
            m.append("': ");
            m.append(port);
            Err(m)
        },
    }
}

/// The address a TCP probe connects to: the host as given when it names a
/// port, else the host with the probe's port.
pub open spec fn tcp_address(host: Seq<char>, port: u16) -> Seq<char> {
    if contains_seq(host, seq![':']) {
        host
    } else {
        host + seq![':'] + dec(port as nat)
    }
}

fn has_colon(s: &str) -> (b: bool)
    ensures
        b == contains_seq(s@, seq![':']),
{
    let v = chars_of(s);
    let c = vec![':'];
    assert(c@ =~= seq![':']);
    assert(v@.skip(0) =~= v@);
    find_from(&v, &c, 0).is_some()
}

pub fn tcp_probe_address(host: &str, port: u16) -> (r: String)
    ensures
        r@ == tcp_address(host@, port),
{
    if has_colon(host) {
        host.to_owned()
    } else {
        let mut r = host.to_owned();
        crate::text::push_char(&mut r, ':');
        let p = u64_to_string(port as u64);
        r.append(p.as_str());
        r
    }
}

/// The URL an HTTP probe requests: a full URL as given, else a path on the
/// local host at the probe's port.
pub open spec fn http_probe_url(http_get: Seq<char>, port: u16) -> Seq<char> {
    if starts_with(http_get, "http://"@) || starts_with(http_get, "https://"@) {
        http_get
    } else if starts_with(http_get, "/"@) {
        "http://127.0.0.1:"@ + dec(port as nat) + http_get
    } else {
        "http://127.0.0.1:"@ + dec(port as nat) + "/"@ + http_get
    }
}

fn starts_with_str(s: &str, p: &str) -> (b: bool)
    ensures
        b == starts_with(s@, p@),
{
    let v = chars_of(s);
    let pv = chars_of(p);
    assert(v@.skip(0) =~= v@);
    matches_at(&v, 0, &pv)
}

pub fn readiness_http_url(http_get: &str, port: u16) -> (r: String)
    ensures
        r@ == http_probe_url(http_get@, port),
{
    if starts_with_str(http_get, "http://") || starts_with_str(http_get, "https://") {
        return http_get.to_owned();
    }
    let mut r = String::from_str("http://127.0.0.1:");
    let p = u64_to_string(port as u64);
    r.append(p.as_str());
    if !starts_with_str(http_get, "/") {
        r.append("/");
    }
    r.append(http_get);
    r
}

/// The host a TCP probe connects to: the configured one, trimmed, or the
/// local host.
pub open spec fn probe_host(tcp_connect: Option<Seq<char>>) -> Seq<char> {
    match tcp_connect {
        Some(h) => trim(h),
        None => trim("127.0.0.1"@),
    }
}

pub fn readiness_host(tcp_connect: &Option<String>) -> (r: String)
    ensures
        r@ == probe_host(match *tcp_connect {
            Some(h) => Some(h@),
            None => None,
        }),
{
    match tcp_connect {
        Some(h) => trim_str(h.as_str()),
        None => trim_str("127.0.0.1"),
    }
}

/// The endpoint announced once a service is ready: `tcp://` and the probed
/// address.
pub fn readiness_endpoint(tcp_connect: &Option<String>, port: u16) -> (r: (String, Option<u16>))
    ensures
        r.0@ == "tcp://"@ + tcp_address(
            probe_host(match *tcp_connect {
                Some(h) => Some(h@),
                None => None,
            }),
            port,
        ),
        r.1 == Some(port),
{
    let host = readiness_host(tcp_connect);
    let addr = tcp_probe_address(host.as_str(), port);
    let mut r = String::from_str("tcp://");
    r.append(addr.as_str());
    (r, Some(port))
}

/// The program and arguments that run a service's command through the shell.
pub fn shell_command(command: &str, windows: bool) -> (r: (String, Vec<String>))
    ensures
        windows ==> r.0@ == "cmd.exe"@ && r.1@.len() == 2 && r.1@[0]@ == "/C"@ && r.1@[1]@
            == command@,
        !windows ==> r.0@ == "sh"@ && r.1@.len() == 2 && r.1@[0]@ == "-c"@ && r.1@[1]@
            == command@,
{
    if windows {
        ("cmd.exe".to_owned(), vec!["/C".to_owned(), command.to_owned()])
    } else {
        ("sh".to_owned(), vec!["-c".to_owned(), command.to_owned()])
    }
}

// ---------------------------------------------------------------------------
// Waiting for readiness

/// What the readiness wait does next.
#[derive(Debug, PartialEq, Eq, Structural)]
pub enum WaitStep {
    /// The probe succeeded: the service is ready.
    Ready,
    /// The deadline passed before the probe succeeded.
    TimedOut,
    /// Sleep for the interval, then probe again.
    Sleep,
}

/// A wait for readiness with a deadline (milliseconds on a monotonic
/// clock).
#[derive(Debug)]
pub struct ReadinessWait {
    pub deadline_ms: u64,
}

impl ReadinessWait {
    /// A wait that started at `now_ms` and may last `timeout_ms`.
    pub fn new(now_ms: u64, timeout_ms: u64) -> (w: Self)
        requires
            now_ms + timeout_ms <= u64::MAX,
        ensures
            w.deadline_ms == now_ms + timeout_ms,
    {
        ReadinessWait { deadline_ms: now_ms + timeout_ms }
    }

    /// One round at time `now_ms`: past the deadline the wait has timed out
    /// (the probe is not run); otherwise a successful probe ends it, and a
    /// failed one means another round after the interval.
    pub fn step(&self, now_ms: u64, probe_ok: bool) -> (r: WaitStep)
        ensures
            now_ms > self.deadline_ms ==> r == WaitStep::TimedOut,
            now_ms <= self.deadline_ms && probe_ok ==> r == WaitStep::Ready,
            now_ms <= self.deadline_ms && !probe_ok ==> r == WaitStep::Sleep,
    {
        if now_ms > self.deadline_ms {
            WaitStep::TimedOut
        } else if probe_ok {
            WaitStep::Ready
        } else {
            WaitStep::Sleep
        }
    }

    /// Whether the wait needs the probe's answer at `now_ms`.
    pub fn needs_probe(&self, now_ms: u64) -> (b: bool)
        ensures
            b == (now_ms <= self.deadline_ms),
    {
        now_ms <= self.deadline_ms
    }
}

/// The message of a readiness wait that timed out.
pub fn readiness_timeout_message(service: &str) -> (r: String)
    ensures
        r@ == "Readiness probe timed out for '"@ + service@ + "'"@,
{
    let mut m = String::from_str("Readiness probe timed out for '");
    m.append(service);
    m.append("'");
    m
}

} // verus!
