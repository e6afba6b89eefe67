//! The embedded web server: which port it gets, how it is launched, when
//! it counts as ready, and where the main window goes once it is. The
//! functions here decide; the application shell picks the port, spawns the
//! process, probes it and sleeps.

use crate::text::{push_str, string_of};
use vstd::prelude::*;

verus! {

/// `url::Url`, a parsed URL. The library hands such a value on and reads
/// nothing in it.
#[verifier::external_type_specification]
#[verifier::external_body]
pub struct ExUrl(url::Url);

/// Whether `url::Url::parse` makes a URL of `text`.
pub uninterp spec fn parses_as_url(text: Seq<char>) -> bool;

/// `url::Url::parse` reads an absolute URL from a string and fails on any
/// other string; which of the two depends on the string alone.
#[verifier::external_body]
fn parse_url(text: &str) -> (r: Option<url::Url>)
    ensures
        r is Some <==> parses_as_url(text@),
{
    url::Url::parse(text).ok()
}

/// How often the server is probed before the wait is given up.
pub const MAX_ATTEMPTS: u32 = 30;

/// How long the shell sleeps after a probe that found no ready server, in
/// milliseconds.
pub const RETRY_DELAY_MS: u64 = 500;

/// The running server, as far as the rest of the application reads it.
#[derive(Clone, Copy, Debug, PartialEq, Eq)]
pub struct ServerState {
    port: u16,
}

/// Why the server could not be started.
#[derive(Debug, PartialEq, Eq)]
pub enum StartError {
    /// No free port was found.
    NoPort,
    /// The resource directory could not be had; the cause as text.
    ResourceDir(String),
    /// The sidecar command could not be made; the cause as text.
    Sidecar(String),
    /// The process could not be spawned; the cause as text.
    Spawn(String),
}

/// How to launch the server: the sidecar to run, the script below the
/// resource directory, one path segment after the other, and the
/// environment.
#[derive(Debug, PartialEq, Eq)]
pub struct ServerLaunch {
    pub port: u16,
    pub sidecar: String,
    pub script: Vec<String>,
    pub environment: Vec<(String, String)>,
}

/// What one probe of the server found.
#[derive(Clone, Copy, Debug, PartialEq, Eq)]
pub enum Probe {
    /// The server answered with this status code.
    Answered(u16),
    /// The request failed.
    Failed,
}

/// What follows a probe.
#[derive(Clone, Copy, Debug, PartialEq, Eq)]
pub enum WaitStep {
    /// The server is ready: stop waiting.
    Ready,
    /// Sleep `RETRY_DELAY_MS`, then make the probe with this number.
    SleepThenProbe { attempt: u32 },
    /// Sleep `RETRY_DELAY_MS`, then stop waiting: the server may not be
    /// ready.
    SleepThenGiveUp,
}

/// The character of the digit `d`.
pub open spec fn digit(d: int) -> char {
    ((48 + d) as u8) as char
}

/// `n` in decimal.
pub open spec fn decimal(n: nat) -> Seq<char>
    decreases n,
{
    if n < 10 {
        seq![digit(n as int)]
    } else {
        decimal(n / 10) + seq![digit((n % 10) as int)]
    }
}

/// The address of the server on `port`.
pub open spec fn server_address(port: u16) -> Seq<char> {
    "http://localhost:"@ + decimal(port as nat)
}

/// A status code that shows a ready server: success or redirection.
pub open spec fn is_ready(code: u16) -> bool {
    200 <= code < 400
}

impl View for ServerState {
    type V = u16;

    closed spec fn view(&self) -> u16 {
        self.port
    }
}

impl ServerState {
    /// The state of a server that listens on `port`.
    pub fn new(port: u16) -> (state: ServerState)
        ensures
            state@ == port,
    {
        ServerState { port }
    }

    /// The port that the server listens on.
    pub fn port(&self) -> (port: u16)
        ensures
            port == self@,
    {
        self.port
    }
}

impl StartError {
    /// The error as a sentence.
    pub open spec fn text(self) -> Seq<char> {
        match self {
            StartError::NoPort => "No available port found"@,
            StartError::ResourceDir(cause) => "Failed to get resource dir: "@ + cause@,
            StartError::Sidecar(cause) => "Failed to create sidecar command: "@ + cause@,
            StartError::Spawn(cause) => "Failed to spawn server: "@ + cause@,
        }
    }

    /// The error as a sentence: what failed, and the cause where one is
    /// known.
    pub fn message(&self) -> (r: String)
        ensures
            r@ == self.text(),
    {
        let mut out: Vec<char> = Vec::new();
        match self {
            StartError::NoPort => {
                push_str(&mut out, "No available port found");
            },
            StartError::ResourceDir(cause) => {
                push_str(&mut out, "Failed to get resource dir: ");
                push_str(&mut out, cause.as_str());
            },
            StartError::Sidecar(cause) => {
                push_str(&mut out, "Failed to create sidecar command: ");
                push_str(&mut out, cause.as_str());
            },
            StartError::Spawn(cause) => {
                push_str(&mut out, "Failed to spawn server: ");
                push_str(&mut out, cause.as_str());
            },
        }
        assert(out@ =~= self.text());
        string_of(&out)
    }
}

/// Appends `n` in decimal.
fn push_decimal(out: &mut Vec<char>, n: u16)
    ensures
        final(out)@ == old(out)@ + decimal(n as nat),
    decreases n,
{
    if n >= 10 {
        push_decimal(out, n / 10);
    }
    let d: u8 = (n % 10) as u8;
    let c: char = (48u8 + d) as char;
    out.push(c);
    assert(out@ =~= old(out)@ + decimal(n as nat));
}

/// `n` in decimal.
pub fn decimal_string(n: u16) -> (r: String)
    ensures
        r@ == decimal(n as nat),
{
    let mut out: Vec<char> = Vec::new();
    push_decimal(&mut out, n);
    string_of(&out)
}

/// The address of the server on `port`: `http://localhost:` and the port in
/// decimal.
pub fn server_url(port: u16) -> (r: String)
    ensures
        r@ == server_address(port),
{
    let mut out: Vec<char> = Vec::new();
    push_str(&mut out, "http://localhost:");
    push_decimal(&mut out, port);
    string_of(&out)
}

/// The port for the server, from what picking a free port gave: the port,
/// or `NoPort` where none was found.
pub fn find_available_port(picked: Option<u16>) -> (r: Result<u16, StartError>)
    ensures
        r == (match picked {
            Some(port) => Ok::<u16, StartError>(port),
            None => Err(StartError::NoPort),
        }),
{
    match picked {
        Some(port) => Ok(port),
        None => Err(StartError::NoPort),
    }
}

/// How to start the server, from what picking a free port gave. Without a
/// port there is nothing to start. With one the sidecar `node` runs the
/// script `standalone/server.js` of the resource directory, with `PORT` set
/// to the port and `HOSTNAME` to `localhost`.
pub fn start_server(picked: Option<u16>) -> (r: Result<ServerLaunch, StartError>)
    ensures
        picked is None ==> r == Err::<ServerLaunch, StartError>(StartError::NoPort),
        picked matches Some(port) ==> r matches Ok(launch) && {
            &&& launch.port == port
            &&& launch.sidecar@ == "node"@
            &&& launch.script@.len() == 2
            &&& launch.script@[0]@ == "standalone"@
            &&& launch.script@[1]@ == "server.js"@
            &&& launch.environment@.len() == 2
            &&& launch.environment@[0].0@ == "PORT"@
            &&& launch.environment@[0].1@ == decimal(port as nat)
            &&& launch.environment@[1].0@ == "HOSTNAME"@
            &&& launch.environment@[1].1@ == "localhost"@
        },
{
    match find_available_port(picked) {
        Err(e) => Err(e),
        Ok(port) => {
            let mut script: Vec<String> = Vec::new();
            script.push("standalone".to_owned());
            script.push("server.js".to_owned());
            let mut environment: Vec<(String, String)> = Vec::new();
            environment.push(("PORT".to_owned(), decimal_string(port)));
            environment.push(("HOSTNAME".to_owned(), "localhost".to_owned()));
            Ok(ServerLaunch { port, sidecar: "node".to_owned(), script, environment })
        },
    }
}

/// Whether a status code shows a ready server: success (200 to 299) or
/// redirection (300 to 399).
pub fn is_ready_status(code: u16) -> (r: bool)
    ensures
        r == is_ready(code),
{
    200 <= code && code < 400
}

/// What follows the probe with the number `attempt`, counted from 1. An
/// answer of success or redirection ends the wait. After anything else the
/// shell sleeps; then it probes again if fewer than `MAX_ATTEMPTS` probes
/// were made, and gives up if not.
pub fn wait_for_server(attempt: u32, probe: Probe) -> (step: WaitStep)
    ensures
        step == (if probe matches Probe::Answered(code) && is_ready(code) {
            WaitStep::Ready
        } else if attempt < MAX_ATTEMPTS {
            WaitStep::SleepThenProbe { attempt: (attempt + 1) as u32 }
        } else {
            WaitStep::SleepThenGiveUp
        }),
{
    let ready = match probe {
        Probe::Answered(code) => is_ready_status(code),
        Probe::Failed => false,
    };
    if ready {
        WaitStep::Ready
    } else if attempt < MAX_ATTEMPTS {
        WaitStep::SleepThenProbe { attempt: attempt + 1 }
    } else {
        WaitStep::SleepThenGiveUp
    }
}

/// Where the main window goes once the server on `port` is ready: the
/// server's address as a URL, or nowhere if the address does not parse.
pub fn navigation_target(port: u16) -> (r: Option<url::Url>)
    ensures
        r is Some <==> parses_as_url(server_address(port)),
{
    let address = server_url(port);
    parse_url(address.as_str())
}

} // verus!
