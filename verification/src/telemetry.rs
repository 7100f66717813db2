//! Logging configuration, and the levels of log lines captured from child
//! processes.

use vstd::prelude::*;

use crate::text::{join4, u64_to_decimal, decimal};

verus! {

/// Verbosity level of logs.
#[derive(Clone, Copy, Debug, PartialEq, Eq, Structural)]
pub enum Level {
    /// Trace.
    Trace,
    /// Debug.
    Debug,
    /// Info.
    Info,
    /// Warn.
    Warn,
    /// Error.
    Error,
}

/// Configuration of logging and tracing.
#[derive(Debug)]
pub struct TelemetryConfig {
    /// Endpoint of the OpenTelemetry collector to send traces to.
    pub otlp_endpoint: Option<String>,
    /// Service name under which traces are collected.
    pub service_name: Option<String>,
    /// Logging level.
    pub level: Level,
}

impl TelemetryConfig {
    /// A configuration with the given level (`Info` if none), no collector
    /// and no service name.
    pub fn new(level: Option<Level>) -> (c: TelemetryConfig)
        ensures
            c.level == match level {
                Some(l) => l,
                None => Level::Info,
            },
            c.otlp_endpoint is None,
            c.service_name is None,
    {
        TelemetryConfig { level: level.unwrap_or(Level::Info), otlp_endpoint: None, service_name: None }
    }

    /// Sets the collector endpoint to `http://{ip}:{port}` when both the
    /// (rendered) IP address and the port are given; otherwise nothing
    /// changes.
    pub fn otlp_endpoint(self, collector_ip: Option<String>, collector_port: Option<u16>) -> (c: TelemetryConfig)
        ensures
            c.level == self.level,
            c.service_name == self.service_name,
            match (collector_ip, collector_port) {
                (Some(ip), Some(port)) => c.otlp_endpoint matches Some(e) && e@ == "http://"@ + ip@ + ":"@
                    + decimal(port as nat),
                _ => c.otlp_endpoint == self.otlp_endpoint,
            },
    {
        let mut c = self;
        match (collector_ip, collector_port) {
            (Some(ip), Some(port)) => {
                let p = u64_to_decimal(port as u64);
                c.otlp_endpoint = Some(join4("http://", ip.as_str(), ":", p.as_str()));
            },
            _ => {},
        }
        c
    }

    /// Sets the service name.
    pub fn service_name(self, service_name: String) -> (c: TelemetryConfig)
        ensures
            c.level == self.level,
            c.otlp_endpoint == self.otlp_endpoint,
            c.service_name == Some(service_name),
    {
        let mut c = self;
        c.service_name = Some(service_name);
        c
    }
}

/// A log line of a child process, as its parser read it.
#[derive(Clone, Copy, Debug)]
pub struct ParsedMsg<'a> {
    /// Message of the line.
    pub message: &'a str,
    /// Level of the line.
    pub level: &'a str,
}

/// Level a captured log line is traced at.
#[derive(Clone, Copy, Debug, PartialEq, Eq, Structural)]
pub enum TraceLevel {
    /// Error.
    Error,
    /// Info.
    Info,
    /// Debug.
    Debug,
    /// Trace.
    Trace,
}

/// Lower case of a text, as `str::to_lowercase` gives it.
pub uninterp spec fn lowercased(s: Seq<char>) -> Seq<char>;

/// Lower case of a text, by `str::to_lowercase` of the standard library;
/// Unicode case mapping is not restated here.
#[verifier::external_body]
fn to_lowercase(s: &str) -> (r: String)
    ensures
        r@ == lowercased(s@),
{
    s.to_lowercase()
}

/// The level a lower-cased level name is traced at: `error`, `info`, `debug`
/// or `verbose` (traced as debug); anything else is traced as trace.
pub open spec fn trace_level_of(l: Seq<char>) -> TraceLevel {
    if l == "error"@ {
        TraceLevel::Error
    } else if l == "info"@ {
        TraceLevel::Info
    } else if l == "debug"@ || l == "verbose"@ {
        TraceLevel::Debug
    } else {
        TraceLevel::Trace
    }
}

/// The level a lower-cased level name is traced at.
pub fn level_of_lowercase(l: &str) -> (t: TraceLevel)
    ensures
        t == trace_level_of(l@),
{
    let s = String::from_str(l);
    if s == String::from_str("error") {
        TraceLevel::Error
    } else if s == String::from_str("info") {
        TraceLevel::Info
    } else if s == String::from_str("debug") || s == String::from_str("verbose") {
        TraceLevel::Debug
    } else {
        TraceLevel::Trace
    }
}

/// The level a captured log line is traced at, by its level name in any
/// case.
pub fn capture_line(parsed_msg: ParsedMsg) -> (t: TraceLevel)
    ensures
        t == trace_level_of(lowercased(parsed_msg.level@)),
{
    let l = to_lowercase(parsed_msg.level);
    level_of_lowercase(l.as_str())
}

} // verus!
