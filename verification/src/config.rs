//! The settings of the web server, which the environment variables prefixed
//! `SHORTEST_URL_` give; each that is missing takes its default.

use vstd::prelude::*;

verus! {

/// The settings of the web server.
#[derive(Debug, PartialEq, Eq, Clone)]
pub struct Config {
    /// The port the server listens on, on the loopback address.
    pub http_port: u16,
    /// The filter directive for the trace output.
    pub trace_directive: String,
    /// Whether the trace output is JSON rather than pretty text.
    pub trace_use_json: bool,
    /// Where the PostgreSQL database is.
    pub database_url: String,
}

/// The port when none is set: 4000.
pub fn default_http_port() -> (r: u16)
    ensures
        r == 4000,
{
    4000
}

/// The trace directive when none is set: `trace`.
pub fn default_trace_directive() -> (r: String)
    ensures
        r@ == "trace"@,
{
    String::from_str("trace")
}

/// Whether traces are JSON when nothing is set: they are.
pub fn default_trace_use_json() -> (r: bool)
    ensures
        r,
{
    true
}

/// The database URL when none is set: the empty string.
pub fn default_database_url() -> (r: String)
    ensures
        r@ == Seq::<char>::empty(),
{
    String::new()
}

impl Default for Config {
    /// Every setting at its default.
    fn default() -> (r: Config)
        ensures
            r.http_port == 4000,
            r.trace_directive@ == "trace"@,
            r.trace_use_json,
            r.database_url@ == Seq::<char>::empty(),
    {
        Config {
            http_port: default_http_port(),
            trace_directive: default_trace_directive(),
            trace_use_json: default_trace_use_json(),
            database_url: default_database_url(),
        }
    }
}

} // verus!
