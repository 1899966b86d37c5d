//! The settings of the service that answers health checks only.

use vstd::prelude::*;

verus! {

/// The settings of the health-check service.
#[derive(Debug, PartialEq, Eq, Clone)]
pub struct Config {
    /// The port the service listens on, on the loopback address.
    pub http_port: u16,
}

} // verus!
