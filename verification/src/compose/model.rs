//! The slice of the Compose format the HQ emits: only the keys the generator
//! writes, as plain values. Turning them into YAML, with the project's own
//! blocks merged verbatim, is done by the program around this crate.

use vstd::prelude::*;

verus! {

/// A service's health check.
#[derive(Debug, Clone, PartialEq, Eq)]
pub struct Healthcheck {
    pub test: Vec<String>,
    pub interval: String,
    pub timeout: String,
    pub retries: u32,
    pub start_period: String,
}

/// A service the HQ writes itself.
#[derive(Debug, Clone, Default, PartialEq, Eq)]
pub struct Service {
    pub image: String,
    pub user: Option<String>,
    pub working_dir: Option<String>,
    pub network_mode: Option<String>,
    pub cap_drop: Vec<String>,
    pub cap_add: Vec<String>,
    pub security_opt: Vec<String>,
    /// The networks the service attaches to.
    pub networks: Vec<String>,
    /// The service that must be healthy before this one starts:
    /// `depends_on: { <service>: { condition: service_healthy } }`.
    pub depends_on_healthy: Option<String>,
    pub healthcheck: Option<Healthcheck>,
    pub volumes: Vec<String>,
    pub tmpfs: Vec<String>,
    /// In key order.
    pub environment: Vec<(String, String)>,
    pub init: Option<bool>,
    pub restart: Option<String>,
    pub command: Vec<String>,
}

} // verus!
