//! The observability collaborator, in its no-op form.
//!
//! The pipeline must behave identically — same results, same errors —
//! whether tracing is wired up or not, so the collaborator is a capability
//! chosen by the embedding program at configuration time. This module is the
//! default that keeps nothing; a host that wants real spans supplies its own
//! collector around the pipeline and leaves the core untouched.

use vstd::prelude::*;

use crate::OrchestratorError;

verus! {

/// How the collaborator is initialised.
#[derive(Debug)]
pub struct TelemetryConfig {
    /// The service name spans are attributed to.
    pub service_name: String,
    /// Whether the run must not leave the machine; the no-op collaborator
    /// never exports anything either way.
    pub airgap: bool,
}

/// One recorded span: its name and its attributes.
#[derive(Debug)]
pub struct SpanSnapshot {
    pub name: String,
    pub attributes: Vec<(String, String)>,
}

/// The handle a run holds while instrumented. This no-op guard records
/// nothing and flushes instantly.
#[derive(Debug)]
pub struct TelemetryGuard {}

impl TelemetryGuard {
    /// Flushes pending spans; the no-op collaborator has none.
    pub fn force_flush(&self) {
    }

    /// The spans recorded so far: always none.
    pub fn spans(&self) -> (r: Vec<SpanSnapshot>)
        ensures
            r@.len() == 0,
    {
        Vec::new()
    }
}

/// Initialises the no-op collaborator; this never fails.
pub fn init(_config: TelemetryConfig) -> (r: Result<TelemetryGuard, OrchestratorError>)
    ensures
        match r {
            Result::Ok(_) => true,
            Result::Err(_) => false,
        },
{
    Result::Ok(TelemetryGuard {  })
}

/// Initialises the no-op collaborator under a test's service name.
pub fn init_test_tracer(_service_name: &str) -> (r: Result<TelemetryGuard, OrchestratorError>)
    ensures
        match r {
            Result::Ok(_) => true,
            Result::Err(_) => false,
        },
{
    Result::Ok(TelemetryGuard {  })
}

} // verus!
