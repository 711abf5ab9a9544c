//! A design-token pipeline: it normalizes a nested design-token export into a
//! flat, deterministically ordered list of typed token records, validates the
//! list against a small governance contract, and renders the validated tokens
//! into four target-platform source texts (a stylesheet variable file, a typed
//! constants module, and two host-language class objects).
//!
//! The pipeline itself is pure: reading the export document and writing the
//! rendered artifacts to disk are left to the embedding program, which hands
//! the document in as a [`ingest::RawValue`] and receives the rendered texts
//! and their destination paths back.

pub mod emit;
pub mod governance;
pub mod ingest;
pub mod telemetry;

pub use emit::{ArtifactBundle, EmitPaths};
pub use ingest::Token;
pub use telemetry::{init, init_test_tracer, SpanSnapshot, TelemetryGuard};

use vstd::prelude::*;

verus! {

/// The error kinds of the pipeline. Each stage reports its own kind; the
/// orchestrator forwards the first one encountered and never merges them.
#[derive(Debug, Clone)]
pub enum OrchestratorError {
    /// Reading the input or writing an output failed (raised by the embedding
    /// program, never by the pipeline itself).
    Io(String),
    /// The input document does not match the expected export shape.
    Parse(String),
    /// The aggregated governance violation report.
    Governance(String),
    /// Observability initialisation failed.
    Telemetry(String),
}

/// The rendered description of an error, one line, kind first.
pub open spec fn spec_error_text(e: OrchestratorError) -> Seq<char> {
    match e {
        OrchestratorError::Io(m) => "failed to read or write: "@ + m@,
        OrchestratorError::Parse(m) => "failed to parse the export document: "@ + m@,
        OrchestratorError::Governance(m) => "governance violation: "@ + m@,
        OrchestratorError::Telemetry(m) => "telemetry error: "@ + m@,
    }
}

impl OrchestratorError {
    /// Renders the error as a single human-readable line.
    pub fn describe(&self) -> (r: String)
        ensures
            r@ == spec_error_text(*self),
    {
        let mut out = String::new();
        match self {
            OrchestratorError::Io(m) => {
                out.append("failed to read or write: ");
                out.append(m.as_str());
            },
            OrchestratorError::Parse(m) => {
                out.append("failed to parse the export document: ");
                out.append(m.as_str());
            },
            OrchestratorError::Governance(m) => {
                out.append("governance violation: ");
                out.append(m.as_str());
            },
            OrchestratorError::Telemetry(m) => {
                out.append("telemetry error: ");
                out.append(m.as_str());
            },
        }
        out
    }
}


/// What one run is asked to do. The embedding program resolves every
/// environment-specific default — paths, the air-gap stance — before the
/// pipeline sees it; the core reads nothing implicitly.
#[derive(Debug)]
pub struct RunConfig {
    /// Where the export document was read from, kept for reporting.
    pub input: String,
    /// The directory that receives the rendered artifacts.
    pub output_dir: String,
    /// Validate the export without planning any outputs.
    pub validate_only: bool,
    /// Whether the observability collaborator is initialised at all.
    pub enable_telemetry: bool,
    /// Whether the run must not leave the machine.
    pub airgap: bool,
}

impl RunConfig {
    /// The stock configuration: read `tokens.json`, emit below
    /// `packages/tokens-outputs`, validate and emit, instrumented, not
    /// air-gapped.
    pub fn with_defaults() -> (r: RunConfig)
        ensures
            r.input@ == "tokens.json"@,
            r.output_dir@ == "packages/tokens-outputs"@,
            !r.validate_only,
            r.enable_telemetry,
            !r.airgap,
    {
        RunConfig {
            input: String::from_str("tokens.json"),
            output_dir: String::from_str("packages/tokens-outputs"),
            validate_only: false,
            enable_telemetry: true,
            airgap: false,
        }
    }
}

/// Everything the embedding program needs to persist one run: where each
/// artifact belongs and the rendered text to write there.
#[derive(Debug)]
pub struct EmitPlan {
    pub paths: EmitPaths,
    pub bundle: ArtifactBundle,
}

/// What a finished run reports: the number of validated tokens, and the
/// emission plan when emission was asked for.
#[derive(Debug)]
pub struct RunSummary {
    pub token_count: usize,
    pub outputs: Option<EmitPlan>,
}

/// What [`run`] returns for a document: the first parse violation, else the
/// aggregated governance report, else the summary with the emission plan —
/// exactly one of the three, decided by the document and the configuration
/// alone.
pub open spec fn run_matches(
    config: RunConfig,
    document: ingest::ValueModel,
    r: Result<RunSummary, OrchestratorError>,
) -> bool {
    match ingest::spec_normalize(document) {
        Result::Err(im) => match r {
            Result::Err(OrchestratorError::Parse(m)) => m@ == ingest::issue_message(im),
            _ => false,
        },
        Result::Ok(ts) => if governance::all_violations(ts).len() > 0 {
            match r {
                Result::Err(OrchestratorError::Governance(m)) => m@ == governance::report_text(
                    governance::all_violations(ts),
                ),
                _ => false,
            }
        } else {
            match r {
                Result::Ok(s) => s.token_count == ts.len() && (if config.validate_only {
                    s.outputs is None
                } else {
                    match s.outputs {
                        Option::Some(plan) => emit::bundle_matches(plan.bundle, ts)
                            && emit::paths_match(plan.paths, config.output_dir@),
                        Option::None => false,
                    }
                }),
                _ => false,
            }
        },
    }
}

/// Sequences one run: normalization, the governance gate, and — unless the
/// run is validate-only — the artifact builder. Any stage failure aborts the
/// run; nothing is planned for emission unless every token passed.
pub fn run(config: RunConfig, document: ingest::RawValue) -> (r: Result<
    RunSummary,
    OrchestratorError,
>)
    ensures
        run_matches(config, document@, r),
{
    let telemetry_handle: Option<TelemetryGuard>;
    if config.enable_telemetry {
        match telemetry::init(
            telemetry::TelemetryConfig {
                service_name: String::from_str("mimic-token-orchestrator"),
                airgap: config.airgap,
            },
        ) {
            Result::Ok(guard) => {
                telemetry_handle = Option::Some(guard);
            },
            Result::Err(e) => {
                return Result::Err(e);
            },
        }
    } else {
        telemetry_handle = Option::None;
    }
    let tokens = match ingest::load_tokens_from_value(document) {
        Result::Ok(ts) => ts,
        Result::Err(e) => {
            return Result::Err(e);
        },
    };
    match governance::validate(&tokens) {
        Result::Ok(_) => {},
        Result::Err(e) => {
            return Result::Err(e);
        },
    }
    let outputs: Option<EmitPlan>;
    if config.validate_only {
        outputs = Option::None;
    } else {
        let bundle = emit::build_artifacts(&tokens);
        let paths = emit::emit_paths(&config.output_dir);
        outputs = Option::Some(EmitPlan { paths, bundle });
    }
    if let Option::Some(handle) = &telemetry_handle {
        handle.force_flush();
    }
    Result::Ok(RunSummary { token_count: tokens.len(), outputs })
}


/// Two run results that agree view for view: the same summary or the same
/// error, down to every rendered byte.
pub open spec fn results_alike(
    r1: Result<RunSummary, OrchestratorError>,
    r2: Result<RunSummary, OrchestratorError>,
) -> bool {
    match (r1, r2) {
        (Result::Ok(s1), Result::Ok(s2)) => s1.token_count == s2.token_count && match (
            s1.outputs,
            s2.outputs,
        ) {
            (Option::Some(p1), Option::Some(p2)) => {
                &&& p1.bundle.css@ == p2.bundle.css@
                &&& p1.bundle.module@ == p2.bundle.module@
                &&& p1.bundle.compose@ == p2.bundle.compose@
                &&& p1.bundle.dart@ == p2.bundle.dart@
                &&& p1.paths.css@ == p2.paths.css@
                &&& p1.paths.module@ == p2.paths.module@
                &&& p1.paths.compose@ == p2.paths.compose@
                &&& p1.paths.dart@ == p2.paths.dart@
            },
            (Option::None, Option::None) => true,
            _ => false,
        },
        (Result::Err(e1), Result::Err(e2)) => spec_error_text(e1) == spec_error_text(e2),
        _ => false,
    }
}

/// The pipeline is deterministic: for one document and one effective
/// configuration, any two results [`run`] can return are alike, byte for
/// byte — identical input means an identical artifact bundle, identical
/// paths, or the identical error.
pub proof fn lemma_run_deterministic(
    config1: RunConfig,
    config2: RunConfig,
    document: ingest::ValueModel,
    r1: Result<RunSummary, OrchestratorError>,
    r2: Result<RunSummary, OrchestratorError>,
)
    requires
        config1.validate_only == config2.validate_only,
        config1.output_dir@ == config2.output_dir@,
        run_matches(config1, document, r1),
        run_matches(config2, document, r2),
    ensures
        results_alike(r1, r2),
{
}

} // verus!
