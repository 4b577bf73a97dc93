//! The compile adapter's verified half: assembles the request handed to
//! the external shader compiler from the configuration and the changed
//! source, and interprets what the compiler returned. The invocation
//! itself is an external process concern and happens outside the crate,
//! which only ever sees its outcome as a plain value.

use vstd::prelude::*;
use vstd::string::StringExecFns;
use crate::config::{Config, OptLevel, TargetEnv};
use crate::kind::{shader_kind_of, spec_kind_of, ShaderKind};
use crate::pathmap::{file_name_of, spec_file_name};

verus! {

/// Everything the external compiler is invoked with: the source text, the
/// resolved stage, a human-readable input name for diagnostics, the fixed
/// entry point, and the options derived from the configuration.
pub struct CompileRequest {
    /// The shader source text.
    pub source_text: String,
    /// The resolved compilation stage; never `Unknown`.
    pub kind: ShaderKind,
    /// The source's file name, used in diagnostics.
    pub input_name: String,
    /// The entry point the compiler starts from.
    pub entry_point: String,
    /// Optimization level option.
    pub optimization: OptLevel,
    /// Target environment option.
    pub target_env: TargetEnv,
}

/// What the external compiler produced: the compiled binary, or the
/// diagnostic it reported.
pub enum CompileOutcome {
    Binary(Vec<u8>),
    Diagnostic(String),
}

/// Assembles the compile request for the changed source at `path`.
/// Classification happens strictly before compilation: a source the
/// resolver could not classify never reaches the adapter, so the request
/// carries a known stage.
pub fn build_request(conf: &Config, path: &str, source_text: String) -> (r: CompileRequest)
    requires
        spec_kind_of(path@) != ShaderKind::Unknown,
    ensures
        r.source_text == source_text,
        r.kind == spec_kind_of(path@),
        r.input_name@ == spec_file_name(path@),
        r.entry_point@ == "main"@,
        r.optimization == conf.optimization,
        r.target_env == conf.target_env,
{
    CompileRequest {
        source_text,
        kind: shader_kind_of(path),
        input_name: file_name_of(path),
        entry_point: String::from_str("main"),
        optimization: conf.optimization,
        target_env: conf.target_env,
    }
}

/// Reads the compiler's outcome: the binary to write, or nothing when the
/// compiler reported a diagnostic — in that case the job is abandoned and
/// no file is created or modified.
pub fn binary_of_outcome(outcome: CompileOutcome) -> (r: Option<Vec<u8>>)
    ensures
        match outcome {
            CompileOutcome::Binary(b) => r == Some(b),
            CompileOutcome::Diagnostic(_) => r is None,
        },
{
    match outcome {
        CompileOutcome::Binary(b) => Some(b),
        CompileOutcome::Diagnostic(_) => None,
    }
}

} // verus!
