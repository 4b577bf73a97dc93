//! The pipeline configuration: read once at startup, never mutated, shared
//! by every compile job. The optimization level and the target environment
//! arrive as command-line strings and are resolved here into closed enums.

use vstd::prelude::*;
use vstd::string::StringExecFns;
use crate::text::str_eq;

verus! {

/// The compiler tuning mode: none (for debugging), performance-oriented,
/// or size-oriented.
#[derive(Clone, Copy, Debug, PartialEq, Eq, Structural)]
pub enum OptLevel {
    Zero,
    Performance,
    Size,
}

/// The graphics API dialect the compiled binary is validated against.
#[derive(Clone, Copy, Debug, PartialEq, Eq, Structural)]
pub enum TargetEnv {
    Vulkan,
    OpenGl,
    OpenGlCompat,
}

/// The optimization level a command-line value names: `0` turns
/// optimization off, `s` optimizes for size, and everything else (the
/// default among it) optimizes for performance.
pub open spec fn spec_opt_level(s: Seq<char>) -> OptLevel {
    if s == "0"@ {
        OptLevel::Zero
    } else if s == "s"@ {
        OptLevel::Size
    } else {
        OptLevel::Performance
    }
}

/// Whether a command-line value names a target environment.
pub open spec fn spec_env_recognized(s: Seq<char>) -> bool {
    s == "vulkan"@ || s == "opengl"@ || s == "opengl_compat"@
}

/// The target environment a command-line value names; an unrecognized
/// value falls back to Vulkan.
pub open spec fn spec_target_env(s: Seq<char>) -> TargetEnv {
    if s == "vulkan"@ {
        TargetEnv::Vulkan
    } else if s == "opengl"@ {
        TargetEnv::OpenGl
    } else if s == "opengl_compat"@ {
        TargetEnv::OpenGlCompat
    } else {
        TargetEnv::Vulkan
    }
}

/// Resolves the optimization level from its command-line value.
pub fn parse_opt_level(s: &str) -> (r: OptLevel)
    ensures
        r == spec_opt_level(s@),
{
    if str_eq(s, "0") {
        OptLevel::Zero
    } else if str_eq(s, "s") {
        OptLevel::Size
    } else {
        OptLevel::Performance
    }
}

/// Resolves the target environment from its command-line value. The
/// second result says whether the value was recognized; an unrecognized
/// one is reported by the caller and falls back to the default, Vulkan.
pub fn parse_target_env(s: &str) -> (r: (TargetEnv, bool))
    ensures
        r.0 == spec_target_env(s@),
        r.1 == spec_env_recognized(s@),
{
    if str_eq(s, "vulkan") {
        (TargetEnv::Vulkan, true)
    } else if str_eq(s, "opengl") {
        (TargetEnv::OpenGl, true)
    } else if str_eq(s, "opengl_compat") {
        (TargetEnv::OpenGlCompat, true)
    } else {
        (TargetEnv::Vulkan, false)
    }
}

/// The immutable pipeline configuration. The watched root and the output
/// root are kept in canonical absolute form, resolved before construction.
pub struct Config {
    /// Watched root directory, canonical and absolute.
    pub dir: String,
    /// Output root directory.
    pub output: String,
    /// Whether informational progress messages are wanted.
    pub verbose: bool,
    /// Whether the directory tree is watched recursively.
    pub recursive: bool,
    /// Optimization level handed to the compiler.
    pub optimization: OptLevel,
    /// Target environment handed to the compiler.
    pub target_env: TargetEnv,
    /// Target binary-format version tag.
    pub target_spirv: String,
}

impl Config {
    /// Builds the configuration from the values the command line produced,
    /// resolving the optimization and environment strings. The second
    /// result says whether the environment value was recognized.
    pub fn new(
        dir: String,
        output: String,
        verbose: bool,
        recursive: bool,
        optimization: &str,
        target_env: &str,
        target_spirv: String,
    ) -> (r: (Config, bool))
        ensures
            r.0.dir == dir,
            r.0.output == output,
            r.0.verbose == verbose,
            r.0.recursive == recursive,
            r.0.optimization == spec_opt_level(optimization@),
            r.0.target_env == spec_target_env(target_env@),
            r.0.target_spirv == target_spirv,
            r.1 == spec_env_recognized(target_env@),
    {
        let (env, recognized) = parse_target_env(target_env);
        let conf = Config {
            dir,
            output,
            verbose,
            recursive,
            optimization: parse_opt_level(optimization),
            target_env: env,
            target_spirv,
        };
        (conf, recognized)
    }
}

} // verus!
