//! The shader kind resolver: maps a source file's extension to the
//! compilation stage it belongs to. Classification is total: a missing or
//! unrecognized extension yields `Unknown`, which marks the file as one to
//! skip rather than an error.

use vstd::prelude::*;
use crate::pathmap::{extension_of, spec_extension};
use crate::text::str_eq;

verus! {

/// The compilation stage of a shader source, resolved from its extension.
#[derive(Clone, Copy, Debug, PartialEq, Eq, Structural)]
pub enum ShaderKind {
    Compute,
    Fragment,
    Vertex,
    Unknown,
}

/// The stage that an extension denotes: `cs`, `fs` and `vs` name the
/// compute, fragment and vertex stages; anything else is unknown.
pub open spec fn spec_kind_of_extension(ext: Option<Seq<char>>) -> ShaderKind {
    match ext {
        Some(e) => if e == "cs"@ {
            ShaderKind::Compute
        } else if e == "fs"@ {
            ShaderKind::Fragment
        } else if e == "vs"@ {
            ShaderKind::Vertex
        } else {
            ShaderKind::Unknown
        },
        None => ShaderKind::Unknown,
    }
}

/// The stage of the source at `path`, by its file extension.
pub open spec fn spec_kind_of(path: Seq<char>) -> ShaderKind {
    spec_kind_of_extension(spec_extension(path))
}

/// Resolves the compilation stage of the source at `path` from its file
/// extension, case-sensitively. Never fails: unclassifiable paths come
/// back as `Unknown`.
pub fn shader_kind_of(path: &str) -> (k: ShaderKind)
    ensures
        k == spec_kind_of(path@),
{
    match extension_of(path) {
        Some(e) => {
            if str_eq(e.as_str(), "cs") {
                ShaderKind::Compute
            } else if str_eq(e.as_str(), "fs") {
                ShaderKind::Fragment
            } else if str_eq(e.as_str(), "vs") {
                ShaderKind::Vertex
            } else {
                ShaderKind::Unknown
            }
        },
        None => ShaderKind::Unknown,
    }
}

} // verus!
