//! Live recompilation pipeline for shader sources: turns a stream of raw
//! filesystem change notifications into a deduplicated sequence of compile
//! jobs, resolves each job's shader stage from its file extension, derives
//! compiler options from the configuration, and mirrors the source tree
//! layout into the output tree when computing destination paths.
//!
//! The crate holds the pipeline's logic; the filesystem watch, the file
//! reads and writes, and the invocation of the external shader compiler
//! live outside it and exchange plain values with it.

pub mod text;
pub mod pathmap;
pub mod kind;
pub mod config;
pub mod compile;
pub mod pipeline;
pub mod debounce;
