//! The output path mapper: computes the destination of a compiled artifact
//! from the source path, the watched root and the output root, mirroring
//! the directory structure of the source tree under the output root.
//!
//! Paths are handled as plain strings with `/` as the separator, in the
//! canonical form the watcher hands over: absolute, with no trailing slash.

use vstd::prelude::*;
use vstd::string::StrSliceExecFns;
use vstd::string::StringExecFns;
use crate::text::{find_last, last_index_of, lemma_last_index_of};

verus! {

/// The final component of `path`: everything after the last `/`, or the
/// whole string when there is none.
pub open spec fn spec_file_name(path: Seq<char>) -> Seq<char> {
    path.subrange(last_index_of(path, '/') + 1, path.len() as int)
}

/// The extension of the final component of `path`: everything after its
/// last `.`, provided that dot is preceded by a non-empty stem. A name
/// without a dot, or with only a leading dot, has no extension.
pub open spec fn spec_extension(path: Seq<char>) -> Option<Seq<char>> {
    let name = spec_file_name(path);
    let d = last_index_of(name, '.');
    if d <= 0 {
        None
    } else {
        Some(name.subrange(d + 1, name.len() as int))
    }
}

/// The location of `path` relative to `root`: the remainder after the
/// `root` prefix and its separator, or nothing when `path` does not lie
/// under `root`.
pub open spec fn spec_rel_under(path: Seq<char>, root: Seq<char>) -> Option<Seq<char>> {
    if path.len() > root.len() && path.subrange(0, root.len() as int) == root && path[root.len() as int]
        == '/' {
        Some(path.subrange(root.len() + 1 as int, path.len() as int))
    } else {
        None
    }
}

/// The directory part of a relative path: everything before its last `/`,
/// or nothing when the path is a bare file name.
pub open spec fn spec_parent_dirs(rel: Seq<char>) -> Option<Seq<char>> {
    let k = last_index_of(rel, '/');
    if k >= 0 {
        Some(rel.subrange(0, k))
    } else {
        None
    }
}

/// The compiled artifact's file name: the source file name with the binary
/// format suffix appended, so the stage extension stays visible as an infix.
pub open spec fn spec_artifact_name(path: Seq<char>) -> Seq<char> {
    spec_file_name(path) + ".spirv"@
}

/// The destination path: the artifact name placed under the output root,
/// below the source's directories relative to the watched root. A source
/// that does not lie under the watched root goes directly under the output
/// root, with no intermediate directories.
pub open spec fn spec_output_path(source: Seq<char>, root: Seq<char>, out: Seq<char>) -> Seq<
    char,
> {
    let name = spec_artifact_name(source);
    match spec_rel_under(source, root) {
        Some(rel) => match spec_parent_dirs(rel) {
            Some(dirs) => out + "/"@ + dirs + "/"@ + name,
            None => out + "/"@ + name,
        },
        None => out + "/"@ + name,
    }
}

/// Extracts the final component of `path`.
pub fn file_name_of(path: &str) -> (r: String)
    ensures
        r@ == spec_file_name(path@),
{
    let n = path.unicode_len();
    match find_last(path, '/') {
        Some(i) => {
            proof {
                lemma_last_index_of(path@, '/');
            }
            String::from_str(path.substring_char(i + 1, n))
        },
        None => {
            proof {
                assert(path@.subrange(0, n as int) =~= path@);
            }
            String::from_str(path)
        },
    }
}

/// Extracts the extension of the final component of `path`, if it has one.
pub fn extension_of(path: &str) -> (r: Option<String>)
    ensures
        match r {
            Some(e) => spec_extension(path@) == Some(e@),
            None => spec_extension(path@) is None,
        },
{
    let name = file_name_of(path);
    let n = name.as_str().unicode_len();
    match find_last(name.as_str(), '.') {
        Some(d) => {
            if d > 0 {
                proof {
                    lemma_last_index_of(name@, '.');
                }
                Some(String::from_str(name.as_str().substring_char(d + 1, n)))
            } else {
                None
            }
        },
        None => None,
    }
}

/// Computes the location of `path` relative to `root`, when `path` lies
/// under `root`.
pub fn rel_under(path: &str, root: &str) -> (r: Option<String>)
    ensures
        match r {
            Some(rel) => spec_rel_under(path@, root@) == Some(rel@),
            None => spec_rel_under(path@, root@) is None,
        },
{
    let n = path.unicode_len();
    let rl = root.unicode_len();
    if n <= rl {
        return None;
    }
    let prefix = path.substring_char(0, rl);
    if !crate::text::str_eq(prefix, root) {
        return None;
    }
    if path.get_char(rl) != '/' {
        return None;
    }
    Some(String::from_str(path.substring_char(rl + 1, n)))
}

/// Computes the destination path for the compiled form of `source`,
/// mirroring its directory structure below `root` into `out`. The source
/// must have an extension: only classified sources reach this stage.
pub fn output_path_for(source: &str, root: &str, out: &str) -> (r: String)
    requires
        spec_extension(source@) is Some,
    ensures
        r@ == spec_output_path(source@, root@, out@),
{
    let name = file_name_of(source);
    let n = name.as_str().unicode_len();
    let ghost dspec = last_index_of(name@, '.');
    proof {
        lemma_last_index_of(name@, '.');
    }
    let d = match find_last(name.as_str(), '.') {
        Some(d) => d,
        None => {
            proof {
                assert(false);
            }
            0
        },
    };
    let stem = name.as_str().substring_char(0, d);
    let ext = name.as_str().substring_char(d + 1, n);
    let mut artifact = String::from_str(stem);
    artifact.append(".");
    artifact.append(ext);
    artifact.append(".spirv");
    proof {
        reveal_strlit(".");
        assert(name@ =~= name@.subrange(0, dspec) + "."@ + name@.subrange(dspec + 1, name@.len() as int));
        assert(artifact@ =~= spec_artifact_name(source@));
    }

    let mut result = String::from_str(out);
    result.append("/");
    match rel_under(source, root) {
        Some(rel) => {
            match find_last(rel.as_str(), '/') {
                Some(k) => {
                    proof {
                        lemma_last_index_of(rel@, '/');
                    }
                    result.append(rel.as_str().substring_char(0, k));
                    result.append("/");
                },
                None => {},
            }
        },
        None => {},
    }
    result.append(artifact.as_str());
    proof {
        assert(result@ =~= spec_output_path(source@, root@, out@));
    }
    result
}

} // verus!
