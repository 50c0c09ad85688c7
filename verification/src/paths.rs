//! File paths as text, with `/` between their components.

use vstd::prelude::*;
use vstd::string::*;
use crate::text::to_chars;
use crate::words::{ends_with, has_suffix};

verus! {

/// `base` extended by `part`: an absolute `part` replaces `base`; otherwise
/// the two are put together with exactly one `/` between them, which is
/// added unless `base` is empty or already ends in one.
pub open spec fn joined(base: Seq<char>, part: Seq<char>) -> Seq<char> {
    if part.len() > 0 && part[0] == '/' {
        part
    } else if base.len() == 0 || base.last() == '/' {
        base + part
    } else {
        base.push('/') + part
    }
}

/// The last component of `path`: what follows its last `/`, or all of it.
pub open spec fn file_name(path: Seq<char>) -> Seq<char>
    decreases path.len(),
{
    if path.len() == 0 || path.last() == '/' {
        Seq::empty()
    } else {
        file_name(path.drop_last()).push(path.last())
    }
}

/// Whether the last component of `path` is a non-empty stem, a dot and `ext`.
pub open spec fn has_extension(path: Seq<char>, ext: Seq<char>) -> bool {
    let name = file_name(path);
    name.len() > ext.len() + 1 && ends_with(name, seq!['.'] + ext)
}

/// Extends the path `base` by `part`.
pub fn join(base: &str, part: &str) -> (out: String)
    ensures
        out@ == joined(base@, part@),
{
    let b = to_chars(base);
    let p = to_chars(part);
    if p.len() > 0 && p[0] == '/' {
        return String::from_str(part);
    }
    let mut out = String::from_str(base);
    if b.len() > 0 && b[b.len() - 1] != '/' {
        out.push('/');
    }
    out.append(part);
    out
}

/// The last component of `path`.
pub fn last_component(path: &[char]) -> (out: Vec<char>)
    ensures
        out@ == file_name(path@),
{
    let n = path.len();
    let mut out: Vec<char> = Vec::new();
    let mut i: usize = 0;
    proof {
        assert(path@.subrange(0, 0) =~= Seq::<char>::empty());
    }
    while i < n
        invariant
            i <= n,
            n == path@.len(),
            out@ == file_name(path@.subrange(0, i as int)),
        decreases n - i,
    {
        let c = path[i];
        proof {
            assert(path@.subrange(0, i + 1).drop_last() =~= path@.subrange(0, i as int));
        }
        if c == '/' {
            out = Vec::new();
        } else {
            out.push(c);
        }
        i += 1;
    }
    proof {
        assert(path@.subrange(0, n as int) =~= path@);
    }
    out
}

/// Whether the last component of `path` has the extension `ext`.
pub fn extension_is(path: &str, ext: &str) -> (r: bool)
    ensures
        r == has_extension(path@, ext@),
{
    let p = to_chars(path);
    let name = last_component(p.as_slice());
    let e = to_chars(ext);
    let mut suffix: Vec<char> = Vec::new();
    suffix.push('.');
    let mut i: usize = 0;
    while i < e.len()
        invariant
            i <= e.len(),
            suffix@ == seq!['.'] + e@.subrange(0, i as int),
        decreases e.len() - i,
    {
        suffix.push(e[i]);
        proof {
            assert(suffix@ =~= seq!['.'] + e@.subrange(0, i + 1));
        }
        i += 1;
    }
    proof {
        assert(e@.subrange(0, e@.len() as int) =~= e@);
    }
    name.len() > suffix.len() && has_suffix(name.as_slice(), suffix.as_slice())
}

/// Asks the file system whether `path` names an existing file or directory,
/// with `std::path::Path::exists`. The answer depends on what is on disk at
/// the moment of the call, so nothing is promised of it.
#[verifier::external_body]
pub(crate) fn path_exists(path: &str) -> (r: bool) {
    std::path::Path::new(path).exists()
}


/// The file system's answer to the question of a path's canonical form.
#[derive(Debug, Clone, PartialEq, Eq)]
pub enum Canonical {
    /// The absolute form of the path, with all links resolved.
    Found(String),
    /// There is none; the text is the system's.
    Failed(String),
}

/// Asks the file system for the absolute form of `path`, with all links
/// resolved, through `std::path::Path::canonicalize`; where that fails, the
/// system's error text. The answer depends on what is on disk at the moment of
/// the call, so nothing is promised of it.
#[verifier::external_body]
pub(crate) fn canonical_path(path: &str) -> (r: Canonical) {
    match std::path::Path::new(path).canonicalize() {
        Ok(found) => Canonical::Found(found.to_string_lossy().into_owned()),
        Err(e) => Canonical::Failed(e.to_string()),
    }
}

/// A path together with what the file system said of it.
#[derive(Debug, Clone, PartialEq, Eq)]
pub struct ProbedPath {
    /// The path as it was given.
    pub path: String,
    /// Whether it names an existing file or directory.
    pub exists: bool,
    /// Its absolute form with all links resolved, or why there is none.
    pub canonical: Canonical,
}

/// Looks `path` up on disk.
pub fn probe(path: &str) -> (r: ProbedPath)
    ensures
        r.path@ == path@,
{
    ProbedPath {
        path: String::from_str(path),
        exists: path_exists(path),
        canonical: canonical_path(path),
    }
}

/// Looks each of `paths` up on disk.
pub fn probe_all(paths: &Vec<String>) -> (r: Vec<ProbedPath>)
    ensures
        r@.len() == paths@.len(),
        forall|i: int| 0 <= i < r@.len() ==> (#[trigger] r@[i]).path@ == paths@[i]@,
{
    let mut out: Vec<ProbedPath> = Vec::new();
    let mut i: usize = 0;
    while i < paths.len()
        invariant
            i <= paths.len(),
            out@.len() == i,
            forall|k: int| 0 <= k < i ==> (#[trigger] out@[k]).path@ == paths@[k]@,
        decreases paths.len() - i,
    {
        out.push(probe(paths[i].as_str()));
        i += 1;
    }
    out
}

} // verus!
