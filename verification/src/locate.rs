//! The source locator: decides which path on disk an artifact reference
//! points at.
//!
//! An absolute URI names itself. A relative URI is resolved per the
//! format's rules: when the reference carries a base-URI id that the run's
//! base-URI table declares, the declared base is joined with the relative
//! URI and tried first; the relative URI itself is tried next. No recursive
//! base-URI resolution is attempted: a base URI that itself needs resolving
//! is used as written.
//!
//! The crate never touches the file system. [`candidate_paths`] lists the
//! paths to probe, in precedence order; the caller probes them and reports
//! which exist; [`try_find_file`] then picks the first existing candidate.
//! Paths are Unix-style: absolute means starting with `/`.

use vstd::prelude::*;
use vstd::string::{StrSliceExecFns, StringExecFns};
use crate::sarif::{PhysicalLocation, Run, UriBase};
use crate::text::string_eq;

verus! {

/// A failure to locate the artifact of a physical location.
#[derive(Clone, Copy, Debug, PartialEq, Eq, Structural)]
pub enum FindFileError {
    /// The location carries no artifact location.
    NoArtifactLocation,
    /// The artifact location carries no URI.
    NoUri,
    /// No candidate path exists on disk.
    NotFound,
}

/// Whether a path is absolute (Unix-style).
pub open spec fn spec_is_absolute(s: Seq<char>) -> bool {
    s.len() > 0 && s[0] == '/'
}

/// Tests whether a path is absolute.
pub fn is_absolute(s: &String) -> (r: bool)
    ensures
        r == spec_is_absolute(s@),
{
    let n = s.as_str().unicode_len();
    n > 0 && s.as_str().get_char(0) == '/'
}

/// A base path joined with a relative path: a separator is added unless the
/// base is empty or already ends with one.
pub open spec fn spec_join(base: Seq<char>, rel: Seq<char>) -> Seq<char> {
    if base.len() == 0 {
        rel
    } else if base[base.len() - 1] == '/' {
        base + rel
    } else {
        base + "/"@ + rel
    }
}

/// Joins a base path with a relative path.
pub fn join_paths(base: &String, rel: &String) -> (r: String)
    ensures
        r@ == spec_join(base@, rel@),
{
    let n = base.as_str().unicode_len();
    if n == 0 {
        rel.clone()
    } else if base.as_str().get_char(n - 1) == '/' {
        base.clone().concat(rel.as_str())
    } else {
        base.clone().concat("/").concat(rel.as_str())
    }
}

/// The position of the first base-URI table entry declaring `id`, scanning
/// from `from`.
pub open spec fn spec_base_find_from(tbl: Seq<UriBase>, id: Seq<char>, from: int) -> Option<int>
    decreases tbl.len() - from,
{
    if from < 0 || from >= tbl.len() {
        None
    } else if tbl[from].id@ == id {
        Some(from)
    } else {
        spec_base_find_from(tbl, id, from + 1)
    }
}

/// Looks a base-URI id up in a run's base-URI table.
fn base_lookup<'a>(tbl: &'a Vec<UriBase>, id: &String) -> (r: Option<&'a UriBase>)
    ensures
        match r {
            Some(e) => match spec_base_find_from(tbl@, id@, 0) {
                Some(j) => *e == tbl@[j],
                None => false,
            },
            None => spec_base_find_from(tbl@, id@, 0) is None,
        },
{
    let mut j: usize = 0;
    while j < tbl.len()
        invariant
            j <= tbl@.len(),
            spec_base_find_from(tbl@, id@, 0) == spec_base_find_from(tbl@, id@, j as int),
        decreases tbl@.len() - j,
    {
        if string_eq(&tbl[j].id, id) {
            return Some(&tbl[j]);
        }
        j = j + 1;
    }
    None
}

/// The candidate paths of a physical location, in the order they are to be
/// probed, or the reason none can be named.
pub open spec fn spec_candidates(phys: PhysicalLocation, run: Run) -> Result<
    Seq<Seq<char>>,
    FindFileError,
> {
    match phys.artifact_location {
        None => Err(FindFileError::NoArtifactLocation),
        Some(al) => match al.uri {
            None => Err(FindFileError::NoUri),
            Some(uri) => Ok(
                if spec_is_absolute(uri@) {
                    seq![uri@]
                } else {
                    match al.uri_base_id {
                        Some(bid) => match run.original_uri_base_ids {
                            Some(tbl) => {
                                let joined = match spec_base_find_from(tbl@, bid@, 0) {
                                    Some(j) => match tbl@[j].uri {
                                        Some(b) => spec_join(b@, uri@),
                                        None => uri@,
                                    },
                                    None => uri@,
                                };
                                seq![joined, uri@]
                            },
                            None => seq![uri@],
                        },
                        None => seq![uri@],
                    }
                },
            ),
        },
    }
}

/// Lists the paths at which the artifact of a physical location may be
/// found, in precedence order: an absolute URI names only itself; a
/// relative URI with a declared base is tried joined with the base, then
/// bare; any other relative URI is tried bare.
pub fn candidate_paths(physical_location: &PhysicalLocation, run: &Run) -> (r: Result<
    Vec<String>,
    FindFileError,
>)
    ensures
        match r {
            Ok(v) => match spec_candidates(*physical_location, *run) {
                Ok(cs) => v@.len() == cs.len() && forall|i: int|
                    0 <= i < cs.len() ==> (#[trigger] v@[i])@ == cs[i],
                Err(_) => false,
            },
            Err(e) => spec_candidates(*physical_location, *run) == Err::<
                Seq<Seq<char>>,
                FindFileError,
            >(e),
        },
{
    let al = match &physical_location.artifact_location {
        Some(al) => al,
        None => {
            return Err(FindFileError::NoArtifactLocation);
        },
    };
    let uri = match &al.uri {
        Some(uri) => uri,
        None => {
            return Err(FindFileError::NoUri);
        },
    };
    let mut v: Vec<String> = Vec::new();
    if is_absolute(uri) {
        v.push(uri.clone());
        return Ok(v);
    }
    match &al.uri_base_id {
        Some(bid) => match &run.original_uri_base_ids {
            Some(tbl) => {
                let joined: String = match base_lookup(tbl, bid) {
                    Some(e) => match &e.uri {
                        Some(b) => join_paths(b, uri),
                        None => uri.clone(),
                    },
                    None => uri.clone(),
                };
                v.push(joined);
                v.push(uri.clone());
            },
            None => {
                v.push(uri.clone());
            },
        },
        None => {
            v.push(uri.clone());
        },
    }
    Ok(v)
}

/// The position of the first existing candidate, scanning from `from`.
pub open spec fn spec_first_existing_from(ex: Seq<bool>, from: int) -> Option<int>
    decreases ex.len() - from,
{
    if from < 0 || from >= ex.len() {
        None
    } else if ex[from] {
        Some(from)
    } else {
        spec_first_existing_from(ex, from + 1)
    }
}

/// Picks the path of the artifact of a physical location: the first
/// candidate path that exists on disk.
///
/// `exists` reports, for each path of [`candidate_paths`] in order, whether
/// it exists; the caller performs those probes. The result is the first
/// existing candidate, `NotFound` when none exists, or the locator's error
/// when no candidate can be named.
pub fn try_find_file(physical_location: &PhysicalLocation, run: &Run, exists: &Vec<bool>) -> (r:
    Result<String, FindFileError>)
    requires
        match spec_candidates(*physical_location, *run) {
            Ok(cs) => exists@.len() == cs.len(),
            Err(_) => true,
        },
    ensures
        match spec_candidates(*physical_location, *run) {
            Ok(cs) => match r {
                Ok(p) => match spec_first_existing_from(exists@, 0) {
                    Some(i) => p@ == cs[i],
                    None => false,
                },
                Err(e) => e == FindFileError::NotFound && spec_first_existing_from(exists@, 0)
                    is None,
            },
            Err(e) => r == Err::<String, FindFileError>(e),
        },
{
    let cands = match candidate_paths(physical_location, run) {
        Ok(c) => c,
        Err(e) => {
            return Err(e);
        },
    };
    let mut i: usize = 0;
    while i < cands.len()
        invariant
            i <= cands@.len(),
            cands@.len() == exists@.len(),
            spec_first_existing_from(exists@, 0) == spec_first_existing_from(exists@, i as int),
            match spec_candidates(*physical_location, *run) {
                Ok(cs) => cands@.len() == cs.len() && forall|k: int|
                    0 <= k < cs.len() ==> (#[trigger] cands@[k])@ == cs[k],
                Err(_) => false,
            },
        decreases cands@.len() - i,
    {
        if exists[i] {
            return Ok(cands[i].clone());
        }
        i = i + 1;
    }
    Err(FindFileError::NotFound)
}

} // verus!
