use vstd::prelude::*;

use crate::error::RefstoreError;
use crate::text::str_views;

verus! {

#[verifier::external_type_specification]
#[verifier::external_body]
pub struct ExGlobError(globset::Error);

/// Whether globset accepts `pattern` as a glob and builds a glob set from it.
pub uninterp spec fn glob_valid(pattern: Seq<char>) -> bool;

/// Whether the glob set built from `pattern` matches the relative path `path`.
pub uninterp spec fn glob_matches(pattern: Seq<char>, path: Seq<char>) -> bool;

/// Relies on `globset::Glob::new` and `globset::GlobSetBuilder::build`:
/// whether a set of the one pattern is built depends on the pattern alone.
#[verifier::external_body]
fn check_glob(pattern: &str) -> (r: Result<(), globset::Error>)
    ensures
        r is Ok <==> glob_valid(pattern@),
{
    let glob = globset::Glob::new(pattern)?;
    globset::GlobSetBuilder::new().add(glob).build().map(|_| ())
}

/// Relies on `globset::GlobSet::is_match` for the set that
/// `globset::GlobSetBuilder` builds from `pattern`: the answer depends on
/// the pattern and the path alone.
#[verifier::external_body]
fn glob_match(pattern: &str, path: &str) -> (r: bool)
    requires
        glob_valid(pattern@),
    ensures
        r == glob_matches(pattern@, path@),
{
    let set = match globset::Glob::new(pattern) {
        Ok(glob) => globset::GlobSetBuilder::new().add(glob).build(),
        Err(e) => Err(e),
    };
    match set {
        Ok(set) => set.is_match(path),
        Err(_) => false,
    }
}

/// Some glob of `pats` matches `path`.
pub open spec fn any_match(pats: Seq<Seq<char>>, path: Seq<char>) -> bool {
    exists|i: int| 0 <= i < pats.len() && glob_matches(#[trigger] pats[i], path)
}

/// A file is copied when there are no include globs or one matches, and no
/// exclude glob matches.
pub open spec fn keep_file(includes: Seq<Seq<char>>, excludes: Seq<Seq<char>>, path: Seq<char>) -> bool {
    (includes.len() == 0 || any_match(includes, path)) && !any_match(excludes, path)
}

/// Whether a file is copied, given whether include globs were given,
/// whether one matched, and whether an exclude glob matched.
pub fn file_selected(has_includes: bool, included: bool, excluded: bool) -> (r: bool)
    ensures
        r == ((!has_includes || included) && !excluded),
{
    (!has_includes || included) && !excluded
}

/// Every glob of `pats` is one that globset accepts.
pub open spec fn all_valid(pats: Seq<Seq<char>>) -> bool {
    forall|i: int| 0 <= i < pats.len() ==> glob_valid(#[trigger] pats[i])
}

fn validate_globs(pats: &Vec<String>) -> (r: Result<(), RefstoreError>)
    ensures
        r is Ok <==> all_valid(str_views(pats@)),
        r matches Err(e) ==> (e matches RefstoreError::InvalidGlob { pattern: p } && !glob_valid(p@)
            && str_views(pats@).contains(p@)),
{
    let mut i: usize = 0;
    while i < pats.len()
        invariant
            i <= pats@.len(),
            forall|j: int| 0 <= j < i ==> glob_valid(#[trigger] str_views(pats@)[j]),
        decreases pats@.len() - i,
    {
        match check_glob(pats[i].as_str()) {
            Ok(()) => {},
            Err(_) => {
                assert(str_views(pats@)[i as int] == pats@[i as int]@);
                return Err(RefstoreError::InvalidGlob { pattern: pats[i].clone() });
            },
        }
        i = i + 1;
    }
    Ok(())
}

fn matches_any(pats: &Vec<String>, path: &str) -> (r: bool)
    requires
        all_valid(str_views(pats@)),
    ensures
        r == any_match(str_views(pats@), path@),
{
    let mut i: usize = 0;
    while i < pats.len()
        invariant
            i <= pats@.len(),
            all_valid(str_views(pats@)),
            forall|j: int| 0 <= j < i ==> !glob_matches(#[trigger] str_views(pats@)[j], path@),
        decreases pats@.len() - i,
    {
        assert(str_views(pats@)[i as int] == pats@[i as int]@);
        if glob_match(pats[i].as_str(), path) {
            return true;
        }
        i = i + 1;
    }
    false
}

/// The files to copy among `paths` (relative to the source directory),
/// in order, under the include and exclude globs; refused, naming the
/// glob, when globset does not accept one of them.
pub fn select_files(paths: &Vec<String>, includes: &Vec<String>, excludes: &Vec<String>) -> (r: Result<
    Vec<String>,
    RefstoreError,
>)
    ensures
        r is Ok <==> all_valid(str_views(includes@)) && all_valid(str_views(excludes@)),
        r matches Err(e) ==> (e matches RefstoreError::InvalidGlob { pattern: p } && !glob_valid(p@)),
        r matches Ok(v) ==> str_views(v@) == str_views(paths@).filter(
            |p: Seq<char>| keep_file(str_views(includes@), str_views(excludes@), p),
        ),
{
    validate_globs(includes)?;
    validate_globs(excludes)?;
    let ghost ps = str_views(paths@);
    let ghost keep = |p: Seq<char>| keep_file(str_views(includes@), str_views(excludes@), p);
    let has_includes = includes.len() > 0;
    let mut out: Vec<String> = Vec::new();
    let mut i: usize = 0;
    while i < paths.len()
        invariant
            ps == str_views(paths@),
            keep == (|p: Seq<char>| keep_file(str_views(includes@), str_views(excludes@), p)),
            all_valid(str_views(includes@)),
            all_valid(str_views(excludes@)),
            has_includes == (includes@.len() > 0),
            i <= paths@.len(),
            str_views(out@) == ps.subrange(0, i as int).filter(keep),
        decreases paths@.len() - i,
    {
        proof {
            ps.subrange(0, i as int).lemma_filter_push(ps[i as int], keep);
        }
        assert(ps.subrange(0, i as int + 1) =~= ps.subrange(0, i as int).push(ps[i as int]));
        let p = paths[i].as_str();
        let included = has_includes && matches_any(includes, p);
        let excluded = matches_any(excludes, p);
        if file_selected(has_includes, included, excluded) {
            out.push(paths[i].clone());
        }
        assert(str_views(out@) =~= ps.subrange(0, i as int + 1).filter(keep));
        i = i + 1;
    }
    assert(ps.subrange(0, paths@.len() as int) =~= ps);
    Ok(out)
}

} // verus!
