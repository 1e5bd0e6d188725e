//! Glob pattern sets, backed by the `globset` crate.

use crate::error::RepoError;
use vstd::prelude::*;

verus! {

/// The outside glob type of `globset`.
#[verifier::external_type_specification]
#[verifier::external_body]
pub struct ExGlob(globset::Glob);

/// The outside builder of glob sets.
#[verifier::external_type_specification]
#[verifier::external_body]
pub struct ExGlobSetBuilder(globset::GlobSetBuilder);

/// The outside compiled glob set.
#[verifier::external_type_specification]
#[verifier::external_body]
pub struct ExGlobSet(globset::GlobSet);

/// The error that `globset` reports for a pattern or a set it cannot build.
#[verifier::external_type_specification]
#[verifier::external_body]
pub struct ExGlobError(globset::Error);

/// Whether `globset::Glob::new` accepts the pattern.
pub uninterp spec fn glob_valid(pattern: Seq<char>) -> bool;

/// The pattern text that a compiled glob was built from.
pub uninterp spec fn glob_source(g: globset::Glob) -> Seq<char>;

/// The pattern texts of the globs added to a builder, in order.
pub uninterp spec fn builder_globs(b: globset::GlobSetBuilder) -> Seq<Seq<char>>;

/// The pattern texts of the globs held by a compiled set, in order.
pub uninterp spec fn set_globs(s: globset::GlobSet) -> Seq<Seq<char>>;

/// Whether `globset` builds a set from globs with these pattern texts.
pub uninterp spec fn globs_build(globs: Seq<Seq<char>>) -> bool;

/// Whether one glob pattern matches a path, under `globset`'s default options.
pub uninterp spec fn glob_matches(pattern: Seq<char>, path: Seq<char>) -> bool;

/// A path matches a pattern list when at least one pattern matches it.
pub open spec fn matches_any(patterns: Seq<Seq<char>>, path: Seq<char>) -> bool {
    exists|i: int| 0 <= i < patterns.len() && glob_matches(#[trigger] patterns[i], path)
}

/// The character sequences of a list of strings.
pub open spec fn texts(v: Seq<String>) -> Seq<Seq<char>> {
    v.map_values(|s: String| s@)
}

/// Index of the first pattern at or after `i` that `globset` refuses, if any.
pub open spec fn first_invalid_from(patterns: Seq<Seq<char>>, i: int) -> Option<int>
    decreases patterns.len() - i,
{
    if i < 0 || i >= patterns.len() {
        None
    } else if !glob_valid(patterns[i]) {
        Some(i)
    } else {
        first_invalid_from(patterns, i + 1)
    }
}

/// Index of the first pattern that `globset` refuses, if any.
pub open spec fn first_invalid(patterns: Seq<Seq<char>>) -> Option<int> {
    first_invalid_from(patterns, 0)
}

/// Relies on `globset::Glob::new`: it fails exactly on patterns it refuses,
/// and the glob it returns keeps the pattern text (`Glob::glob`).
#[verifier::external_body]
fn new_glob(pattern: &str) -> (r: Result<globset::Glob, globset::Error>)
    ensures
        r is Ok <==> glob_valid(pattern@),
        r matches Ok(g) ==> glob_source(g) == pattern@,
{
    globset::Glob::new(pattern)
}

/// Relies on `globset::GlobSetBuilder::new`: a builder with no globs.
#[verifier::external_body]
fn new_builder() -> (r: globset::GlobSetBuilder)
    ensures
        builder_globs(r) == Seq::<Seq<char>>::empty(),
{
    globset::GlobSetBuilder::new()
}

/// Relies on `globset::GlobSetBuilder::add`: the glob is appended to the builder's list.
#[verifier::external_body]
fn add_glob(b: &mut globset::GlobSetBuilder, g: globset::Glob)
    ensures
        builder_globs(*final(b)) == builder_globs(*old(b)).push(glob_source(g)),
{
    b.add(g);
}

/// Relies on `globset::GlobSetBuilder::build`: whether it succeeds depends on
/// the globs alone, a built set holds the builder's globs, and a builder with
/// no globs gives the empty set.
#[verifier::external_body]
fn build_set(b: &globset::GlobSetBuilder) -> (r: Result<globset::GlobSet, globset::Error>)
    ensures
        r is Ok <==> globs_build(builder_globs(*b)),
        builder_globs(*b).len() == 0 ==> r is Ok,
        r matches Ok(s) ==> set_globs(s) == builder_globs(*b),
{
    b.build()
}

/// Relies on `globset::GlobSet::is_match`: true if any glob in the set matches the path.
#[verifier::external_body]
pub(crate) fn set_is_match(s: &globset::GlobSet, path: &str) -> (r: bool)
    ensures
        r == (exists|i: int|
            0 <= i < set_globs(*s).len() && glob_matches(#[trigger] set_globs(*s)[i], path@)),
{
    s.is_match(path)
}

/// A set compiled from a pattern list matches a path exactly when at least
/// one of the patterns matches it; a set compiled from no patterns matches
/// nothing.
pub proof fn lemma_set_matches_iff_some_pattern(
    patterns: Seq<String>,
    s: globset::GlobSet,
    path: Seq<char>,
)
    requires
        set_globs(s) == texts(patterns),
    ensures
        matches_any(set_globs(s), path) <==> exists|i: int|
            0 <= i < patterns.len() && glob_matches(#[trigger] patterns[i]@, path),
        patterns.len() == 0 ==> !matches_any(set_globs(s), path),
{
    if matches_any(set_globs(s), path) {
        let i = choose|i: int|
            0 <= i < set_globs(s).len() && glob_matches(#[trigger] set_globs(s)[i], path);
        assert(glob_matches(patterns[i]@, path));
    }
    if exists|i: int| 0 <= i < patterns.len() && glob_matches(#[trigger] patterns[i]@, path) {
        let i = choose|i: int| 0 <= i < patterns.len() && glob_matches(#[trigger] patterns[i]@, path);
        assert(glob_matches(set_globs(s)[i], path));
    }
}

/// Matching depends only on which patterns a list holds, not on their order
/// or repetition.
pub proof fn lemma_matches_any_by_pattern_set(
    patterns: Seq<Seq<char>>,
    others: Seq<Seq<char>>,
    path: Seq<char>,
)
    requires
        patterns.to_set() == others.to_set(),
    ensures
        matches_any(patterns, path) == matches_any(others, path),
{
    if matches_any(patterns, path) {
        let i = choose|i: int| 0 <= i < patterns.len() && glob_matches(#[trigger] patterns[i], path);
        assert(patterns.to_set().contains(patterns[i]));
        assert(others.to_set().contains(patterns[i]));
        let j = choose|j: int| 0 <= j < others.len() && others[j] == patterns[i];
        assert(glob_matches(others[j], path));
    }
    if matches_any(others, path) {
        let i = choose|i: int| 0 <= i < others.len() && glob_matches(#[trigger] others[i], path);
        assert(others.to_set().contains(others[i]));
        assert(patterns.to_set().contains(others[i]));
        let j = choose|j: int| 0 <= j < patterns.len() && patterns[j] == others[i];
        assert(glob_matches(patterns[j], path));
    }
}

/// Whether a pattern list compiles: it is empty, or every pattern is
/// accepted and `globset` builds the set.
pub open spec fn list_compiles(patterns: Seq<String>) -> bool {
    patterns.len() == 0 || (first_invalid(texts(patterns)) is None && globs_build(
        texts(patterns),
    ))
}

/// The error that compiling a pattern list that does not compile gives:
/// the first refused pattern, or `GlobSetBuild` when every one is accepted.
pub open spec fn list_error(patterns: Seq<String>, e: RepoError) -> bool {
    match first_invalid(texts(patterns)) {
        Some(i) => e matches RepoError::InvalidPattern(p) && p@ == patterns[i]@,
        None => e is GlobSetBuild,
    }
}

/// Compiles a pattern list into one glob set.
///
/// Fails with `InvalidPattern` naming the first pattern that `globset`
/// refuses, before any set is built. When every pattern is accepted the
/// set holds exactly the given patterns in order, or, where `globset`
/// cannot build it, the result is `GlobSetBuild`. An empty list gives the
/// empty set, which matches nothing.
pub fn build_glob_set(patterns: &Vec<String>) -> (r: Result<globset::GlobSet, RepoError>)
    ensures
        list_compiles(patterns@) ==> (r matches Ok(s) && set_globs(s) == texts(patterns@)),
        !list_compiles(patterns@) ==> (r matches Err(e) && list_error(patterns@, e)),
        patterns@.len() == 0 ==> (r matches Ok(s) && set_globs(s).len() == 0),
{
    let mut builder = new_builder();
    let mut i: usize = 0;
    while i < patterns.len()
        invariant
            i <= patterns.len(),
            builder_globs(builder) == texts(patterns@.subrange(0, i as int)),
            first_invalid(texts(patterns@)) == first_invalid_from(texts(patterns@), i as int),
        decreases patterns.len() - i,
    {
        let pattern = &patterns[i];
        match new_glob(pattern.as_str()) {
            Ok(g) => {
                add_glob(&mut builder, g);
                proof {
                    assert(texts(patterns@.subrange(0, i + 1)) =~= texts(
                        patterns@.subrange(0, i as int),
                    ).push(patterns@[i as int]@));
                }
            },
            Err(_) => {
                return Err(RepoError::InvalidPattern(pattern.clone()));
            },
        }
        i = i + 1;
    }
    proof {
        assert(patterns@.subrange(0, i as int) =~= patterns@);
    }
    match build_set(&builder) {
        Ok(s) => Ok(s),
        Err(_) => Err(RepoError::GlobSetBuild),
    }
}

} // verus!
