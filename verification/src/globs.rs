//! Sets of file globs.
use globset::{Glob, GlobSet, GlobSetBuilder};
use vstd::prelude::*;

verus! {

/// `globset::Glob`, one glob.
#[verifier::external_type_specification]
#[verifier::external_body]
pub struct ExGlob(globset::Glob);

/// `globset::GlobSetBuilder`, a growing list of globs.
#[verifier::external_type_specification]
#[verifier::external_body]
pub struct ExGlobSetBuilder(globset::GlobSetBuilder);

/// `globset::GlobSet`, globs compiled for matching.
#[verifier::external_type_specification]
#[verifier::external_body]
pub struct ExGlobSet(globset::GlobSet);

/// What `globset::Glob::new` says against a pattern; nothing for a valid one.
pub uninterp spec fn glob_error(pattern: Seq<char>) -> Option<Seq<char>>;

/// What `globset::GlobSetBuilder::build` says against a list of patterns; nothing
/// for one that compiles.
pub uninterp spec fn glob_set_error(patterns: Seq<Seq<char>>) -> Option<Seq<char>>;

/// Whether a glob of that pattern matches a path, by `globset`'s rules.
pub uninterp spec fn glob_matches(pattern: Seq<char>, path: Seq<char>) -> bool;

/// The pattern of a glob.
pub uninterp spec fn glob_pattern(glob: Glob) -> Seq<char>;

/// The patterns added to a builder, in order.
pub uninterp spec fn builder_globs(builder: GlobSetBuilder) -> Seq<Seq<char>>;

/// The patterns that a set was built from, in order.
pub uninterp spec fn set_globs(set: GlobSet) -> Seq<Seq<char>>;

/// `globset::GlobSetBuilder::new`: a builder without patterns.
#[verifier::external_body]
fn new_builder() -> (res: GlobSetBuilder)
    ensures
        builder_globs(res) == Seq::<Seq<char>>::empty(),
{
    GlobSetBuilder::new()
}

/// `globset::Glob::new`: the glob of a valid pattern, or the error as text.
#[verifier::external_body]
pub(crate) fn new_glob(pattern: &str) -> (res: Result<Glob, String>)
    ensures
        match res {
            Ok(glob) => glob_error(pattern@) is None && glob_pattern(glob) == pattern@,
            Err(e) => glob_error(pattern@) == Some(e@),
        },
{
    Glob::new(pattern).map_err(|e| e.to_string())
}

/// `globset::GlobSetBuilder::add`: appends a glob.
#[verifier::external_body]
fn add_glob(builder: &mut GlobSetBuilder, glob: Glob)
    ensures
        builder_globs(*final(builder)) == builder_globs(*old(builder)).push(glob_pattern(glob)),
{
    builder.add(glob);
}

/// `globset::GlobSetBuilder::build`: the set of the builder's patterns, or the
/// error as text. A builder without patterns always builds.
#[verifier::external_body]
fn build_set(builder: &GlobSetBuilder) -> (res: Result<GlobSet, String>)
    ensures
        match res {
            Ok(set) => glob_set_error(builder_globs(*builder)) is None && set_globs(set)
                == builder_globs(*builder),
            Err(e) => glob_set_error(builder_globs(*builder)) == Some(e@) && builder_globs(
                *builder,
            ).len() > 0,
        },
{
    builder.build().map_err(|e| e.to_string())
}

/// Whether one of `patterns` matches `path`.
pub open spec fn any_matches(patterns: Seq<Seq<char>>, path: Seq<char>) -> bool {
    exists|i: int| 0 <= i < patterns.len() && glob_matches(#[trigger] patterns[i], path)
}

/// `globset::GlobSet::is_match`: whether one of the set's globs matches.
#[verifier::external_body]
pub(crate) fn set_matches(set: &GlobSet, path: &str) -> (res: bool)
    ensures
        res == (exists|i: int|
            (0 <= i && i < set_globs(*set).len() && glob_matches(
                #[trigger] set_globs(*set)[i],
                path@,
            ))),
{
    set.is_match(path)
}

/// Why a list of patterns is no glob set: the first invalid pattern with its
/// error, or all of them with the error of compiling them together.
#[derive(Debug, PartialEq, Eq)]
pub struct GlobFailure {
    pub pattern: String,
    pub message: String,
}

/// The pattern at place `i` is the first invalid one.
pub open spec fn first_invalid(patterns: Seq<Seq<char>>, i: int) -> bool {
    &&& 0 <= i < patterns.len()
    &&& glob_error(patterns[i]) is Some
    &&& forall|k: int| 0 <= k < i ==> glob_error(#[trigger] patterns[k]) is None
}

/// Whether every pattern is valid.
pub open spec fn all_valid(patterns: Seq<Seq<char>>) -> bool {
    forall|k: int| 0 <= k < patterns.len() ==> glob_error(#[trigger] patterns[k]) is None
}

/// `e` says why `patterns` are no glob set.
pub open spec fn refuses(patterns: Seq<Seq<char>>, e: GlobFailure) -> bool {
    ||| exists|i: int| #[trigger]
        first_invalid(patterns, i) && e.pattern@ == patterns[i] && Some(e.message@) == glob_error(
            patterns[i],
        )
    ||| all_valid(patterns) && glob_set_error(patterns) == Some(e.message@) && e.pattern@
        == crate::text::joined(patterns, ", "@)
}

/// Compiles `patterns` into a set.
pub fn build_glob_set(patterns: &Vec<String>) -> (res: Result<GlobSet, GlobFailure>)
    ensures
        match res {
            Ok(set) => all_valid(patterns.deep_view()) && glob_set_error(patterns.deep_view())
                is None && set_globs(set) == patterns.deep_view(),
            Err(e) => refuses(patterns.deep_view(), e),
        },
{
    let ghost all = patterns.deep_view();
    let mut builder = new_builder();
    let mut i: usize = 0;
    assert(all.take(0) =~= Seq::<Seq<char>>::empty());
    while i < patterns.len()
        invariant
            i <= patterns@.len(),
            all == patterns.deep_view(),
            builder_globs(builder) == all.take(i as int),
            forall|k: int| 0 <= k < i ==> glob_error(#[trigger] all[k]) is None,
        decreases patterns@.len() - i,
    {
        match new_glob(patterns[i].as_str()) {
            Ok(glob) => {
                add_glob(&mut builder, glob);
                assert(all.take(i + 1) =~= all.take(i as int).push(all[i as int]));
            },
            Err(message) => {
                assert(first_invalid(all, i as int));
                return Err(GlobFailure { pattern: patterns[i].clone(), message });
            },
        }
        i += 1;
    }
    assert(all.take(i as int) =~= all);
    match build_set(&builder) {
        Ok(set) => Ok(set),
        Err(message) => Err(
            GlobFailure { pattern: crate::text::join(patterns, ", "), message },
        ),
    }
}

/// Patterns are refused for the first one that is no glob, with what is said against it;
/// where each is one, for what is said against all of them together. Patterns that are
/// all globs and go together are not refused.
pub proof fn law_the_first_bad_pattern_is_reported(
    patterns: Seq<Seq<char>>,
    e: GlobFailure,
    k: int,
)
    requires
        refuses(patterns, e),
    ensures
        0 <= k < patterns.len() && glob_error(patterns[k]) is Some && (forall|i: int|
            0 <= i < k ==> glob_error(#[trigger] patterns[i]) is None) ==> e.pattern@ == patterns[k]
            && glob_error(patterns[k]) == Some(e.message@),
        (forall|i: int| 0 <= i < patterns.len() ==> glob_error(#[trigger] patterns[i]) is None)
            ==> glob_set_error(patterns) == Some(e.message@) && e.pattern@ == crate::text::joined(
            patterns,
            ", "@,
        ),
{
    if exists|i: int| #[trigger]
        first_invalid(patterns, i) && e.pattern@ == patterns[i] && Some(e.message@) == glob_error(
            patterns[i],
        ) {
        let i = choose|i: int| #[trigger]
            first_invalid(patterns, i) && e.pattern@ == patterns[i] && Some(e.message@)
                == glob_error(patterns[i]);
        assert(glob_error(patterns[i]) is Some);
        if 0 <= k < patterns.len() && glob_error(patterns[k]) is Some && (forall|j: int|
            0 <= j < k ==> glob_error(#[trigger] patterns[j]) is None) {
            if i < k {
                assert(glob_error(patterns[i]) is None);
            } else if k < i {
                assert(glob_error(patterns[k]) is None);
            }
        }
    } else if 0 <= k < patterns.len() {
        assert(glob_error(patterns[k]) is None);
    }
}

/// A path is matched where one of the patterns matches it, whichever.
pub proof fn law_one_matching_pattern_is_enough(
    patterns: Seq<Seq<char>>,
    more: Seq<Seq<char>>,
    path: Seq<char>,
)
    ensures
        !any_matches(Seq::empty(), path),
        any_matches(patterns + more, path) <==> any_matches(patterns, path) || any_matches(
            more,
            path,
        ),
        patterns.len() == 1 ==> any_matches(patterns, path) == glob_matches(patterns[0], path),
{
    let all = patterns + more;
    if any_matches(patterns, path) {
        let i = choose|i: int|
            0 <= i < patterns.len() && glob_matches(#[trigger] patterns[i], path);
        assert(all[i] == patterns[i]);
    }
    if any_matches(more, path) {
        let i = choose|i: int| 0 <= i < more.len() && glob_matches(#[trigger] more[i], path);
        assert(all[patterns.len() + i] == more[i]);
    }
    if any_matches(all, path) {
        let i = choose|i: int| 0 <= i < all.len() && glob_matches(#[trigger] all[i], path);
        if i < patterns.len() {
            assert(glob_matches(patterns[i], path));
        } else {
            assert(glob_matches(more[i - patterns.len()], path));
        }
    }
    if patterns.len() == 1 && glob_matches(patterns[0], path) {
        assert(any_matches(patterns, path));
    }
}

} // verus!
