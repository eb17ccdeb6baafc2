//! Sets of shell-style glob patterns, parsed and matched by the `globset`
//! crate.

use vstd::prelude::*;

verus! {

/// Declares `globset::Glob`, a parsed glob pattern, as an opaque type.
#[verifier::external_type_specification]
#[verifier::external_body]
pub struct ExGlob(globset::Glob);

/// Declares `globset::GlobSet`, a matcher built from a group of globs, as an
/// opaque type.
#[verifier::external_type_specification]
#[verifier::external_body]
pub struct ExGlobSet(globset::GlobSet);

/// Declares `globset::GlobSetBuilder`, a growing list of globs, as an opaque
/// type.
#[verifier::external_type_specification]
#[verifier::external_body]
pub struct ExGlobSetBuilder(globset::GlobSetBuilder);

/// Declares `globset::Error`, the reason why a glob did not parse or a
/// matcher could not be built, as an opaque type.
#[verifier::external_type_specification]
#[verifier::external_body]
pub struct ExGlobError(globset::Error);

/// Whether the `globset` crate parses this text as a glob pattern.
pub uninterp spec fn glob_accepts(pattern: Seq<char>) -> bool;

/// The pattern text that a parsed glob was built from, as
/// `globset::Glob::glob` returns it.
pub uninterp spec fn glob_source(glob: globset::Glob) -> Seq<char>;

/// The pattern texts of the globs added to a builder so far, in order.
pub uninterp spec fn builder_globs(builder: globset::GlobSetBuilder) -> Seq<Seq<char>>;

/// The pattern texts of the globs that a set was built from, in order.
pub uninterp spec fn glob_set_globs(set: globset::GlobSet) -> Seq<Seq<char>>;

/// Whether a matcher can be built from globs with these pattern texts.
pub uninterp spec fn glob_set_accepts(patterns: Seq<Seq<char>>) -> bool;

/// Whether a non-empty set built from these pattern texts reports that some
/// glob of it matches the path.
pub uninterp spec fn glob_set_is_match(patterns: Seq<Seq<char>>, path: Seq<char>) -> bool;

/// Whether some glob of a set with these pattern texts matches the path. An
/// empty set matches nothing.
pub open spec fn any_glob_matches(patterns: Seq<Seq<char>>, path: Seq<char>) -> bool {
    patterns.len() > 0 && glob_set_is_match(patterns, path)
}

/// Calls `globset::Glob::new`.
///
/// Trusted: the outcome depends on the pattern text alone, and a parsed glob
/// keeps that text as its source.
#[verifier::external_body]
pub(crate) fn parse_glob(pattern: &str) -> (r: Result<globset::Glob, globset::Error>)
    ensures
        r.is_ok() == glob_accepts(pattern@),
        r matches Ok(glob) ==> glob_source(glob) == pattern@,
{
    globset::Glob::new(pattern)
}

/// Calls `globset::GlobSetBuilder::new`.
///
/// Trusted: a new builder holds no glob.
#[verifier::external_body]
pub(crate) fn new_builder() -> (builder: globset::GlobSetBuilder)
    ensures
        builder_globs(builder) == Seq::<Seq<char>>::empty(),
{
    globset::GlobSetBuilder::new()
}

/// Calls `globset::GlobSetBuilder::add`.
///
/// Trusted: the glob is appended to those the builder holds.
#[verifier::external_body]
pub(crate) fn builder_add(builder: &mut globset::GlobSetBuilder, glob: globset::Glob)
    ensures
        builder_globs(*final(builder)) == builder_globs(*old(builder)).push(glob_source(glob)),
{
    builder.add(glob);
}

/// Calls `globset::GlobSetBuilder::build`.
///
/// Trusted: the outcome depends on the pattern texts alone, and the set holds
/// the globs that the builder held.
#[verifier::external_body]
pub(crate) fn builder_build(builder: &globset::GlobSetBuilder) -> (r: Result<
    globset::GlobSet,
    globset::Error,
>)
    ensures
        r.is_ok() == glob_set_accepts(builder_globs(*builder)),
        r matches Ok(set) ==> glob_set_globs(set) == builder_globs(*builder),
{
    builder.build()
}

/// Calls `globset::GlobSet::is_empty`.
///
/// Trusted: a set is empty exactly when it was built from no glob.
#[verifier::external_body]
pub(crate) fn set_is_empty(set: &globset::GlobSet) -> (empty: bool)
    ensures
        empty == (glob_set_globs(*set).len() == 0),
{
    set.is_empty()
}

/// Calls `globset::GlobSet::is_match` on the path.
///
/// Trusted: the answer depends on the set's pattern texts and the path alone,
/// and an empty set matches nothing.
#[verifier::external_body]
pub(crate) fn set_is_match(set: &globset::GlobSet, path: &str) -> (matched: bool)
    ensures
        matched == (glob_set_globs(*set).len() > 0 && glob_set_is_match(
            glob_set_globs(*set),
            path@,
        )),
{
    set.is_match(path)
}

/// Renders a `globset::Error` through its `Display` impl. Nothing is claimed
/// of the text.
#[verifier::external_body]
pub(crate) fn glob_error_text(e: &globset::Error) -> (s: String) {
    format!("{}", e)
}

} // verus!
