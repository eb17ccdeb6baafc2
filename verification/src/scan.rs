//! Deciding which files are read, and running every rule over one file.

use crate::config::sources;
use crate::matcher::{finding, Violation, ViolationView};
use crate::rules::{rule_views, Rule, RuleView};
use vstd::prelude::*;
use vstd::string::StringSliceAdditionalSpecFns;

verus! {

/// The views of a list of violations.
pub open spec fn violation_views(violations: Seq<Violation>) -> Seq<ViolationView> {
    Seq::new(violations.len(), |i: int| violations[i]@)
}

/// Whether some rule of the list applies to the path.
pub open spec fn some_rule_in_scope(rules: Seq<RuleView>, path: Seq<char>) -> bool {
    exists|i: int| 0 <= i < rules.len() && (#[trigger] rules[i]).in_scope(path)
}

/// Whether a canonical path passes the restriction to explicitly given
/// paths: there is no restriction, or the path is one of those given.
pub open spec fn selected(specified: Seq<Seq<char>>, canonical: Seq<char>) -> bool {
    specified.len() == 0 || specified.contains(canonical)
}

/// What the rules report for one file, in rule order: for each rule that
/// applies to the path and whose pattern matches the text, one violation.
pub open spec fn findings(
    rules: Seq<RuleView>,
    path: Seq<char>,
    file: Seq<char>,
    text: Seq<char>,
) -> Seq<ViolationView>
    decreases rules.len(),
{
    if rules.len() == 0 {
        Seq::empty()
    } else {
        let earlier = findings(rules.drop_last(), path, file, text);
        let rule = rules.last();
        if rule.in_scope(path) {
            match finding(rule, file, text) {
                Some(v) => earlier.push(v),
                None => earlier,
            }
        } else {
            earlier
        }
    }
}

/// What is to be done with an entry that the directory walk has reached.
#[derive(Clone, Copy, Debug, PartialEq, Eq, Structural)]
pub enum Visit {
    /// Pass over the entry.
    Skip,
    /// Resolve the entry's canonical path and ask `confirm_visit`.
    Resolve,
    /// Read the file and scan it.
    Read,
}

/// The first decision on an entry: directories are passed over, and so is a
/// file that no rule applies to; under a restriction to given paths the
/// canonical path is asked for; otherwise the file is read.
pub open spec fn first_visit(
    rules: Seq<RuleView>,
    restricted: bool,
    path: Seq<char>,
    is_dir: bool,
) -> Visit {
    if is_dir || !some_rule_in_scope(rules, path) {
        Visit::Skip
    } else if restricted {
        Visit::Resolve
    } else {
        Visit::Read
    }
}

/// Whether some rule applies to the path.
pub fn any_rule_applies(rules: &Vec<Rule>, path: &str) -> (applies: bool)
    ensures
        applies == some_rule_in_scope(rule_views(rules@), path@),
{
    let mut i: usize = 0;
    while i < rules.len()
        invariant
            0 <= i <= rules@.len(),
            forall|j: int| 0 <= j < i ==> !(#[trigger] rule_views(rules@)[j]).in_scope(path@),
        decreases rules@.len() - i,
    {
        if rules[i].applies_to(path) {
            assert(rule_views(rules@)[i as int].in_scope(path@));
            return true;
        }
        i += 1;
    }
    false
}

/// Decides what to do with an entry of the walk, given the paths that the
/// scan is restricted to (none: no restriction).
pub fn plan_visit(rules: &Vec<Rule>, specified: &Vec<String>, path: &str, is_dir: bool) -> (visit:
    Visit)
    ensures
        visit == first_visit(rule_views(rules@), specified@.len() > 0, path@, is_dir),
{
    if is_dir || !any_rule_applies(rules, path) {
        Visit::Skip
    } else if specified.len() > 0 {
        Visit::Resolve
    } else {
        Visit::Read
    }
}

/// Whether a canonical path is among the paths that the scan is restricted
/// to, or there is no restriction.
pub fn is_selected(specified: &Vec<String>, canonical: &str) -> (chosen: bool)
    ensures
        chosen == selected(sources(specified@), canonical@),
{
    if specified.len() == 0 {
        return true;
    }
    let wanted = canonical.to_owned();
    let mut i: usize = 0;
    while i < specified.len()
        invariant
            0 <= i <= specified@.len(),
            wanted@ == canonical@,
            forall|j: int| 0 <= j < i ==> #[trigger] sources(specified@)[j] != canonical@,
        decreases specified@.len() - i,
    {
        if specified[i] == wanted {
            assert(sources(specified@)[i as int] == canonical@);
            return true;
        }
        i += 1;
    }
    false
}

/// The decision on an entry whose canonical path is known: it is read if it
/// passes the restriction, and passed over if not.
pub fn confirm_visit(specified: &Vec<String>, canonical: &str) -> (visit: Visit)
    ensures
        visit == if selected(sources(specified@), canonical@) {
            Visit::Read
        } else {
            Visit::Skip
        },
{
    if is_selected(specified, canonical) {
        Visit::Read
    } else {
        Visit::Skip
    }
}

/// Runs every rule over one file: each rule that applies to the path is
/// searched for in the text, and each that matches adds one violation, in
/// rule order.
pub fn scan_file(rules: &Vec<Rule>, path: &str, file: &str, content: &str) -> (found: Vec<
    Violation,
>)
    requires
        content.spec_bytes().len() < usize::MAX,
    ensures
        violation_views(found@) == findings(rule_views(rules@), path@, file@, content@),
        forall|i: int| 0 <= i < found@.len() ==> (#[trigger] found@[i]).well_formed(),
{
    let mut found: Vec<Violation> = Vec::new();
    let mut i: usize = 0;
    while i < rules.len()
        invariant
            0 <= i <= rules@.len(),
            content.spec_bytes().len() < usize::MAX,
            violation_views(found@) == findings(
                rule_views(rules@).take(i as int),
                path@,
                file@,
                content@,
            ),
            forall|j: int| 0 <= j < found@.len() ==> (#[trigger] found@[j]).well_formed(),
        decreases rules@.len() - i,
    {
        assert(rule_views(rules@).take(i + 1).drop_last() =~= rule_views(rules@).take(i as int));
        if rules[i].applies_to(path) {
            match rules[i].check(file, content) {
                Some(v) => found.push(v),
                None => {},
            }
        }
        i += 1;
    }
    assert(rule_views(rules@).take(i as int) =~= rule_views(rules@));
    found
}

/// How the directory walk treats entries that are usually left out.
#[derive(Clone, Copy, Debug, PartialEq, Eq, Structural)]
pub struct WalkSettings {
    /// Entries named in version-control ignore files are left out.
    pub respect_vcs_ignore: bool,
    /// Entries named in plain ignore files are left out.
    pub respect_ignore_files: bool,
    /// Hidden entries are left out.
    pub skip_hidden: bool,
}

/// The settings of the walk for the two switches of the command line: one
/// lets ignored entries in, the other lets hidden entries in, and neither
/// touches what the other governs.
pub fn walk_settings(include_ignored: bool, include_hidden: bool) -> (settings: WalkSettings)
    ensures
        settings == (WalkSettings {
            respect_vcs_ignore: !include_ignored,
            respect_ignore_files: !include_ignored,
            skip_hidden: !include_hidden,
        }),
{
    WalkSettings {
        respect_vcs_ignore: !include_ignored,
        respect_ignore_files: !include_ignored,
        skip_hidden: !include_hidden,
    }
}

/// With rules that have neither include nor exclude globs, every file that
/// the walk reaches is in scope of every rule, and is read unless the scan
/// is restricted to given paths.
pub proof fn lemma_unscoped_rules_reach_every_file(rules: Seq<RuleView>, path: Seq<char>)
    requires
        forall|i: int|
            0 <= i < rules.len() ==> (#[trigger] rules[i]).includes.len() == 0
                && rules[i].excludes.len() == 0,
    ensures
        forall|i: int| 0 <= i < rules.len() ==> (#[trigger] rules[i]).in_scope(path),
        rules.len() > 0 ==> first_visit(rules, false, path, false) == Visit::Read,
{
    if rules.len() > 0 {
        assert(rules[0].in_scope(path));
    }
}

/// A directory is never read, whatever the rules.
pub proof fn lemma_directories_are_skipped(rules: Seq<RuleView>, restricted: bool, path: Seq<char>)
    ensures
        first_visit(rules, restricted, path, true) == Visit::Skip,
{
}

} // verus!
