//! Compiling rule definitions into executable rules, and the per-rule scope
//! test on file paths.

use crate::config::{optional_sources, sources, Config, RuleConfig, RuleConfigView, Severity};
use crate::globs::{
    any_glob_matches, builder_add, builder_build, builder_globs, glob_accepts, glob_error_text,
    glob_set_accepts, glob_set_globs, new_builder, parse_glob, set_is_empty, set_is_match,
};
use crate::pattern::{build_regex, regex_accepts, regex_error_text, regex_source};
use vstd::prelude::*;

verus! {

/// The part of a rule definition that could not be compiled.
#[derive(Clone, Copy, Debug, PartialEq, Eq, Structural)]
pub enum Fault {
    /// The include glob at this position does not parse.
    IncludeGlob(usize),
    /// The exclude glob at this position does not parse.
    ExcludeGlob(usize),
    /// The regular expression does not compile.
    Pattern,
    /// The include globs parse, but no matcher can be built from them.
    IncludeSet,
    /// The exclude globs parse, but no matcher can be built from them.
    ExcludeSet,
}

/// Why a configuration could not be compiled: the first rule that failed, the
/// part of it at fault, the offending text where there is a single one, and
/// the compiler's explanation.
#[derive(Clone, Debug)]
pub struct RuleError {
    pub rule: usize,
    pub fault: Fault,
    pub text: String,
    pub reason: String,
}

/// A compiled rule: the definition's identifier and severity, its compiled
/// pattern, and its two compiled scope filters.
pub struct Rule {
    pub id: String,
    pub regex: regex::Regex,
    pub severity: Severity,
    pub includes: globset::GlobSet,
    pub excludes: globset::GlobSet,
}

/// The mathematical content of a compiled rule.
pub struct RuleView {
    pub id: Seq<char>,
    pub pattern: Seq<char>,
    pub severity: Severity,
    pub includes: Seq<Seq<char>>,
    pub excludes: Seq<Seq<char>>,
}

impl RuleView {
    /// The scope test: the path passes the include filter, if there is one,
    /// and is not caught by the exclude filter.
    pub open spec fn in_scope(self, path: Seq<char>) -> bool {
        &&& (self.includes.len() == 0 || any_glob_matches(self.includes, path))
        &&& (self.excludes.len() == 0 || !any_glob_matches(self.excludes, path))
    }

    /// What compiling a definition yields.
    pub open spec fn compiled_from(self, def: RuleConfigView) -> bool {
        &&& self.id == def.id
        &&& self.pattern == def.regex
        &&& self.severity == def.severity
        &&& self.includes == def.includes
        &&& self.excludes == def.excludes
    }
}

impl View for Rule {
    type V = RuleView;

    open spec fn view(&self) -> RuleView {
        RuleView {
            id: self.id@,
            pattern: regex_source(self.regex),
            severity: self.severity,
            includes: glob_set_globs(self.includes),
            excludes: glob_set_globs(self.excludes),
        }
    }
}

/// The views of a list of compiled rules.
pub open spec fn rule_views(rules: Seq<Rule>) -> Seq<RuleView> {
    Seq::new(rules.len(), |i: int| rules[i]@)
}

/// The position of the first glob at or after `from` that does not parse.
pub open spec fn first_rejected_from(patterns: Seq<Seq<char>>, from: int) -> Option<int>
    decreases patterns.len() - from,
{
    if from < 0 || from >= patterns.len() {
        None
    } else if !glob_accepts(patterns[from]) {
        Some(from)
    } else {
        first_rejected_from(patterns, from + 1)
    }
}

/// The position of the first glob that does not parse.
pub open spec fn first_rejected(patterns: Seq<Seq<char>>) -> Option<int> {
    first_rejected_from(patterns, 0)
}

/// What is wrong with a definition, if anything. Globs are parsed first,
/// includes before excludes; then the pattern is compiled; then the two
/// matchers are built.
pub open spec fn rule_fault(def: RuleConfigView) -> Option<Fault> {
    if let Some(i) = first_rejected(def.includes) {
        Some(Fault::IncludeGlob(i as usize))
    } else if let Some(i) = first_rejected(def.excludes) {
        Some(Fault::ExcludeGlob(i as usize))
    } else if !regex_accepts(def.regex) {
        Some(Fault::Pattern)
    } else if !glob_set_accepts(def.includes) {
        Some(Fault::IncludeSet)
    } else if !glob_set_accepts(def.excludes) {
        Some(Fault::ExcludeSet)
    } else {
        None
    }
}

/// The text that a fault points at: the glob or the pattern that was
/// rejected, and nothing for a matcher that could not be built.
pub open spec fn fault_text(def: RuleConfigView, fault: Fault) -> Seq<char> {
    match fault {
        Fault::IncludeGlob(i) => if i < def.includes.len() {
            def.includes[i as int]
        } else {
            Seq::empty()
        },
        Fault::ExcludeGlob(i) => if i < def.excludes.len() {
            def.excludes[i as int]
        } else {
            Seq::empty()
        },
        Fault::Pattern => def.regex,
        Fault::IncludeSet => Seq::empty(),
        Fault::ExcludeSet => Seq::empty(),
    }
}

/// A glob that was rejected while a builder was being filled.
pub struct RejectedGlob {
    pub index: usize,
    pub text: String,
    pub reason: String,
}

/// Parses each pattern in turn and adds it to a fresh builder, stopping at
/// the first that does not parse.
pub fn collect_globs(patterns: &Vec<String>) -> (r: Result<globset::GlobSetBuilder, RejectedGlob>)
    ensures
        match r {
            Ok(builder) => {
                &&& first_rejected(sources(patterns@)) is None
                &&& builder_globs(builder) == sources(patterns@)
            },
            Err(e) => {
                &&& first_rejected(sources(patterns@)) == Some(e.index as int)
                &&& e.index < patterns@.len()
                &&& e.text@ == patterns@[e.index as int]@
            },
        },
{
    let mut builder = new_builder();
    let mut i: usize = 0;
    while i < patterns.len()
        invariant
            0 <= i <= patterns@.len(),
            first_rejected(sources(patterns@)) == first_rejected_from(sources(patterns@), i as int),
            builder_globs(builder) == sources(patterns@).take(i as int),
        decreases patterns@.len() - i,
    {
        match parse_glob(patterns[i].as_str()) {
            Ok(glob) => {
                builder_add(&mut builder, glob);
            },
            Err(e) => {
                return Err(
                    RejectedGlob {
                        index: i,
                        text: patterns[i].clone(),
                        reason: glob_error_text(&e),
                    },
                );
            },
        }
        i += 1;
    }
    Ok(builder)
}

/// As `collect_globs`, with an absent list taken as an empty one.
pub fn collect_optional_globs(list: &Option<Vec<String>>) -> (r: Result<
    globset::GlobSetBuilder,
    RejectedGlob,
>)
    ensures
        match r {
            Ok(builder) => {
                &&& first_rejected(optional_sources(*list)) is None
                &&& builder_globs(builder) == optional_sources(*list)
            },
            Err(e) => {
                &&& first_rejected(optional_sources(*list)) == Some(e.index as int)
                &&& e.index < optional_sources(*list).len()
                &&& e.text@ == optional_sources(*list)[e.index as int]
            },
        },
{
    match list {
        Some(patterns) => collect_globs(patterns),
        None => Ok(new_builder()),
    }
}

/// Compiles one definition, which stands at position `index` of its
/// configuration.
///
/// Succeeds exactly when nothing is wrong with the definition; otherwise the
/// error names the first part at fault.
pub fn compile_rule(index: usize, def: &RuleConfig) -> (r: Result<Rule, RuleError>)
    ensures
        match r {
            Ok(rule) => rule_fault(def@) is None && rule@.compiled_from(def@),
            Err(e) => {
                &&& e.rule == index
                &&& rule_fault(def@) == Some(e.fault)
                &&& e.text@ == fault_text(def@, e.fault)
            },
        },
{
    let include_globs = match collect_optional_globs(&def.includes) {
        Ok(builder) => builder,
        Err(e) => {
            return Err(
                RuleError {
                    rule: index,
                    fault: Fault::IncludeGlob(e.index),
                    text: e.text,
                    reason: e.reason,
                },
            );
        },
    };
    let exclude_globs = match collect_optional_globs(&def.excludes) {
        Ok(builder) => builder,
        Err(e) => {
            return Err(
                RuleError {
                    rule: index,
                    fault: Fault::ExcludeGlob(e.index),
                    text: e.text,
                    reason: e.reason,
                },
            );
        },
    };
    let regex = match build_regex(def.regex.as_str()) {
        Ok(regex) => regex,
        Err(e) => {
            return Err(
                RuleError {
                    rule: index,
                    fault: Fault::Pattern,
                    text: def.regex.clone(),
                    reason: regex_error_text(&e),
                },
            );
        },
    };
    let includes = match builder_build(&include_globs) {
        Ok(set) => set,
        Err(e) => {
            return Err(
                RuleError {
                    rule: index,
                    fault: Fault::IncludeSet,
                    text: String::new(),
                    reason: glob_error_text(&e),
                },
            );
        },
    };
    let excludes = match builder_build(&exclude_globs) {
        Ok(set) => set,
        Err(e) => {
            return Err(
                RuleError {
                    rule: index,
                    fault: Fault::ExcludeSet,
                    text: String::new(),
                    reason: glob_error_text(&e),
                },
            );
        },
    };
    Ok(Rule { id: def.id.clone(), regex, severity: def.severity, includes, excludes })
}

/// Compiles every definition of a configuration, in order, or fails as a
/// whole at the first definition that does not compile.
///
/// On success there is exactly one rule per definition, at the same
/// position. On failure the error names the first faulty definition and the
/// first part of it at fault.
pub fn generate_rules_from_config(config: &Config) -> (r: Result<Vec<Rule>, RuleError>)
    ensures
        match r {
            Ok(rules) => {
                &&& rules@.len() == config@.len()
                &&& forall|i: int|
                    0 <= i < config@.len() ==> rule_fault(#[trigger] config@[i]) is None
                &&& forall|i: int|
                    0 <= i < rules@.len() ==> (#[trigger] rules@[i])@.compiled_from(config@[i])
            },
            Err(e) => {
                &&& e.rule < config@.len()
                &&& forall|j: int| 0 <= j < e.rule ==> rule_fault(#[trigger] config@[j]) is None
                &&& rule_fault(config@[e.rule as int]) == Some(e.fault)
                &&& e.text@ == fault_text(config@[e.rule as int], e.fault)
            },
        },
{
    let mut rules: Vec<Rule> = Vec::new();
    let mut i: usize = 0;
    while i < config.rules.len()
        invariant
            0 <= i <= config.rules@.len(),
            config@.len() == config.rules@.len(),
            rules@.len() == i,
            forall|j: int| 0 <= j < i ==> rule_fault(#[trigger] config@[j]) is None,
            forall|j: int| 0 <= j < i ==> (#[trigger] rules@[j])@.compiled_from(config@[j]),
        decreases config.rules@.len() - i,
    {
        match compile_rule(i, &config.rules[i]) {
            Ok(rule) => {
                rules.push(rule);
            },
            Err(e) => {
                return Err(e);
            },
        }
        i += 1;
    }
    Ok(rules)
}

impl Rule {
    /// The scope test for one file path.
    pub fn applies_to(&self, path: &str) -> (applies: bool)
        ensures
            applies == self@.in_scope(path@),
    {
        if !set_is_empty(&self.includes) && !set_is_match(&self.includes, path) {
            false
        } else {
            !set_is_match(&self.excludes, path)
        }
    }
}

/// A rule without scope filters applies to every path.
pub proof fn lemma_unscoped_rule_applies(rule: RuleView, path: Seq<char>)
    requires
        rule.includes.len() == 0,
        rule.excludes.len() == 0,
    ensures
        rule.in_scope(path),
{
}

/// Every rule compiled from a definition whose include and exclude lists are
/// absent or empty applies to every path.
pub proof fn lemma_unscoped_definition_applies(rule: RuleView, def: RuleConfigView, path: Seq<char>)
    requires
        rule.compiled_from(def),
        def.includes.len() == 0,
        def.excludes.len() == 0,
    ensures
        rule.in_scope(path),
{
}

/// Exclusion takes precedence: a path that some exclude glob of a rule
/// matches is out of scope, whether or not an include glob matches it too.
pub proof fn lemma_exclude_wins(rule: RuleView, path: Seq<char>)
    requires
        any_glob_matches(rule.excludes, path),
    ensures
        !rule.in_scope(path),
{
}

/// The first rejected glob is the least position whose pattern does not
/// parse, and there is none exactly when every pattern parses.
pub proof fn lemma_first_rejected(patterns: Seq<Seq<char>>, from: int)
    requires
        0 <= from <= patterns.len(),
    ensures
        match first_rejected_from(patterns, from) {
            Some(i) => {
                &&& from <= i < patterns.len()
                &&& !glob_accepts(patterns[i])
                &&& forall|j: int| from <= j < i ==> glob_accepts(#[trigger] patterns[j])
            },
            None => forall|j: int|
                from <= j < patterns.len() ==> glob_accepts(#[trigger] patterns[j]),
        },
    decreases patterns.len() - from,
{
    if from < patterns.len() && glob_accepts(patterns[from]) {
        lemma_first_rejected(patterns, from + 1);
    }
}

/// A definition compiles exactly when each of its globs parses, its pattern
/// compiles, and a matcher can be built from each of its two lists of globs.
pub proof fn lemma_rule_compiles(def: RuleConfigView)
    ensures
        rule_fault(def) is None <==> {
            &&& forall|j: int|
                0 <= j < def.includes.len() ==> glob_accepts(#[trigger] def.includes[j])
            &&& forall|j: int|
                0 <= j < def.excludes.len() ==> glob_accepts(#[trigger] def.excludes[j])
            &&& regex_accepts(def.regex)
            &&& glob_set_accepts(def.includes)
            &&& glob_set_accepts(def.excludes)
        },
{
    lemma_first_rejected(def.includes, 0);
    lemma_first_rejected(def.excludes, 0);
}

} // verus!
