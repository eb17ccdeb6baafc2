use linty::config::{Config, RuleConfig, Severity};
use linty::rules::{generate_rules_from_config, Fault};

fn rule(id: &str, regex: &str, severity: Severity) -> RuleConfig {
    RuleConfig {
        id: id.to_string(),
        message: format!("message of {}", id),
        regex: regex.to_string(),
        severity,
        includes: None,
        excludes: None,
    }
}

fn globs(list: &[&str]) -> Option<Vec<String>> {
    Some(list.iter().map(|g| g.to_string()).collect())
}

#[test]
fn compiles_one_rule_per_definition_in_order() {
    let config = Config {
        rules: vec![
            rule("first", "TODO", Severity::Warning),
            rule("second", "FIXME", Severity::Error),
        ],
    };
    let rules = generate_rules_from_config(&config).unwrap();
    assert_eq!(rules.len(), 2);
    assert_eq!(rules[0].id, "first");
    assert_eq!(rules[0].regex.as_str(), "TODO");
    assert_eq!(rules[0].severity, Severity::Warning);
    assert!(rules[0].includes.is_empty());
    assert!(rules[0].excludes.is_empty());
    assert_eq!(rules[1].id, "second");
    assert_eq!(rules[1].regex.as_str(), "FIXME");
    assert_eq!(rules[1].severity, Severity::Error);
}

#[test]
fn empty_configuration_compiles_to_no_rules() {
    let rules = generate_rules_from_config(&Config { rules: vec![] }).unwrap();
    assert!(rules.is_empty());
}

#[test]
fn invalid_pattern_fails_the_whole_configuration() {
    let config = Config {
        rules: vec![rule("good", "a+", Severity::Warning), rule("bad", "(", Severity::Error)],
    };
    let error = generate_rules_from_config(&config).err().unwrap();
    assert_eq!(error.rule, 1);
    assert_eq!(error.fault, Fault::Pattern);
    assert_eq!(error.text, "(");
    assert!(!error.reason.is_empty());
}

#[test]
fn invalid_include_glob_is_reported_with_its_position() {
    let mut bad = rule("bad", "x", Severity::Warning);
    bad.includes = globs(&["*.rs", "[a"]);
    let error = generate_rules_from_config(&Config { rules: vec![bad] }).err().unwrap();
    assert_eq!(error.rule, 0);
    assert_eq!(error.fault, Fault::IncludeGlob(1));
    assert_eq!(error.text, "[a");
}

#[test]
fn invalid_exclude_glob_is_reported_with_its_position() {
    let mut bad = rule("bad", "x", Severity::Warning);
    bad.excludes = globs(&["{a,b"]);
    let error = generate_rules_from_config(&Config { rules: vec![bad] }).err().unwrap();
    assert_eq!(error.rule, 0);
    assert_eq!(error.fault, Fault::ExcludeGlob(0));
    assert_eq!(error.text, "{a,b");
}

#[test]
fn globs_are_parsed_before_the_pattern_is_compiled() {
    let mut bad = rule("bad", "(", Severity::Warning);
    bad.excludes = globs(&["[z"]);
    let error = generate_rules_from_config(&Config { rules: vec![bad] }).err().unwrap();
    assert_eq!(error.fault, Fault::ExcludeGlob(0));
}

#[test]
fn rule_without_filters_applies_to_every_path() {
    let config = Config { rules: vec![rule("any", "x", Severity::Warning)] };
    let rules = generate_rules_from_config(&config).unwrap();
    assert!(rules[0].applies_to("./src/main.rs"));
    assert!(rules[0].applies_to("notes.txt"));
    assert!(rules[0].applies_to(""));
}

#[test]
fn empty_filter_lists_behave_as_absent_ones() {
    let mut open = rule("open", "x", Severity::Warning);
    open.includes = globs(&[]);
    open.excludes = globs(&[]);
    let rules = generate_rules_from_config(&Config { rules: vec![open] }).unwrap();
    assert!(rules[0].applies_to("a/b/c.md"));
}

#[test]
fn include_filter_restricts_the_rule() {
    let mut only_md = rule("md", "x", Severity::Warning);
    only_md.includes = globs(&["*.md"]);
    let rules = generate_rules_from_config(&Config { rules: vec![only_md] }).unwrap();
    assert!(rules[0].applies_to("README.md"));
    assert!(!rules[0].applies_to("notes.txt"));
}

#[test]
fn exclude_wins_over_include() {
    let mut both = rule("both", "x", Severity::Warning);
    both.includes = globs(&["*.md"]);
    both.excludes = globs(&["README.*"]);
    let rules = generate_rules_from_config(&Config { rules: vec![both] }).unwrap();
    assert!(!rules[0].applies_to("README.md"));
    assert!(rules[0].applies_to("CHANGES.md"));
    assert!(!rules[0].applies_to("README.txt"));
}

#[test]
fn exclude_filter_alone_lets_the_rest_through() {
    let mut no_lock = rule("lock", "x", Severity::Warning);
    no_lock.excludes = globs(&["*.lock"]);
    let rules = generate_rules_from_config(&Config { rules: vec![no_lock] }).unwrap();
    assert!(!rules[0].applies_to("Cargo.lock"));
    assert!(rules[0].applies_to("Cargo.toml"));
}

fn oversized_globs() -> Option<Vec<String>> {
    let wildcards = "?".repeat(400);
    Some((0..2000).map(|i| format!("*{}{}*", wildcards, i)).collect())
}

#[test]
fn include_matcher_that_cannot_be_built_is_reported() {
    let mut huge = rule("huge", "x", Severity::Warning);
    huge.includes = oversized_globs();
    let error = generate_rules_from_config(&Config { rules: vec![huge] }).err().unwrap();
    assert_eq!(error.rule, 0);
    assert_eq!(error.fault, Fault::IncludeSet);
    assert_eq!(error.text, "");
    assert!(!error.reason.is_empty());
}

#[test]
fn exclude_matcher_that_cannot_be_built_is_reported() {
    let mut huge = rule("huge", "x", Severity::Warning);
    huge.excludes = oversized_globs();
    let config = Config { rules: vec![rule("fine", "y", Severity::Error), huge] };
    let error = generate_rules_from_config(&config).err().unwrap();
    assert_eq!(error.rule, 1);
    assert_eq!(error.fault, Fault::ExcludeSet);
    assert_eq!(error.text, "");
}

#[test]
fn pattern_is_compiled_before_the_matchers_are_built() {
    let mut bad = rule("bad", "[", Severity::Warning);
    bad.includes = oversized_globs();
    let error = generate_rules_from_config(&Config { rules: vec![bad] }).err().unwrap();
    assert_eq!(error.fault, Fault::Pattern);
    assert_eq!(error.text, "[");
}
