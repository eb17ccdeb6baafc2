use linty::config::Severity;
use linty::matcher::Violation;
use linty::report::{
    build_report, distinct_rule_ids, group_by_rule, holds_id, partition_by_severity,
    violations_of_rule,
};

fn violation(rule_id: &str, severity: Severity, file: &str, lines: &[usize]) -> Violation {
    Violation {
        rule_id: rule_id.to_string(),
        severity,
        file: file.to_string(),
        lines: lines.to_vec(),
    }
}

fn sample() -> Vec<Violation> {
    vec![
        violation("todo", Severity::Warning, "a.txt", &[1]),
        violation("secret", Severity::Error, "a.txt", &[2, 2]),
        violation("todo", Severity::Warning, "b.txt", &[7]),
        violation("tabs", Severity::Warning, "b.txt", &[3]),
        violation("secret", Severity::Error, "c.txt", &[9]),
        violation("todo", Severity::Warning, "c.txt", &[4, 5]),
    ]
}

fn files(list: &[&Violation]) -> Vec<String> {
    list.iter().map(|v| v.file.clone()).collect()
}

#[test]
fn partition_keeps_discovery_order_in_each_part() {
    let all = sample();
    let (warnings, errors) = partition_by_severity(&all);
    assert_eq!(files(&warnings), vec!["a.txt", "b.txt", "b.txt", "c.txt"]);
    assert_eq!(files(&errors), vec!["a.txt", "c.txt"]);
    assert!(warnings.iter().all(|v| v.severity == Severity::Warning));
    assert!(errors.iter().all(|v| v.severity == Severity::Error));
}

#[test]
fn partition_is_lossless_and_disjoint() {
    let all = sample();
    let (warnings, errors) = partition_by_severity(&all);
    assert_eq!(warnings.len() + errors.len(), all.len());
    for v in &all {
        let in_warnings = warnings.iter().filter(|w| std::ptr::eq(**w, v)).count();
        let in_errors = errors.iter().filter(|e| std::ptr::eq(**e, v)).count();
        assert_eq!(in_warnings + in_errors, 1);
    }
}

#[test]
fn partition_of_nothing_is_two_empty_parts() {
    let all: Vec<Violation> = Vec::new();
    let (warnings, errors) = partition_by_severity(&all);
    assert!(warnings.is_empty());
    assert!(errors.is_empty());
}

#[test]
fn partition_of_one_severity_leaves_the_other_part_empty() {
    let all = vec![
        violation("a", Severity::Error, "x", &[1]),
        violation("b", Severity::Error, "y", &[2]),
    ];
    let (warnings, errors) = partition_by_severity(&all);
    assert!(warnings.is_empty());
    assert_eq!(files(&errors), vec!["x", "y"]);
}

#[test]
fn rule_ids_come_once_in_order_of_first_occurrence() {
    let all = sample();
    let borrowed: Vec<&Violation> = all.iter().collect();
    assert_eq!(distinct_rule_ids(&borrowed), vec!["todo", "secret", "tabs"]);
    assert!(distinct_rule_ids(&Vec::new()).is_empty());
}

#[test]
fn holds_id_compares_whole_identifiers() {
    let ids = vec![String::from("todo"), String::from("tabs")];
    assert!(holds_id(&ids, &String::from("tabs")));
    assert!(!holds_id(&ids, &String::from("tab")));
    assert!(!holds_id(&Vec::new(), &String::from("todo")));
}

#[test]
fn violations_of_rule_keeps_order() {
    let all = sample();
    let borrowed: Vec<&Violation> = all.iter().collect();
    let todo = violations_of_rule(&borrowed, &String::from("todo"));
    assert_eq!(files(&todo), vec!["a.txt", "b.txt", "c.txt"]);
    assert!(violations_of_rule(&borrowed, &String::from("none")).is_empty());
}

#[test]
fn groups_hold_each_rule_once_with_its_violations() {
    let all = sample();
    let borrowed: Vec<&Violation> = all.iter().collect();
    let groups = group_by_rule(&borrowed);
    assert_eq!(groups.len(), 3);
    assert_eq!(groups[0].rule_id, "todo");
    assert_eq!(files(&groups[0].violations), vec!["a.txt", "b.txt", "c.txt"]);
    assert_eq!(groups[1].rule_id, "secret");
    assert_eq!(files(&groups[1].violations), vec!["a.txt", "c.txt"]);
    assert_eq!(groups[2].rule_id, "tabs");
    assert_eq!(files(&groups[2].violations), vec!["b.txt"]);
}

#[test]
fn report_partitions_then_groups() {
    let all = sample();
    let report = build_report(&all);
    assert_eq!(report.warnings.len(), 2);
    assert_eq!(report.warnings[0].rule_id, "todo");
    assert_eq!(report.warnings[0].violations.len(), 3);
    assert_eq!(report.warnings[0].violations[2].lines, vec![4, 5]);
    assert_eq!(report.warnings[1].rule_id, "tabs");
    assert_eq!(report.errors.len(), 1);
    assert_eq!(report.errors[0].rule_id, "secret");
    assert_eq!(files(&report.errors[0].violations), vec!["a.txt", "c.txt"]);
}

#[test]
fn one_identifier_under_both_severities_is_grouped_in_each_part() {
    let all = vec![
        violation("mixed", Severity::Warning, "w", &[1]),
        violation("mixed", Severity::Error, "e", &[1]),
    ];
    let report = build_report(&all);
    assert_eq!(report.warnings.len(), 1);
    assert_eq!(report.errors.len(), 1);
    assert_eq!(files(&report.warnings[0].violations), vec!["w"]);
    assert_eq!(files(&report.errors[0].violations), vec!["e"]);
}

#[test]
fn report_of_nothing_is_empty() {
    let all: Vec<Violation> = Vec::new();
    let report = build_report(&all);
    assert!(report.warnings.is_empty());
    assert!(report.errors.is_empty());
}
