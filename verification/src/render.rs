//! The text of a report: a heading per rule and a line per violation.

use crate::config::{Config, RuleConfigView, Severity};
use crate::matcher::{Violation, ViolationView};
use crate::report::{Group, GroupView};
use crate::text::{comma_separated, join_numbers};
use vstd::prelude::*;
use vstd::string::StringExecFns;

verus! {

/// The position of the first definition at or after `from` that has the
/// given identifier.
pub open spec fn first_with_id(defs: Seq<RuleConfigView>, id: Seq<char>, from: int) -> Option<int>
    decreases defs.len() - from,
{
    if from < 0 || from >= defs.len() {
        None
    } else if defs[from].id == id {
        Some(from)
    } else {
        first_with_id(defs, id, from + 1)
    }
}

/// The message of the first definition that has the given identifier.
pub open spec fn message_of(defs: Seq<RuleConfigView>, id: Seq<char>) -> Option<Seq<char>> {
    match first_with_id(defs, id, 0) {
        Some(i) => Some(defs[i].message),
        None => None,
    }
}

/// The heading printed once for a rule that has violations.
pub open spec fn heading(severity: Severity, id: Seq<char>, message: Seq<char>) -> Seq<char> {
    match severity {
        Severity::Warning => "Found warning "@ + id + ": "@ + message,
        Severity::Error => "Found error "@ + id + ": "@ + message,
    }
}

/// The line printed for one violation: the file's name and the matched
/// lines, separated by commas.
pub open spec fn violation_line(severity: Severity, violation: ViolationView) -> Seq<char> {
    match severity {
        Severity::Warning => "Warning present in file: "@ + violation.file + ", lines: "@
            + comma_separated(violation.lines),
        Severity::Error => "Error present in file: "@ + violation.file + ", lines: "@
            + comma_separated(violation.lines),
    }
}

/// What is printed for one group: the heading, then a line per violation in
/// the group's order.
pub open spec fn group_text(severity: Severity, group: GroupView, message: Seq<char>) -> Seq<
    Seq<char>,
> {
    Seq::new(
        group.violations.len() + 1,
        |i: int|
            if i == 0 {
                heading(severity, group.rule_id, message)
            } else {
                violation_line(severity, group.violations[i - 1])
            },
    )
}

/// Looks up the message of a rule by its identifier. Where several
/// definitions share the identifier, the first one counts.
pub fn message_for(config: &Config, rule_id: &str) -> (message: Option<String>)
    ensures
        match message {
            Some(m) => message_of(config@, rule_id@) == Some(m@),
            None => message_of(config@, rule_id@) is None,
        },
{
    let wanted = rule_id.to_owned();
    let mut i: usize = 0;
    while i < config.rules.len()
        invariant
            0 <= i <= config.rules@.len(),
            config@.len() == config.rules@.len(),
            wanted@ == rule_id@,
            first_with_id(config@, rule_id@, 0) == first_with_id(config@, rule_id@, i as int),
        decreases config.rules@.len() - i,
    {
        if config.rules[i].id == wanted {
            return Some(config.rules[i].message.clone());
        }
        i += 1;
    }
    None
}

/// Renders the heading of a rule.
pub fn render_heading(severity: Severity, rule_id: &str, message: &str) -> (text: String)
    ensures
        text@ == heading(severity, rule_id@, message@),
{
    let mut text = match severity {
        Severity::Warning => String::from_str("Found warning "),
        Severity::Error => String::from_str("Found error "),
    };
    text.append(rule_id);
    text.append(": ");
    text.append(message);
    text
}

/// Renders the line of one violation.
pub fn render_violation(severity: Severity, violation: &Violation) -> (text: String)
    ensures
        text@ == violation_line(severity, violation@),
{
    let mut text = match severity {
        Severity::Warning => String::from_str("Warning present in file: "),
        Severity::Error => String::from_str("Error present in file: "),
    };
    text.append(violation.file.as_str());
    text.append(", lines: ");
    let lines = join_numbers(&violation.lines);
    text.append(lines.as_str());
    text
}

/// The view of a list of strings.
pub open spec fn texts(lines: Seq<String>) -> Seq<Seq<char>> {
    Seq::new(lines.len(), |i: int| lines[i]@)
}

/// Renders one group of a report.
pub fn render_group(severity: Severity, group: &Group<'_>, message: &str) -> (lines: Vec<String>)
    ensures
        texts(lines@) == group_text(severity, group@, message@),
{
    let mut lines: Vec<String> = Vec::new();
    lines.push(render_heading(severity, group.rule_id.as_str(), message));
    let mut i: usize = 0;
    while i < group.violations.len()
        invariant
            0 <= i <= group.violations@.len(),
            lines@.len() == i + 1,
            forall|j: int|
                0 <= j < lines@.len() ==> (#[trigger] lines@[j])@ == group_text(
                    severity,
                    group@,
                    message@,
                )[j],
        decreases group.violations@.len() - i,
    {
        lines.push(render_violation(severity, group.violations[i]));
        i += 1;
    }
    lines
}

/// The message that is looked up belongs to the first definition with the
/// identifier, and there is none exactly when no definition has it.
pub proof fn lemma_first_with_id(defs: Seq<RuleConfigView>, id: Seq<char>, from: int)
    requires
        0 <= from <= defs.len(),
    ensures
        match first_with_id(defs, id, from) {
            Some(i) => {
                &&& from <= i < defs.len()
                &&& defs[i].id == id
                &&& forall|j: int| from <= j < i ==> (#[trigger] defs[j]).id != id
            },
            None => forall|j: int| from <= j < defs.len() ==> (#[trigger] defs[j]).id != id,
        },
    decreases defs.len() - from,
{
    if from < defs.len() && defs[from].id != id {
        lemma_first_with_id(defs, id, from + 1);
    }
}

} // verus!
