//! Partitioning violations by severity and grouping them by rule.

use crate::config::{sources, Severity};
use crate::matcher::{Violation, ViolationView};
use crate::scan::violation_views;
use vstd::prelude::*;

verus! {

/// The views of a list of borrowed violations.
pub open spec fn borrowed_views(violations: Seq<&Violation>) -> Seq<ViolationView> {
    Seq::new(violations.len(), |i: int| violations[i]@)
}

/// The violations of one severity, in the order in which they were found.
pub open spec fn with_severity(violations: Seq<ViolationView>, severity: Severity) -> Seq<
    ViolationView,
>
    decreases violations.len(),
{
    if violations.len() == 0 {
        Seq::empty()
    } else {
        let earlier = with_severity(violations.drop_last(), severity);
        if violations.last().severity == severity {
            earlier.push(violations.last())
        } else {
            earlier
        }
    }
}

/// Splits violations into warnings and errors, each part in discovery order.
pub fn partition_by_severity<'a>(violations: &'a Vec<Violation>) -> (parts: (
    Vec<&'a Violation>,
    Vec<&'a Violation>,
))
    ensures
        borrowed_views(parts.0@) == with_severity(violation_views(violations@), Severity::Warning),
        borrowed_views(parts.1@) == with_severity(violation_views(violations@), Severity::Error),
{
    let mut warnings: Vec<&'a Violation> = Vec::new();
    let mut errors: Vec<&'a Violation> = Vec::new();
    let mut i: usize = 0;
    while i < violations.len()
        invariant
            0 <= i <= violations@.len(),
            borrowed_views(warnings@) == with_severity(
                violation_views(violations@).take(i as int),
                Severity::Warning,
            ),
            borrowed_views(errors@) == with_severity(
                violation_views(violations@).take(i as int),
                Severity::Error,
            ),
        decreases violations@.len() - i,
    {
        assert(violation_views(violations@).take(i + 1).drop_last() =~= violation_views(
            violations@,
        ).take(i as int));
        let violation = &violations[i];
        match violation.severity {
            Severity::Warning => {
                warnings.push(violation);
            },
            Severity::Error => {
                errors.push(violation);
            },
        }
        i += 1;
    }
    assert(violation_views(violations@).take(i as int) =~= violation_views(violations@));
    (warnings, errors)
}

/// The positions of the violations of one severity, in increasing order.
pub open spec fn positions_with(violations: Seq<ViolationView>, severity: Severity) -> Seq<int>
    decreases violations.len(),
{
    if violations.len() == 0 {
        Seq::empty()
    } else {
        let earlier = positions_with(violations.drop_last(), severity);
        if violations.last().severity == severity {
            earlier.push(violations.len() - 1)
        } else {
            earlier
        }
    }
}

/// A part of the partition keeps the order of discovery: it holds exactly
/// the violations of its severity, each taken from a position of the input,
/// and those positions increase.
pub proof fn lemma_partition_keeps_order(violations: Seq<ViolationView>, severity: Severity)
    ensures
        with_severity(violations, severity).len() == positions_with(violations, severity).len(),
        forall|k: int|
            0 <= k < positions_with(violations, severity).len() ==> {
                let at = #[trigger] positions_with(violations, severity)[k];
                &&& 0 <= at < violations.len()
                &&& violations[at].severity == severity
                &&& with_severity(violations, severity)[k] == violations[at]
            },
        forall|k: int, l: int|
            0 <= k < l < positions_with(violations, severity).len() ==> positions_with(
                violations,
                severity,
            )[k] < positions_with(violations, severity)[l],
        forall|i: int|
            0 <= i < violations.len() ==> (#[trigger] violations[i].severity == severity
                <==> positions_with(violations, severity).contains(i)),
    decreases violations.len(),
{
    if violations.len() > 0 {
        let shorter = violations.drop_last();
        let earlier = positions_with(shorter, severity);
        let now = positions_with(violations, severity);
        lemma_partition_keeps_order(shorter, severity);
        assert forall|i: int| 0 <= i < violations.len() implies (#[trigger] violations[i].severity
            == severity <==> now.contains(i)) by {
            if i < shorter.len() {
                assert(shorter[i] == violations[i]);
                if earlier.contains(i) {
                    let k = choose|k: int| 0 <= k < earlier.len() && earlier[k] == i;
                    assert(now[k] == i);
                }
                if now.contains(i) {
                    let k = choose|k: int| 0 <= k < now.len() && now[k] == i;
                    assert(earlier[k] == i);
                }
            } else {
                if violations.last().severity == severity {
                    assert(now[now.len() - 1] == i);
                } else {
                    if now.contains(i) {
                        let k = choose|k: int| 0 <= k < now.len() && now[k] == i;
                        assert(earlier[k] == i);
                    }
                }
            }
        }
    }
}

/// Partitioning by severity is lossless and disjoint: every position of the
/// input lies in exactly one part, the parts' sizes add up to the input's,
/// and together the parts hold what the input holds, each violation as
/// often as the input does.
pub proof fn lemma_partition_lossless(violations: Seq<ViolationView>)
    ensures
        with_severity(violations, Severity::Warning).len() + with_severity(
            violations,
            Severity::Error,
        ).len() == violations.len(),
        forall|i: int|
            0 <= i < violations.len() ==> (#[trigger] positions_with(
                violations,
                Severity::Warning,
            ).contains(i)) != positions_with(violations, Severity::Error).contains(i),
        violations.to_multiset() =~= with_severity(violations, Severity::Warning).to_multiset().add(
            with_severity(violations, Severity::Error).to_multiset(),
        ),
    decreases violations.len(),
{
    broadcast use vstd::seq_lib::group_to_multiset_ensures;

    lemma_partition_keeps_order(violations, Severity::Warning);
    lemma_partition_keeps_order(violations, Severity::Error);
    assert forall|i: int| 0 <= i < violations.len() implies (#[trigger] positions_with(
        violations,
        Severity::Warning,
    ).contains(i)) != positions_with(violations, Severity::Error).contains(i) by {
        assert(violations[i].severity == Severity::Warning || violations[i].severity
            == Severity::Error);
    }
    if violations.len() > 0 {
        let shorter = violations.drop_last();
        lemma_partition_lossless(shorter);
        assert(violations =~= shorter.push(violations.last()));
    } else {
        assert(violations.to_multiset().len() == 0);
    }
}

/// The rule identifiers that occur among the violations, each once, in the
/// order in which they first occur.
pub open spec fn rule_ids(violations: Seq<ViolationView>) -> Seq<Seq<char>>
    decreases violations.len(),
{
    if violations.len() == 0 {
        Seq::empty()
    } else {
        let earlier = rule_ids(violations.drop_last());
        if earlier.contains(violations.last().rule_id) {
            earlier
        } else {
            earlier.push(violations.last().rule_id)
        }
    }
}

/// The violations of one rule, in the order in which they were found.
pub open spec fn with_rule(violations: Seq<ViolationView>, rule_id: Seq<char>) -> Seq<
    ViolationView,
>
    decreases violations.len(),
{
    if violations.len() == 0 {
        Seq::empty()
    } else {
        let earlier = with_rule(violations.drop_last(), rule_id);
        if violations.last().rule_id == rule_id {
            earlier.push(violations.last())
        } else {
            earlier
        }
    }
}

/// The violations found under one rule.
pub struct Group<'a> {
    pub rule_id: String,
    pub violations: Vec<&'a Violation>,
}

/// The mathematical content of a group.
pub struct GroupView {
    pub rule_id: Seq<char>,
    pub violations: Seq<ViolationView>,
}

impl<'a> View for Group<'a> {
    type V = GroupView;

    open spec fn view(&self) -> GroupView {
        GroupView { rule_id: self.rule_id@, violations: borrowed_views(self.violations@) }
    }
}

/// The views of a list of groups.
pub open spec fn group_views(groups: Seq<Group<'_>>) -> Seq<GroupView> {
    Seq::new(groups.len(), |i: int| groups[i]@)
}

/// The violations grouped by rule: one group per identifier that occurs, in
/// order of first occurrence, each holding that rule's violations in the
/// order in which they were found.
pub open spec fn grouped(violations: Seq<ViolationView>) -> Seq<GroupView> {
    Seq::new(
        rule_ids(violations).len(),
        |k: int|
            GroupView {
                rule_id: rule_ids(violations)[k],
                violations: with_rule(violations, rule_ids(violations)[k]),
            },
    )
}

/// Whether a list of identifiers holds the given one.
pub fn holds_id(ids: &Vec<String>, id: &String) -> (held: bool)
    ensures
        held == sources(ids@).contains(id@),
{
    let mut i: usize = 0;
    while i < ids.len()
        invariant
            0 <= i <= ids@.len(),
            forall|j: int| 0 <= j < i ==> #[trigger] sources(ids@)[j] != id@,
        decreases ids@.len() - i,
    {
        if ids[i] == *id {
            assert(sources(ids@)[i as int] == id@);
            return true;
        }
        i += 1;
    }
    false
}

/// The rule identifiers that occur among the violations, each once, in order
/// of first occurrence.
pub fn distinct_rule_ids(violations: &Vec<&Violation>) -> (ids: Vec<String>)
    ensures
        sources(ids@) == rule_ids(borrowed_views(violations@)),
{
    let mut ids: Vec<String> = Vec::new();
    let mut i: usize = 0;
    while i < violations.len()
        invariant
            0 <= i <= violations@.len(),
            sources(ids@) == rule_ids(borrowed_views(violations@).take(i as int)),
        decreases violations@.len() - i,
    {
        assert(borrowed_views(violations@).take(i + 1).drop_last() =~= borrowed_views(
            violations@,
        ).take(i as int));
        if !holds_id(&ids, &violations[i].rule_id) {
            ids.push(violations[i].rule_id.clone());
        }
        i += 1;
    }
    assert(borrowed_views(violations@).take(i as int) =~= borrowed_views(violations@));
    ids
}

/// The violations of one rule, in the order in which they were found.
pub fn violations_of_rule<'a>(violations: &Vec<&'a Violation>, rule_id: &String) -> (chosen: Vec<
    &'a Violation,
>)
    ensures
        borrowed_views(chosen@) == with_rule(borrowed_views(violations@), rule_id@),
{
    let mut chosen: Vec<&'a Violation> = Vec::new();
    let mut i: usize = 0;
    while i < violations.len()
        invariant
            0 <= i <= violations@.len(),
            borrowed_views(chosen@) == with_rule(
                borrowed_views(violations@).take(i as int),
                rule_id@,
            ),
        decreases violations@.len() - i,
    {
        assert(borrowed_views(violations@).take(i + 1).drop_last() =~= borrowed_views(
            violations@,
        ).take(i as int));
        let violation = violations[i];
        if violation.rule_id == *rule_id {
            chosen.push(violation);
        }
        i += 1;
    }
    assert(borrowed_views(violations@).take(i as int) =~= borrowed_views(violations@));
    chosen
}

/// Groups violations by rule identifier.
pub fn group_by_rule<'a>(violations: &Vec<&'a Violation>) -> (groups: Vec<Group<'a>>)
    ensures
        group_views(groups@) == grouped(borrowed_views(violations@)),
{
    let ids = distinct_rule_ids(violations);
    let mut groups: Vec<Group<'a>> = Vec::new();
    let mut k: usize = 0;
    while k < ids.len()
        invariant
            0 <= k <= ids@.len(),
            sources(ids@) == rule_ids(borrowed_views(violations@)),
            groups@.len() == k,
            forall|j: int|
                0 <= j < k ==> (#[trigger] groups@[j])@ == grouped(borrowed_views(violations@))[j],
        decreases ids@.len() - k,
    {
        let members = violations_of_rule(violations, &ids[k]);
        groups.push(Group { rule_id: ids[k].clone(), violations: members });
        k += 1;
    }
    groups
}

/// The violations of a scan, arranged for reporting: warnings and errors
/// apart, each grouped by rule.
pub struct Report<'a> {
    pub warnings: Vec<Group<'a>>,
    pub errors: Vec<Group<'a>>,
}

/// The mathematical content of a report.
pub struct ReportView {
    pub warnings: Seq<GroupView>,
    pub errors: Seq<GroupView>,
}

impl<'a> View for Report<'a> {
    type V = ReportView;

    open spec fn view(&self) -> ReportView {
        ReportView { warnings: group_views(self.warnings@), errors: group_views(self.errors@) }
    }
}

/// The report of a list of violations: partitioned by severity, then each
/// part grouped by rule.
pub open spec fn report_of(violations: Seq<ViolationView>) -> ReportView {
    ReportView {
        warnings: grouped(with_severity(violations, Severity::Warning)),
        errors: grouped(with_severity(violations, Severity::Error)),
    }
}

/// Arranges the violations of a scan for reporting.
pub fn build_report<'a>(violations: &'a Vec<Violation>) -> (report: Report<'a>)
    ensures
        report@ == report_of(violation_views(violations@)),
{
    let (warnings, errors) = partition_by_severity(violations);
    Report { warnings: group_by_rule(&warnings), errors: group_by_rule(&errors) }
}

/// The identifiers of a grouping are exactly those that occur among the
/// violations, and none comes twice.
pub proof fn lemma_rule_ids_distinct(violations: Seq<ViolationView>)
    ensures
        rule_ids(violations).no_duplicates(),
        forall|id: Seq<char>| #[trigger]
            rule_ids(violations).contains(id) <==> exists|i: int|
                0 <= i < violations.len() && (#[trigger] violations[i]).rule_id == id,
    decreases violations.len(),
{
    if violations.len() > 0 {
        let shorter = violations.drop_last();
        let last = violations.last();
        let earlier = rule_ids(shorter);
        let now = rule_ids(violations);
        lemma_rule_ids_distinct(shorter);
        assert forall|id: Seq<char>| #[trigger]
            now.contains(id) <==> exists|i: int|
                0 <= i < violations.len() && (#[trigger] violations[i]).rule_id == id by {
            if now.contains(id) {
                let k = choose|k: int| 0 <= k < now.len() && now[k] == id;
                if k < earlier.len() {
                    assert(earlier[k] == id);
                    assert(earlier.contains(id));
                    let i = choose|i: int|
                        0 <= i < shorter.len() && (#[trigger] shorter[i]).rule_id == id;
                    assert(violations[i].rule_id == id);
                } else {
                    assert(violations[violations.len() - 1].rule_id == id);
                }
            }
            if exists|i: int|
                0 <= i < violations.len() && (#[trigger] violations[i]).rule_id == id {
                let i = choose|i: int|
                    0 <= i < violations.len() && (#[trigger] violations[i]).rule_id == id;
                if i < shorter.len() {
                    assert(shorter[i].rule_id == id);
                    assert(earlier.contains(id));
                    let k = choose|k: int| 0 <= k < earlier.len() && earlier[k] == id;
                    assert(now[k] == id);
                } else {
                    if earlier.contains(id) {
                        let k = choose|k: int| 0 <= k < earlier.len() && earlier[k] == id;
                        assert(now[k] == id);
                    } else {
                        assert(now[now.len() - 1] == id);
                    }
                }
            }
        }
    }
}

/// The violations of a rule are those that carry its identifier, and a rule
/// has some exactly when its identifier occurs.
pub proof fn lemma_with_rule(violations: Seq<ViolationView>, rule_id: Seq<char>)
    ensures
        forall|k: int|
            0 <= k < with_rule(violations, rule_id).len() ==> (#[trigger] with_rule(
                violations,
                rule_id,
            )[k]).rule_id == rule_id && violations.contains(with_rule(violations, rule_id)[k]),
        forall|i: int|
            0 <= i < violations.len() && (#[trigger] violations[i]).rule_id == rule_id
                ==> with_rule(violations, rule_id).contains(violations[i]),
        with_rule(violations, rule_id).len() <= violations.len(),
    decreases violations.len(),
{
    if violations.len() > 0 {
        let shorter = violations.drop_last();
        let earlier = with_rule(shorter, rule_id);
        let now = with_rule(violations, rule_id);
        lemma_with_rule(shorter, rule_id);
        assert forall|k: int| 0 <= k < now.len() implies (#[trigger] now[k]).rule_id == rule_id
            && violations.contains(now[k]) by {
            if k < earlier.len() {
                assert(now[k] == earlier[k]);
                let i = choose|i: int| 0 <= i < shorter.len() && shorter[i] == earlier[k];
                assert(violations[i] == now[k]);
            } else {
                assert(violations[violations.len() - 1] == now[k]);
            }
        }
        assert forall|i: int|
            0 <= i < violations.len() && (#[trigger] violations[i]).rule_id
                == rule_id implies now.contains(violations[i]) by {
            if i < shorter.len() {
                assert(shorter[i] == violations[i]);
                let k = choose|k: int| 0 <= k < earlier.len() && earlier[k] == shorter[i];
                assert(now[k] == violations[i]);
            } else {
                assert(now[now.len() - 1] == violations[i]);
            }
        }
    }
}

/// Grouping is sound and complete: no identifier heads two groups, no group
/// is empty, a group holds only violations of its own rule, and every
/// violation is found in the group of its rule.
pub proof fn lemma_groups_well_formed(violations: Seq<ViolationView>)
    ensures
        forall|k: int, l: int|
            0 <= k < l < grouped(violations).len() ==> (#[trigger] grouped(violations)[k]).rule_id
                != (#[trigger] grouped(violations)[l]).rule_id,
        forall|k: int|
            0 <= k < grouped(violations).len() ==> (#[trigger] grouped(
                violations,
            )[k]).violations.len() > 0,
        forall|k: int, j: int|
            0 <= k < grouped(violations).len() && 0 <= j < grouped(violations)[k].violations.len()
                ==> (#[trigger] grouped(violations)[k].violations[j]).rule_id == grouped(
                violations,
            )[k].rule_id,
        forall|i: int|
            0 <= i < violations.len() ==> exists|k: int|
                0 <= k < grouped(violations).len() && (#[trigger] grouped(violations)[k]).rule_id
                    == violations[i].rule_id && grouped(violations)[k].violations.contains(
                    #[trigger] violations[i],
                ),
{
    let ids = rule_ids(violations);
    let groups = grouped(violations);
    lemma_rule_ids_distinct(violations);
    assert forall|k: int| 0 <= k < groups.len() implies (#[trigger] groups[k]).violations.len()
        > 0 by {
        assert(ids.contains(ids[k]));
        let i = choose|i: int|
            0 <= i < violations.len() && (#[trigger] violations[i]).rule_id == ids[k];
        lemma_with_rule(violations, ids[k]);
        assert(with_rule(violations, ids[k]).contains(violations[i]));
    }
    assert forall|k: int, j: int|
        0 <= k < groups.len() && 0 <= j < groups[k].violations.len() implies (#[trigger] groups[k].violations[j]).rule_id
        == groups[k].rule_id by {
        lemma_with_rule(violations, ids[k]);
    }
    assert forall|i: int| 0 <= i < violations.len() implies exists|k: int|
        0 <= k < groups.len() && (#[trigger] groups[k]).rule_id == violations[i].rule_id
            && groups[k].violations.contains(#[trigger] violations[i]) by {
        let id = violations[i].rule_id;
        assert(ids.contains(id));
        let k = choose|k: int| 0 <= k < ids.len() && ids[k] == id;
        lemma_with_rule(violations, id);
        assert(groups[k].rule_id == id);
        assert(groups[k].violations.contains(violations[i]));
    }
}

} // verus!
