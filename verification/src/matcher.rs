//! From match offsets to line numbers, and from a rule's matches in one file
//! to a violation.

use crate::config::Severity;
use crate::pattern::{find_starts, regex_match_starts};
use crate::rules::{Rule, RuleView};
use vstd::prelude::*;
use vstd::string::StringSliceAdditionalSpecFns;
use vstd::utf8::encode_utf8;

verus! {

/// The byte that ends a line.
pub const NEWLINE: u8 = 10;

/// The number of newline bytes in a sequence of bytes.
pub open spec fn newlines_in(bytes: Seq<u8>) -> nat
    decreases bytes.len(),
{
    if bytes.len() == 0 {
        0
    } else {
        newlines_in(bytes.drop_last()) + if bytes.last() == NEWLINE {
            1nat
        } else {
            0nat
        }
    }
}

/// The part of a text that lies before an offset; the whole text where the
/// offset is past its end.
pub open spec fn text_before(bytes: Seq<u8>, offset: int) -> Seq<u8> {
    if offset <= 0 {
        Seq::empty()
    } else if offset >= bytes.len() {
        bytes
    } else {
        bytes.take(offset)
    }
}

/// The 1-based number of the line that holds an offset: one more than the
/// number of newlines before it. Carriage returns count for nothing.
pub open spec fn line_at(bytes: Seq<u8>, offset: int) -> nat {
    1 + newlines_in(text_before(bytes, offset))
}

/// The line numbers of a sequence of offsets: one per offset, in the same
/// order, equal numbers for offsets on one line.
pub open spec fn line_numbers(bytes: Seq<u8>, offsets: Seq<usize>) -> Seq<nat> {
    Seq::new(offsets.len(), |i: int| line_at(bytes, offsets[i] as int))
}

/// Whether the lines of a text can be numbered in `usize`: the text is
/// shorter than the largest number.
pub fn can_number_lines(content: &str) -> (fits: bool)
    ensures
        fits == (content.spec_bytes().len() < usize::MAX),
{
    content.as_bytes().len() < usize::MAX
}

/// The line number of one offset in a text.
pub fn line_number(content: &str, offset: usize) -> (line: usize)
    requires
        content.spec_bytes().len() < usize::MAX,
    ensures
        line == line_at(content.spec_bytes(), offset as int),
{
    let bytes = content.as_bytes();
    let end: usize = if offset < bytes.len() {
        offset
    } else {
        bytes.len()
    };
    let mut count: usize = 0;
    let mut i: usize = 0;
    while i < end
        invariant
            0 <= i <= end <= bytes@.len(),
            count == newlines_in(bytes@.take(i as int)),
            count <= i,
        decreases end - i,
    {
        assert(bytes@.take(i + 1).drop_last() =~= bytes@.take(i as int));
        if bytes[i] == NEWLINE {
            count += 1;
        }
        i += 1;
    }
    assert(bytes@.take(end as int) =~= text_before(bytes@, offset as int));
    count + 1
}

/// The line numbers of the given match offsets in a text, one per offset and
/// in the same order. Two matches that start on one line give that line
/// twice.
pub fn match_lines(content: &str, starts: &Vec<usize>) -> (lines: Vec<usize>)
    requires
        content.spec_bytes().len() < usize::MAX,
    ensures
        lines@.len() == starts@.len(),
        line_values(lines@) == line_numbers(content.spec_bytes(), starts@),
{
    let mut lines: Vec<usize> = Vec::new();
    let mut i: usize = 0;
    while i < starts.len()
        invariant
            0 <= i <= starts@.len(),
            content.spec_bytes().len() < usize::MAX,
            lines@.len() == i,
            forall|j: int|
                0 <= j < i ==> #[trigger] lines@[j] as nat == line_at(
                    content.spec_bytes(),
                    starts@[j] as int,
                ),
        decreases starts@.len() - i,
    {
        let line = line_number(content, starts[i]);
        lines.push(line);
        i += 1;
    }
    lines
}

/// Evidence that a rule's pattern matched in one file: the rule's identifier
/// and severity, the file's name, and the line of each match.
#[derive(Clone, Debug)]
pub struct Violation {
    pub rule_id: String,
    pub severity: Severity,
    pub file: String,
    pub lines: Vec<usize>,
}

/// The mathematical content of a violation.
pub struct ViolationView {
    pub rule_id: Seq<char>,
    pub severity: Severity,
    pub file: Seq<char>,
    pub lines: Seq<nat>,
}

/// Stored line numbers as natural numbers.
pub open spec fn line_values(lines: Seq<usize>) -> Seq<nat> {
    Seq::new(lines.len(), |i: int| lines[i] as nat)
}

impl View for Violation {
    type V = ViolationView;

    open spec fn view(&self) -> ViolationView {
        ViolationView {
            rule_id: self.rule_id@,
            severity: self.severity,
            file: self.file@,
            lines: line_values(self.lines@),
        }
    }
}

impl Violation {
    /// A violation holds at least one line.
    pub open spec fn well_formed(&self) -> bool {
        self.lines@.len() > 0
    }
}

/// What a rule with the given identifier and severity reports for a file in
/// which its pattern matched at the given offsets: nothing where there is no
/// match, else one violation with one line per match.
pub open spec fn violation_of(
    rule_id: Seq<char>,
    severity: Severity,
    file: Seq<char>,
    bytes: Seq<u8>,
    starts: Seq<usize>,
) -> Option<ViolationView> {
    if starts.len() == 0 {
        None
    } else {
        Some(ViolationView { rule_id, severity, file, lines: line_numbers(bytes, starts) })
    }
}

/// What a rule reports for a file with the given name and text.
pub open spec fn finding(rule: RuleView, file: Seq<char>, text: Seq<char>) -> Option<
    ViolationView,
> {
    violation_of(
        rule.id,
        rule.severity,
        file,
        encode_utf8(text),
        regex_match_starts(rule.pattern, text),
    )
}

/// The view of an optional violation.
pub open spec fn optional_view(v: Option<Violation>) -> Option<ViolationView> {
    match v {
        Some(v) => Some(v@),
        None => None,
    }
}

/// Turns the offsets at which a rule's pattern matched in a file into the
/// rule's violation for that file, if there is any match.
pub fn violation_for(
    rule_id: &str,
    severity: Severity,
    file: &str,
    content: &str,
    starts: &Vec<usize>,
) -> (found: Option<Violation>)
    requires
        content.spec_bytes().len() < usize::MAX,
    ensures
        optional_view(found) == violation_of(
            rule_id@,
            severity,
            file@,
            content.spec_bytes(),
            starts@,
        ),
        found matches Some(v) ==> v.well_formed() && v.lines@.len() == starts@.len(),
{
    let lines = match_lines(content, starts);
    if lines.len() == 0 {
        None
    } else {
        Some(Violation { rule_id: rule_id.to_owned(), severity, file: file.to_owned(), lines })
    }
}

impl Rule {
    /// Searches a file's text for the rule's pattern and reports the
    /// violation, if the pattern matches at all.
    pub fn check(&self, file: &str, content: &str) -> (found: Option<Violation>)
        requires
            content.spec_bytes().len() < usize::MAX,
        ensures
            optional_view(found) == finding(self@, file@, content@),
            found matches Some(v) ==> v.well_formed(),
    {
        let starts = find_starts(&self.regex, content);
        violation_for(self.id.as_str(), self.severity, file, content, &starts)
    }
}

} // verus!
