//! Laws of line numbering: how the byte-level count of newlines relates to
//! the characters of a text, and how many lines a violation holds.

use crate::matcher::{finding, line_at, newlines_in};
use crate::pattern::regex_match_starts;
use crate::rules::RuleView;
use crate::scan::findings;
use vstd::prelude::*;
use vstd::utf8::{encode_scalar, encode_utf8};

verus! {

/// The number of newline characters in a text.
pub open spec fn newline_chars(text: Seq<char>) -> nat
    decreases text.len(),
{
    if text.len() == 0 {
        0
    } else {
        newline_chars(text.drop_last()) + if text.last() == '\n' {
            1nat
        } else {
            0nat
        }
    }
}

/// The newlines of two pieces of text add up.
pub proof fn lemma_newlines_concat(a: Seq<u8>, b: Seq<u8>)
    ensures
        newlines_in(a + b) == newlines_in(a) + newlines_in(b),
    decreases b.len(),
{
    if b.len() > 0 {
        assert((a + b).drop_last() =~= a + b.drop_last());
        lemma_newlines_concat(a, b.drop_last());
    }
}

/// The line of an offset within a text is one more than the number of
/// newline bytes before that offset.
pub proof fn lemma_line_of_offset(bytes: Seq<u8>, offset: int)
    requires
        0 <= offset <= bytes.len(),
    ensures
        line_at(bytes, offset) == newlines_in(bytes.take(offset)) + 1,
        line_at(bytes, offset) <= offset + 1,
{
    assert(bytes.take(bytes.len() as int) =~= bytes);
    lemma_newlines_bounded(bytes.take(offset));
}

/// There are no more newlines than bytes.
pub proof fn lemma_newlines_bounded(bytes: Seq<u8>)
    ensures
        newlines_in(bytes) <= bytes.len(),
    decreases bytes.len(),
{
    if bytes.len() > 0 {
        lemma_newlines_bounded(bytes.drop_last());
    }
}

/// No byte of a multi-byte encoding is a newline, and the single byte of a
/// one-byte encoding is a newline only for the newline character.
proof fn lemma_encoded_bytes(scalar: u32)
    ensures
        scalar <= 0x7F ==> (((scalar & 0x7F) as u8 == 10u8) <==> scalar == 10),
        (0xC0u8 | ((scalar >> 6) & 0x1F) as u8) != 10u8,
        (0xE0u8 | ((scalar >> 12) & 0x0F) as u8) != 10u8,
        (0xF0u8 | ((scalar >> 18) & 0x7) as u8) != 10u8,
        (0x80u8 | (scalar & 0x3F) as u8) != 10u8,
        (0x80u8 | ((scalar >> 6) & 0x3F) as u8) != 10u8,
        (0x80u8 | ((scalar >> 12) & 0x3F) as u8) != 10u8,
{
    assert(scalar <= 0x7F ==> (((scalar & 0x7F) as u8 == 10u8) <==> scalar == 10))
        by (bit_vector);
    assert((0xC0u8 | ((scalar >> 6) & 0x1F) as u8) != 10u8) by (bit_vector);
    assert((0xE0u8 | ((scalar >> 12) & 0x0F) as u8) != 10u8) by (bit_vector);
    assert((0xF0u8 | ((scalar >> 18) & 0x7) as u8) != 10u8) by (bit_vector);
    assert((0x80u8 | (scalar & 0x3F) as u8) != 10u8) by (bit_vector);
    assert((0x80u8 | ((scalar >> 6) & 0x3F) as u8) != 10u8) by (bit_vector);
    assert((0x80u8 | ((scalar >> 12) & 0x3F) as u8) != 10u8) by (bit_vector);
}

/// The encoding of one character holds a newline byte exactly when the
/// character is the newline, and then only one.
pub proof fn lemma_newlines_of_character(c: char)
    ensures
        newlines_in(encode_scalar(c as u32)) == if c == '\n' {
            1nat
        } else {
            0nat
        },
{
    lemma_encoded_bytes(c as u32);
    reveal_with_fuel(newlines_in, 5);
}

/// The encoding of two texts joined is the two encodings joined.
pub proof fn lemma_encode_concat(a: Seq<char>, b: Seq<char>)
    ensures
        encode_utf8(a + b) == encode_utf8(a) + encode_utf8(b),
    decreases a.len(),
{
    if a.len() > 0 {
        assert((a + b).drop_first() =~= a.drop_first() + b);
        lemma_encode_concat(a.drop_first(), b);
    }
}

/// A text's encoding holds as many newline bytes as the text holds newline
/// characters.
pub proof fn lemma_newlines_of_encoding(text: Seq<char>)
    ensures
        newlines_in(encode_utf8(text)) == newline_chars(text),
    decreases text.len(),
{
    if text.len() > 0 {
        let front = text.drop_last();
        let last = seq![text.last()];
        assert(text =~= front + last);
        lemma_encode_concat(front, last);
        assert(encode_utf8(last) =~= encode_scalar(text.last() as u32)) by {
            reveal_with_fuel(encode_utf8, 2);
        }
        lemma_newlines_of_character(text.last());
        lemma_newlines_concat(encode_utf8(front), encode_utf8(last));
        lemma_newlines_of_encoding(front);
    }
}

/// The line of a character: a match that starts at the character with index
/// `index`, that is at the byte offset where that character's encoding
/// begins, is reported on the line whose number is one more than the number
/// of newline characters before it.
pub proof fn lemma_line_of_character(text: Seq<char>, index: int)
    requires
        0 <= index <= text.len(),
    ensures
        encode_utf8(text.take(index)).len() <= encode_utf8(text).len(),
        line_at(encode_utf8(text), encode_utf8(text.take(index)).len() as int) == newline_chars(
            text.take(index),
        ) + 1,
{
    let before = text.take(index);
    let after = text.skip(index);
    let offset = encode_utf8(before).len() as int;
    assert(text =~= before + after);
    lemma_encode_concat(before, after);
    assert(encode_utf8(text).take(offset) =~= encode_utf8(before));
    lemma_line_of_offset(encode_utf8(text), offset);
    lemma_newlines_of_encoding(before);
}

/// A rule whose pattern matches `m` times in a file yields no violation
/// where `m` is zero, and otherwise exactly one, which carries the rule's
/// identifier and severity and the file's name and holds `m` lines, the
/// line of each match in match order.
pub proof fn lemma_one_line_per_match(rule: RuleView, file: Seq<char>, text: Seq<char>)
    ensures
        regex_match_starts(rule.pattern, text).len() == 0 <==> finding(rule, file, text) is None,
        finding(rule, file, text) matches Some(v) ==> {
            &&& v.rule_id == rule.id
            &&& v.severity == rule.severity
            &&& v.file == file
            &&& v.lines.len() == regex_match_starts(rule.pattern, text).len()
            &&& forall|i: int|
                0 <= i < v.lines.len() ==> #[trigger] v.lines[i] == line_at(
                    encode_utf8(text),
                    regex_match_starts(rule.pattern, text)[i] as int,
                )
        },
{
}

/// A scan of one file reports at most one violation per rule.
pub proof fn lemma_findings_bounded(
    rules: Seq<RuleView>,
    path: Seq<char>,
    file: Seq<char>,
    text: Seq<char>,
)
    ensures
        findings(rules, path, file, text).len() <= rules.len(),
    decreases rules.len(),
{
    if rules.len() > 0 {
        lemma_findings_bounded(rules.drop_last(), path, file, text);
    }
}

/// A single rule reports its finding for a file exactly when the file's
/// path is in the rule's scope.
pub proof fn lemma_findings_of_one_rule(
    rule: RuleView,
    path: Seq<char>,
    file: Seq<char>,
    text: Seq<char>,
)
    ensures
        findings(seq![rule], path, file, text) == match finding(rule, file, text) {
            Some(v) => if rule.in_scope(path) {
                seq![v]
            } else {
                Seq::empty()
            },
            None => Seq::empty(),
        },
{
    reveal_with_fuel(findings, 2);
}

} // verus!
