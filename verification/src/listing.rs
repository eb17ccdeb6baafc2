//! Reading a listing of paths, one per line, as a version-control tool
//! prints the files staged for commit.

use crate::matcher::NEWLINE;
use vstd::prelude::*;

verus! {

/// The byte that may precede a newline at the end of a line.
pub const CARRIAGE_RETURN: u8 = 13;

/// The position of the first newline at or after `from`; the length of the
/// text where there is none.
pub open spec fn line_end(bytes: Seq<u8>, from: int) -> int
    decreases bytes.len() - from,
{
    if from < 0 || from >= bytes.len() {
        bytes.len() as int
    } else if bytes[from] == NEWLINE {
        from
    } else {
        line_end(bytes, from + 1)
    }
}

/// A line without the carriage return that ends it, if one does.
pub open spec fn without_carriage_return(line: Seq<u8>) -> Seq<u8> {
    if line.len() > 0 && line.last() == CARRIAGE_RETURN {
        line.drop_last()
    } else {
        line
    }
}

/// The lines of the text from position `from` on. A line ends at a newline,
/// or at a carriage return followed by a newline; neither belongs to the
/// line. The last line needs no line ending, and a text that ends with one
/// has no empty line after it.
pub open spec fn lines_from(bytes: Seq<u8>, from: int) -> Seq<Seq<u8>>
    decreases bytes.len() - from,
{
    if from < 0 || from >= bytes.len() {
        Seq::empty()
    } else {
        let end = line_end(bytes, from);
        if from <= end < bytes.len() {
            seq![without_carriage_return(bytes.subrange(from, end))] + lines_from(bytes, end + 1)
        } else {
            seq![bytes.subrange(from, bytes.len() as int)]
        }
    }
}

/// The lines of a text.
pub open spec fn lines_of(bytes: Seq<u8>) -> Seq<Seq<u8>> {
    lines_from(bytes, 0)
}

/// The contents of a list of byte strings.
pub open spec fn byte_lines(lines: Seq<Vec<u8>>) -> Seq<Seq<u8>> {
    Seq::new(lines.len(), |i: int| lines[i]@)
}

/// The end of a line lies at or after its start and within the text, no
/// newline lies before it, and a newline lies at it unless the text ends
/// there.
pub proof fn lemma_line_end(bytes: Seq<u8>, from: int)
    requires
        0 <= from <= bytes.len(),
    ensures
        from <= line_end(bytes, from) <= bytes.len(),
        forall|i: int| from <= i < line_end(bytes, from) ==> bytes[i] != NEWLINE,
        line_end(bytes, from) < bytes.len() ==> bytes[line_end(bytes, from)] == NEWLINE,
    decreases bytes.len() - from,
{
    if from < bytes.len() && bytes[from] != NEWLINE {
        lemma_line_end(bytes, from + 1);
    }
}

/// Copies a part of a text.
fn copy_range(bytes: &[u8], from: usize, to: usize) -> (part: Vec<u8>)
    requires
        from <= to <= bytes@.len(),
    ensures
        part@ == bytes@.subrange(from as int, to as int),
{
    let mut part: Vec<u8> = Vec::new();
    let mut i: usize = from;
    while i < to
        invariant
            from <= i <= to <= bytes@.len(),
            part@ == bytes@.subrange(from as int, i as int),
        decreases to - i,
    {
        part.push(bytes[i]);
        i += 1;
    }
    part
}

/// Splits a listing into its lines.
pub fn split_lines(bytes: &[u8]) -> (lines: Vec<Vec<u8>>)
    ensures
        byte_lines(lines@) == lines_of(bytes@),
{
    let mut lines: Vec<Vec<u8>> = Vec::new();
    let mut start: usize = 0;
    while start < bytes.len()
        invariant
            0 <= start <= bytes@.len(),
            lines_of(bytes@) == byte_lines(lines@) + lines_from(bytes@, start as int),
        decreases bytes@.len() - start,
    {
        let mut end: usize = start;
        while end < bytes.len() && bytes[end] != NEWLINE
            invariant
                start <= end <= bytes@.len(),
                line_end(bytes@, start as int) == line_end(bytes@, end as int),
            decreases bytes@.len() - end,
        {
            end += 1;
        }
        if end < bytes.len() {
            let stop: usize = if end > start && bytes[end - 1] == CARRIAGE_RETURN {
                end - 1
            } else {
                end
            };
            let line = copy_range(bytes, start, stop);
            assert(line@ =~= without_carriage_return(bytes@.subrange(start as int, end as int)));
            lines.push(line);
            start = end + 1;
        } else {
            let line = copy_range(bytes, start, end);
            lines.push(line);
            start = end;
        }
    }
    lines
}

/// No line holds a newline, and there are no more lines than bytes.
pub proof fn lemma_lines_hold_no_newline(bytes: Seq<u8>, from: int)
    requires
        0 <= from <= bytes.len(),
    ensures
        lines_from(bytes, from).len() <= bytes.len() - from,
        forall|k: int, i: int|
            0 <= k < lines_from(bytes, from).len() && 0 <= i < lines_from(bytes, from)[k].len()
                ==> #[trigger] lines_from(bytes, from)[k][i] != NEWLINE,
    decreases bytes.len() - from,
{
    if from < bytes.len() {
        let end = line_end(bytes, from);
        lemma_line_end(bytes, from);
        if end < bytes.len() {
            let first = without_carriage_return(bytes.subrange(from, end));
            let rest = lines_from(bytes, end + 1);
            lemma_lines_hold_no_newline(bytes, end + 1);
            assert(lines_from(bytes, from) =~= seq![first] + rest);
            assert forall|k: int, i: int|
                0 <= k < lines_from(bytes, from).len() && 0 <= i < lines_from(
                    bytes,
                    from,
                )[k].len() implies #[trigger] lines_from(bytes, from)[k][i] != NEWLINE by {
                if k == 0 {
                    assert(first[i] == bytes[from + i]);
                } else {
                    assert(lines_from(bytes, from)[k] == rest[k - 1]);
                }
            }
        }
    }
}

} // verus!
