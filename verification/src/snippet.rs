//! Cutting a range of lines out of a file's content.

use crate::text::{join, joined};
use vstd::prelude::*;

verus! {

/// How many characters stand before the first line feed of `text`, or in
/// all of `text` where it has none.
pub open spec fn line_length(text: Seq<char>) -> nat
    decreases text.len(),
{
    if text.len() == 0 || text[0] == '\n' {
        0
    } else {
        1 + line_length(text.drop_first())
    }
}

/// The lines of `text`. A line ends at a line feed, or at a carriage
/// return followed by a line feed; the ending is no part of the line.
/// What stands behind the last line feed is a line too, unless it is
/// empty.
pub open spec fn lines_of(text: Seq<char>) -> Seq<Seq<char>>
    decreases text.len(),
{
    if text.len() == 0 {
        Seq::empty()
    } else {
        let length = line_length(text);
        if length >= text.len() {
            seq![text]
        } else {
            let line = if length > 0 && text[length - 1] == '\r' {
                text.take(length - 1)
            } else {
                text.take(length as int)
            };
            seq![line] + lines_of(text.skip((length + 1) as int))
        }
    }
}

/// The lines from `start_line` up to, and not including, `end_line`, with
/// a line feed between neighbours. Lines are counted from 0; lines that
/// the text does not have are left out.
pub open spec fn lines_between(text: Seq<char>, start_line: nat, end_line: nat) -> Seq<char> {
    let lines = lines_of(text);
    let from = if start_line < lines.len() {
        start_line
    } else {
        lines.len()
    };
    let to = if end_line < lines.len() {
        end_line
    } else {
        lines.len()
    };
    joined(lines.subrange(from as int, to as int), "\n"@)
}

/// Calls `str::lines` and copies each line. Trusted: the lines are those
/// that the documentation of `str::lines` describes.
#[verifier::external_body]
fn split_lines(text: &str) -> (lines: Vec<String>)
    ensures
        lines.deep_view() == lines_of(text@),
{
    text.lines().map(|line| line.to_owned()).collect()
}

/// Cuts the lines from `start_line` up to, and not including, `end_line`
/// out of `file_content`.
pub fn code_snippet(file_content: &str, start_line: usize, end_line: usize) -> (snippet: String)
    requires
        start_line <= end_line,
    ensures
        snippet@ == lines_between(file_content@, start_line as nat, end_line as nat),
{
    let lines = split_lines(file_content);
    let from: usize = if start_line < lines.len() {
        start_line
    } else {
        lines.len()
    };
    let to: usize = if end_line < lines.len() {
        end_line
    } else {
        lines.len()
    };
    let mut chosen: Vec<String> = Vec::new();
    let mut i: usize = from;
    while i < to
        invariant
            from <= i <= to <= lines@.len(),
            chosen@.len() == i - from,
            forall|j: int| 0 <= j < i - from ==> (#[trigger] chosen@[j])@ == lines@[from + j]@,
        decreases to - i,
    {
        chosen.push(lines[i].clone());
        i += 1;
    }
    assert(chosen.deep_view() =~= lines.deep_view().subrange(from as int, to as int));
    join(&chosen, "\n")
}

} // verus!
