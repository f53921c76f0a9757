//! Facts about the line structure of a text.

use vstd::prelude::*;

use super::lines::{line_count, line_start, lines_before, starts_line};

verus! {

/// Lines only start one at a time.
pub proof fn lemma_lines_before_step(s: Seq<char>, i: int)
    requires
        0 < i,
    ensures
        lines_before(s, i) == lines_before(s, i - 1) + if starts_line(s, i) {
            1nat
        } else {
            0nat
        },
{
}

/// The count of line starts never decreases.
pub proof fn lemma_lines_before_monotone(s: Seq<char>, i: int, j: int)
    requires
        i <= j,
    ensures
        lines_before(s, i) <= lines_before(s, j),
    decreases j - i,
{
    if i < j {
        lemma_lines_before_monotone(s, i, j - 1);
        if j > 0 {
            lemma_lines_before_step(s, j);
        }
    }
}

/// Every line but the first starts somewhere in the text: where the count
/// of line starts reaches it.
pub proof fn lemma_line_start_exists(s: Seq<char>, line: nat, i: int)
    requires
        0 < line,
        0 <= i <= s.len(),
        lines_before(s, i) >= line,
    ensures
        exists|k: int| 0 < k <= i && starts_line(s, k) && lines_before(s, k) == line,
    decreases i,
{
    if i == 0 {
        assert(lines_before(s, 0) == 0);
    } else {
        lemma_lines_before_step(s, i);
        if lines_before(s, i - 1) >= line {
            lemma_line_start_exists(s, line, i - 1);
            let k = choose|k: int| 0 < k <= i - 1 && starts_line(s, k) && lines_before(s, k) == line;
            assert(0 < k <= i);
        } else {
            assert(starts_line(s, i) && lines_before(s, i) == line);
        }
    }
}

/// Where a line starts lies within the text.
pub proof fn lemma_line_start_bounded(s: Seq<char>, line: nat)
    requires
        line <= line_count(s),
    ensures
        0 <= line_start(s, line) <= s.len(),
{
    if 0 < line < line_count(s) {
        lemma_line_start_exists(s, line, s.len() as int);
        let k = choose|k: int| starts_line(s, k) && lines_before(s, k) == line;
        assert(starts_line(s, k));
    }
}

} // verus!
