//! Applying a `didChange` notification's content changes to a document
//! text, and the syntax tree edits that follow the text.

use ropey::Rope;
use vstd::prelude::*;

use super::documents::edit_new_end;
use crate::text_utils::rope::{
    rope_chars, rope_clone, rope_from_str, rope_get_char, rope_len_bytes, rope_len_chars,
    rope_try_char_to_byte,
    rope_try_insert, rope_try_line_to_char, rope_try_remove,
};
use crate::protocol::{LspPosition, LspRange};
use crate::text_utils::conversion::{
    converted_column, converted_position, lemma_fit_chars_content, lemma_fit_width, width_in,
};
use crate::syntax::TsPoint;
use crate::text_utils::encoding::Encoding;
use crate::text_utils::lines::{
    fit_chars, is_line_break, is_line_break_char, lemma_fit_chars_bounded, line_count, line_start,
    unit_width_of,
};
use crate::text_utils::lines_lemmas::lemma_line_start_bounded;
use crate::text_utils::range_ext::tree_sitter::{ts_absolute, ts_absolute_fits};
use crate::text_utils::text_model::{
    byte_point_after, lemma_points_bounded, lemma_utf8_len_bounds, lemma_utf8_len_is_encoded_len,
    lemma_take_all, lemma_utf8_len_take_monotone, text_len, utf8_len,
};

verus! {

broadcast use vstd::string::group_string_axioms;

/// One content change: the replacement of a range (its columns in the
/// negotiated encoding), or of the whole text.
#[derive(Debug)]
pub struct ContentChange {
    pub range: Option<LspRange>,
    pub text: String,
}

/// A syntax tree edit: what tree-sitter's `InputEdit` holds.
#[derive(Debug, Clone, Copy, PartialEq, Eq, Structural)]
pub struct TreeEdit {
    pub start_byte: usize,
    pub old_end_byte: usize,
    pub new_end_byte: usize,
    pub start_position: TsPoint,
    pub old_end_position: TsPoint,
    pub new_end_position: TsPoint,
}

/// What the syntax tree undergoes, in order.
#[derive(Debug)]
pub enum TreeStep {
    /// Parse this whole new text afresh.
    Reparse(Rope),
    /// Apply this edit to the current tree.
    Edit(TreeEdit),
}

/// The model of a [`TreeStep`].
pub enum TreeStepView {
    Reparse(Seq<char>),
    Edit(TreeEdit),
}

/// The text after a batch of changes, the tree steps that go with it, and
/// whether a change could not be applied (the batch stopped there, keeping
/// the changes before it).
#[derive(Debug)]
pub struct ChangeOutcome {
    pub text: Rope,
    pub tree_steps: Vec<TreeStep>,
    pub failed: bool,
}

/// The models of tree steps.
pub open spec fn steps_view(steps: Seq<TreeStep>) -> Seq<TreeStepView> {
    steps.map_values(
        |step: TreeStep|
            match step {
                TreeStep::Reparse(rope) => TreeStepView::Reparse(rope_chars(rope)),
                TreeStep::Edit(edit) => TreeStepView::Edit(edit),
            },
    )
}

/// The models of content changes: range and replacement text.
pub open spec fn changes_view(changes: Seq<ContentChange>) -> Seq<(Option<LspRange>, Seq<char>)> {
    changes.map_values(|change: ContentChange| (change.range, change.text@))
}

/// Where the position (`line`, `character`) lies: the start of the line
/// plus the characters of its content that fit in `character` units.
pub open spec fn position_char(s: Seq<char>, line: u32, character: u32, encoding: Encoding) -> int {
    line_start(s, line as nat) + fit_chars(s, line_start(s, line as nat), character as int, encoding)
}

/// The byte column of the position (`line`, `character`) within its line.
pub open spec fn position_byte_column(s: Seq<char>, line: u32, character: u32, encoding: Encoding) -> int {
    utf8_len(s.take(position_char(s, line, character, encoding))) - utf8_len(
        s.take(line_start(s, line as nat)),
    )
}

#[verifier::opaque]
/// The characters a ranged change replaces: from its start position to its
/// end position, the end kept between the start and the end of the text;
/// none when either line lies past the line after the last.
pub open spec fn char_range(s: Seq<char>, range: LspRange, encoding: Encoding) -> Option<(int, int)> {
    if range.start.line > line_count(s) || range.end.line > line_count(s) {
        None
    } else {
        let start = position_char(s, range.start.line, range.start.character, encoding);
        let end = position_char(s, range.end.line, range.end.character, encoding);
        let end = if end < start {
            start
        } else {
            end
        };
        Some((start, if end > s.len() { s.len() as int } else { end }))
    }
}

#[verifier::opaque]
/// The tree edit for replacing the characters `start..end` of `s` with
/// `text`: byte offsets before and after, the old positions in bytes, and
/// the new end reached by walking over `text`. An edit whose new end would
/// not fit in `usize` is not made.
pub open spec fn tree_edit_for(
    s: Seq<char>,
    range: LspRange,
    start: int,
    end: int,
    text: Seq<char>,
    encoding: Encoding,
) -> Option<TreeEdit> {
    let start_byte = utf8_len(s.take(start));
    let start_position = TsPoint {
        row: range.start.line as usize,
        column: position_byte_column(
            s,
            range.start.line,
            range.start.character,
            encoding,
        ) as usize,
    };
    let n = utf8_len(text);
    if start_byte + n <= usize::MAX && start_position.row + n <= usize::MAX && start_position.column
        + n <= usize::MAX {
        Some(
            TreeEdit {
                start_byte: start_byte as usize,
                old_end_byte: utf8_len(s.take(end)) as usize,
                new_end_byte: (start_byte + n) as usize,
                start_position,
                old_end_position: TsPoint {
                    row: range.end.line as usize,
                    column: position_byte_column(
                        s,
                        range.end.line,
                        range.end.character,
                        encoding,
                    ) as usize,
                },
                new_end_position: ts_absolute(
                    start_position,
                    TsPoint {
                        row: byte_point_after(text).0 as usize,
                        column: byte_point_after(text).1 as usize,
                    },
                ),
            },
        )
    } else {
        None
    }
}

/// The text, tree steps and failure after applying `changes` to `s` in
/// order: a change without a range replaces the whole text, which is parsed
/// afresh; a ranged change replaces its characters and edits the tree; a
/// change whose range cannot be resolved stops the batch.
pub open spec fn applied(
    s: Seq<char>,
    changes: Seq<(Option<LspRange>, Seq<char>)>,
    encoding: Encoding,
) -> (Seq<char>, Seq<TreeStepView>, bool)
    decreases changes.len(),
{
    if changes.len() == 0 {
        (s, Seq::empty(), false)
    } else {
        let (range, text) = changes[0];
        match range {
            None => {
                let rest = applied(text, changes.drop_first(), encoding);
                (rest.0, seq![TreeStepView::Reparse(text)] + rest.1, rest.2)
            },
            Some(range) => match char_range(s, range, encoding) {
                None => (s, Seq::empty(), true),
                Some((start, end)) => {
                    let rest = applied(s.take(start) + text + s.skip(end), changes.drop_first(), encoding);
                    let step = match tree_edit_for(s, range, start, end, text, encoding) {
                        Some(edit) => seq![TreeStepView::Edit(edit)],
                        None => Seq::empty(),
                    };
                    (rest.0, step + rest.1, rest.2)
                },
            },
        }
    }
}

/// Whether the steps edit the tree in place at least once.
pub open spec fn has_edit(steps: Seq<TreeStepView>) -> bool {
    exists|i: int| 0 <= i < steps.len() && #[trigger] steps[i] is Edit
}

impl ChangeOutcome {
    /// Whether the tree, once it has followed the steps, is to be parsed once
    /// more over the final text (reusing the edited tree): the batch applied
    /// whole and edited the tree in place. A tree that was not there to edit
    /// is not parsed again.
    pub fn final_parse_due(&self) -> (r: bool)
        ensures
            r == (!self.failed && has_edit(steps_view(self.tree_steps@))),
    {
        if self.failed {
            return false;
        }
        let ghost steps = steps_view(self.tree_steps@);
        let mut i: usize = 0;
        while i < self.tree_steps.len()
            invariant
                !self.failed,
                0 <= i <= self.tree_steps@.len(),
                steps == steps_view(self.tree_steps@),
                forall|j: int| 0 <= j < i ==> !(#[trigger] steps[j] is Edit),
            decreases self.tree_steps@.len() - i,
        {
            match &self.tree_steps[i] {
                TreeStep::Edit(_) => {
                    assert(steps[i as int] is Edit);
                    assert(has_edit(steps));
                    return true;
                },
                TreeStep::Reparse(_) => {
                    assert(!(steps[i as int] is Edit));
                },
            }
            i = i + 1;
        }
        assert(steps.len() == self.tree_steps@.len());
        false
    }
}

/// How many characters of the line content from `start` fit in `col`
/// units of `encoding`.
fn fit_in_line(text: &Rope, start: usize, col: u32, encoding: Encoding) -> (k: usize)
    requires
        start <= rope_chars(*text).len(),
    ensures
        k == fit_chars(rope_chars(*text), start as int, col as int, encoding),
        start + k <= rope_chars(*text).len(),
{
    let ghost s = rope_chars(*text);
    let len = rope_len_chars(text);
    let mut idx = start;
    let mut left: usize = col as usize;
    loop
        invariant
            s == rope_chars(*text),
            len == s.len(),
            start <= idx <= s.len(),
            fit_chars(s, start as int, col as int, encoding) == (idx - start) + fit_chars(
                s,
                idx as int,
                left as int,
                encoding,
            ),
        decreases s.len() - idx,
    {
        match rope_get_char(text, idx) {
            None => {
                return idx - start;
            },
            Some(c) => {
                if is_line_break_char(c) {
                    return idx - start;
                }
                let w = unit_width_of(c, encoding);
                if w > left {
                    return idx - start;
                }
                left = left - w;
                idx = idx + 1;
            },
        }
    }
}

/// The characters a ranged change replaces (see [`char_range`]).
fn change_char_range(text: &Rope, range: LspRange, encoding: Encoding) -> (r: Option<(usize, usize)>)
    ensures
        match char_range(rope_chars(*text), range, encoding) {
            Some((start, end)) => r matches Some((x, y)) && x == start && y == end && 0 <= start
                <= end <= rope_chars(*text).len(),
            None => r is None,
        },
{
    reveal(char_range);
    let ghost s = rope_chars(*text);
    let len = rope_len_chars(text);
    let start_line = match rope_try_line_to_char(text, range.start.line as usize) {
        Some(i) => i,
        None => return None,
    };
    proof {
        lemma_line_start_bounded(s, range.start.line as nat);
    }
    let start = start_line + fit_in_line(text, start_line, range.start.character, encoding);
    let end_line = match rope_try_line_to_char(text, range.end.line as usize) {
        Some(i) => i,
        None => return None,
    };
    proof {
        lemma_line_start_bounded(s, range.end.line as nat);
    }
    let end = end_line + fit_in_line(text, end_line, range.end.character, encoding);
    let end = if end < start {
        start
    } else {
        end
    };
    let end = if end > len {
        len
    } else {
        end
    };
    Some((start, end))
}

/// The tree edit for a ranged change (see [`tree_edit_for`]), computed on
/// the text before the change.
fn tree_edit(
    text: &Rope,
    range: LspRange,
    start: usize,
    end: usize,
    new_text: &str,
    encoding: Encoding,
) -> (r: Option<TreeEdit>)
    requires
        char_range(rope_chars(*text), range, encoding) == Some((start as int, end as int)),
        start <= end <= rope_chars(*text).len(),
    ensures
        r == tree_edit_for(rope_chars(*text), range, start as int, end as int, new_text@, encoding),
{
    reveal(char_range);
    reveal(tree_edit_for);
    let ghost s = rope_chars(*text);
    let total_bytes = rope_len_bytes(text);
    proof {
        lemma_utf8_len_take_monotone(s, start as int, s.len() as int);
        lemma_utf8_len_take_monotone(s, end as int, s.len() as int);
        assert(s.take(s.len() as int) =~= s);
        lemma_line_start_bounded(s, range.start.line as nat);
        lemma_line_start_bounded(s, range.end.line as nat);
        lemma_fit_chars_bounded(
            s,
            line_start(s, range.start.line as nat),
            range.start.character as int,
            encoding,
        );
        lemma_fit_chars_bounded(
            s,
            line_start(s, range.end.line as nat),
            range.end.character as int,
            encoding,
        );
    }
    let start_byte = match rope_try_char_to_byte(text, start) {
        Some(b) => b,
        None => return None,
    };
    let old_end_byte = match rope_try_char_to_byte(text, end) {
        Some(b) => b,
        None => return None,
    };
    let start_line = match rope_try_line_to_char(text, range.start.line as usize) {
        Some(i) => i,
        None => return None,
    };
    let start_line_byte = match rope_try_char_to_byte(text, start_line) {
        Some(b) => b,
        None => return None,
    };
    let end_line = match rope_try_line_to_char(text, range.end.line as usize) {
        Some(i) => i,
        None => return None,
    };
    let end_line_byte = match rope_try_char_to_byte(text, end_line) {
        Some(b) => b,
        None => return None,
    };
    let end_position_char = end_line + fit_in_line(text, end_line, range.end.character, encoding);
    let end_position_byte = match rope_try_char_to_byte(text, end_position_char) {
        Some(b) => b,
        None => return None,
    };
    proof {
        lemma_utf8_len_take_monotone(s, start_line as int, start as int);
        lemma_utf8_len_take_monotone(s, end_line as int, end_position_char as int);
        lemma_utf8_len_take_monotone(s, start_line as int, s.len() as int);
        lemma_utf8_len_take_monotone(s, end_line as int, s.len() as int);
        lemma_utf8_len_take_monotone(s, end_position_char as int, s.len() as int);
    }
    let start_column = start_byte - start_line_byte;
    let end_column = end_position_byte - end_line_byte;
    let n = text_len(new_text);
    let start_row = range.start.line as usize;
    if start_byte > usize::MAX - n || start_row > usize::MAX - n || start_column > usize::MAX - n {
        return None;
    }
    let start_position = TsPoint { row: start_row, column: start_column };
    proof {
        lemma_points_bounded(new_text@);
        assert forall|k: int|
            0 <= k <= new_text@.len() && (#[trigger] byte_point_after(new_text@.take(k))).0 == 0
                implies start_position.column + byte_point_after(new_text@.take(k)).1 <= usize::MAX by {
            lemma_points_bounded(new_text@.take(k));
            lemma_utf8_len_take_monotone(new_text@, k, new_text@.len() as int);
            assert(new_text@.take(new_text@.len() as int) =~= new_text@);
        }
        lemma_utf8_len_bounds(new_text@);
    }
    let (new_end_byte, new_end_position) = edit_new_end(start_byte, start_position, new_text);
    Some(
        TreeEdit {
            start_byte,
            old_end_byte,
            new_end_byte,
            start_position,
            old_end_position: TsPoint { row: range.end.line as usize, column: end_column },
            new_end_position,
        },
    )
}

/// The outcome of a batch, after the tree steps `prefix` already taken.
pub open spec fn after_steps(
    prefix: Seq<TreeStepView>,
    outcome: (Seq<char>, Seq<TreeStepView>, bool),
) -> (Seq<char>, Seq<TreeStepView>, bool) {
    (outcome.0, prefix + outcome.1, outcome.2)
}

proof fn lemma_step_full(
    s: Seq<char>,
    changes: Seq<(Option<LspRange>, Seq<char>)>,
    encoding: Encoding,
    prefix: Seq<TreeStepView>,
)
    requires
        changes.len() > 0,
        changes[0].0 is None,
    ensures
        after_steps(prefix, applied(s, changes, encoding)) == after_steps(
            prefix.push(TreeStepView::Reparse(changes[0].1)),
            applied(changes[0].1, changes.drop_first(), encoding),
        ),
{
    let rest = applied(changes[0].1, changes.drop_first(), encoding);
    assert(prefix + (seq![TreeStepView::Reparse(changes[0].1)] + rest.1) =~= prefix.push(
        TreeStepView::Reparse(changes[0].1),
    ) + rest.1);
}

proof fn lemma_step_failed(
    s: Seq<char>,
    changes: Seq<(Option<LspRange>, Seq<char>)>,
    encoding: Encoding,
    prefix: Seq<TreeStepView>,
    range: LspRange,
)
    requires
        changes.len() > 0,
        changes[0].0 == Some(range),
        char_range(s, range, encoding) is None,
    ensures
        after_steps(prefix, applied(s, changes, encoding)) == (s, prefix, true),
{
    assert(prefix + Seq::<TreeStepView>::empty() =~= prefix);
}

proof fn lemma_step_edit(
    s: Seq<char>,
    changes: Seq<(Option<LspRange>, Seq<char>)>,
    encoding: Encoding,
    prefix: Seq<TreeStepView>,
    range: LspRange,
    start: int,
    end: int,
)
    requires
        changes.len() > 0,
        changes[0].0 == Some(range),
        char_range(s, range, encoding) == Some((start, end)),
    ensures
        after_steps(prefix, applied(s, changes, encoding)) == after_steps(
            prefix + match tree_edit_for(s, range, start, end, changes[0].1, encoding) {
                Some(edit) => seq![TreeStepView::Edit(edit)],
                None => Seq::<TreeStepView>::empty(),
            },
            applied(s.take(start) + changes[0].1 + s.skip(end), changes.drop_first(), encoding),
        ),
{
    let rest = applied(s.take(start) + changes[0].1 + s.skip(end), changes.drop_first(), encoding);
    let step = match tree_edit_for(s, range, start, end, changes[0].1, encoding) {
        Some(edit) => seq![TreeStepView::Edit(edit)],
        None => Seq::<TreeStepView>::empty(),
    };
    assert(prefix + (step + rest.1) =~= (prefix + step) + rest.1);
}

/// Applies one change, given the changes that follow it (`rest`): on
/// success, the batch continues from the new text and steps; on failure,
/// the batch ends with the text and steps as they were.
fn apply_one(
    text: &mut Rope,
    steps: &mut Vec<TreeStep>,
    change: &ContentChange,
    encoding: Encoding,
    Ghost(rest): Ghost<Seq<(Option<LspRange>, Seq<char>)>>,
) -> (ok: bool)
    ensures
        ok ==> after_steps(
            steps_view(old(steps)@),
            applied(rope_chars(*old(text)), seq![(change.range, change.text@)] + rest, encoding),
        ) == after_steps(steps_view(final(steps)@), applied(rope_chars(*final(text)), rest, encoding)),
        !ok ==> after_steps(
            steps_view(old(steps)@),
            applied(rope_chars(*old(text)), seq![(change.range, change.text@)] + rest, encoding),
        ) == (rope_chars(*old(text)), steps_view(old(steps)@), true),
        !ok ==> rope_chars(*final(text)) == rope_chars(*old(text)) && final(steps)@ == old(steps)@,
{
    let ghost changes = seq![(change.range, change.text@)] + rest;
    let ghost before = rope_chars(*text);
    let ghost steps_before = steps_view(steps@);
    proof {
        assert(changes[0] == (change.range, change.text@));
        assert(changes.drop_first() =~= rest);
    }
    match change.range {
        None => {
            proof {
                lemma_step_full(before, changes, encoding, steps_before);
            }
            *text = rope_from_str(change.text.as_str());
            let copy = rope_clone(text);
            steps.push(TreeStep::Reparse(copy));
            proof {
                assert(steps_view(steps@) =~= steps_before.push(TreeStepView::Reparse(change.text@)));
            }
            true
        },
        Some(range) => {
            match change_char_range(text, range, encoding) {
                None => {
                    proof {
                        lemma_step_failed(before, changes, encoding, steps_before, range);
                    }
                    false
                },
                Some((start, end)) => {
                    proof {
                        lemma_step_edit(
                            before,
                            changes,
                            encoding,
                            steps_before,
                            range,
                            start as int,
                            end as int,
                        );
                    }
                    let edit = tree_edit(text, range, start, end, change.text.as_str(), encoding);
                    match edit {
                        Some(edit) => {
                            steps.push(TreeStep::Edit(edit));
                            proof {
                                assert(steps_view(steps@) =~= steps_before + seq![
                                    TreeStepView::Edit(edit),
                                ]);
                            }
                        },
                        None => {
                            proof {
                                assert(steps_view(steps@) =~= steps_before
                                    + Seq::<TreeStepView>::empty());
                            }
                        },
                    }
                    rope_try_remove(text, start, end);
                    rope_try_insert(text, start, change.text.as_str());
                    proof {
                        assert(rope_chars(*text) =~= before.take(start as int) + change.text@
                            + before.skip(end as int));
                    }
                    true
                },
            }
        },
    }
}

/// Applies a batch of content changes to `text` in order (see
/// [`applied`]): the resulting text, the tree steps, and whether the batch
/// stopped at a change it could not apply.
pub fn apply_content_changes(text: Rope, changes: Vec<ContentChange>, encoding: Encoding) -> (r:
    ChangeOutcome)
    ensures
        (rope_chars(r.text), steps_view(r.tree_steps@), r.failed) == applied(
            rope_chars(text),
            changes_view(changes@),
            encoding,
        ),
{
    let ghost all = changes_view(changes@);
    let ghost goal = applied(rope_chars(text), all, encoding);
    let mut current = text;
    let mut steps: Vec<TreeStep> = Vec::new();
    let mut i: usize = 0;
    proof {
        assert(all.skip(0) =~= all);
        assert(Seq::<TreeStepView>::empty() + goal.1 =~= goal.1);
        assert(steps_view(steps@) =~= Seq::<TreeStepView>::empty());
    }
    while i < changes.len()
        invariant
            0 <= i <= changes@.len(),
            all == changes_view(changes@),
            goal == applied(rope_chars(text), all, encoding),
            after_steps(
                steps_view(steps@),
                applied(rope_chars(current), all.skip(i as int), encoding),
            ) == goal,
        decreases changes@.len() - i,
    {
        proof {
            assert(all.skip(i as int) =~= seq![(changes@[i as int].range, changes@[i as int].text@)]
                + all.skip(i + 1));
        }
        let ghost text_before = rope_chars(current);
        let ghost steps_before = steps@;
        let ok = apply_one(&mut current, &mut steps, &changes[i], encoding, Ghost(all.skip(i + 1)));
        if !ok {
            proof {
                assert(goal == after_steps(
                    steps_view(steps_before),
                    applied(text_before, all.skip(i as int), encoding),
                ));
                assert(goal == (text_before, steps_view(steps_before), true));
                assert(steps@ == steps_before);
                assert(rope_chars(current) == text_before);
            }
            return ChangeOutcome { text: current, tree_steps: steps, failed: true };
        }
        i = i + 1;
    }
    proof {
        assert(all.skip(i as int) =~= Seq::<(Option<LspRange>, Seq<char>)>::empty());
        assert(steps_view(steps@) + Seq::<TreeStepView>::empty() =~= steps_view(steps@));
    }
    ChangeOutcome { text: current, tree_steps: steps, failed: false }
}

proof fn lemma_position_byte_column_exact(s: Seq<char>, line: u32, character: u32, encoding: Encoding)
    requires
        line <= line_count(s),
        utf8_len(s) <= usize::MAX,
    ensures
        0 <= position_byte_column(s, line, character, encoding) <= usize::MAX,
        position_byte_column(s, line, character, encoding) + utf8_len(s.take(line_start(s, line as nat)))
            == utf8_len(s.take(position_char(s, line, character, encoding))),
{
    let ls = line_start(s, line as nat);
    lemma_line_start_bounded(s, line as nat);
    lemma_fit_chars_bounded(s, ls, character as int, encoding);
    let pc = position_char(s, line, character, encoding);
    lemma_utf8_len_take_monotone(s, ls, pc);
    lemma_utf8_len_take_monotone(s, pc, s.len() as int);
    lemma_take_all(s);
}

/// The tree edit of a ranged change places each old edge on its own line:
/// the start at the start's line, the old end at the end's line, each
/// column counting the bytes that come before the position on that same
/// line. So for a range spanning lines, the old end's column does not
/// depend on where the start's line begins. (The text is as large as a
/// rope can be, so byte counts fit in `usize`.)
pub proof fn law_tree_edit_edges_on_their_own_lines(
    s: Seq<char>,
    range: LspRange,
    text: Seq<char>,
    encoding: Encoding,
)
    requires
        utf8_len(s) <= usize::MAX,
    ensures
        applied(s, seq![(Some(range), text)], encoding).1.len() > 0 ==> (applied(
            s,
            seq![(Some(range), text)],
            encoding,
        ).1[0] matches TreeStepView::Edit(e) && {
            &&& e.start_position.row == range.start.line
            &&& e.start_position.column + utf8_len(s.take(line_start(s, range.start.line as nat)))
                == utf8_len(
                s.take(position_char(s, range.start.line, range.start.character, encoding)),
            )
            &&& e.old_end_position.row == range.end.line
            &&& e.old_end_position.column + utf8_len(s.take(line_start(s, range.end.line as nat)))
                == utf8_len(s.take(position_char(s, range.end.line, range.end.character, encoding)))
            &&& e.start_byte <= e.old_end_byte
            &&& e.new_end_byte == e.start_byte + utf8_len(text)
        }),
{
    reveal(char_range);
    reveal(tree_edit_for);
    let changes = seq![(Some(range), text)];
    assert(changes[0] == (Some(range), text));
    assert(changes.drop_first() =~= Seq::<(Option<LspRange>, Seq<char>)>::empty());
    match char_range(s, range, encoding) {
        None => {},
        Some((start, end)) => {
            lemma_position_byte_column_exact(s, range.start.line, range.start.character, encoding);
            lemma_position_byte_column_exact(s, range.end.line, range.end.character, encoding);
            lemma_line_start_bounded(s, range.start.line as nat);
            lemma_fit_chars_bounded(
                s,
                line_start(s, range.start.line as nat),
                range.start.character as int,
                encoding,
            );
            lemma_utf8_len_take_monotone(s, start, end);
            lemma_utf8_len_take_monotone(s, end, s.len() as int);
            lemma_take_all(s);
            let rest = applied(s.take(start) + text + s.skip(end), changes.drop_first(), encoding);
            assert(rest.1 =~= Seq::<TreeStepView>::empty());
        },
    }
}

/// Changes sent in one notification act as if sent in two: applying a batch
/// is applying its first part, then the rest to the resulting text, the
/// tree steps following one another, as long as the first part applies.
pub proof fn law_batches_compose(
    s: Seq<char>,
    first: Seq<(Option<LspRange>, Seq<char>)>,
    rest: Seq<(Option<LspRange>, Seq<char>)>,
    encoding: Encoding,
)
    requires
        !applied(s, first, encoding).2,
    ensures
        applied(s, first + rest, encoding) == ({
            let a = applied(s, first, encoding);
            let b = applied(a.0, rest, encoding);
            (b.0, a.1 + b.1, b.2)
        }),
    decreases first.len(),
{
    if first.len() == 0 {
        assert(first + rest =~= rest);
        assert(Seq::<TreeStepView>::empty() + applied(s, rest, encoding).1 =~= applied(
            s,
            rest,
            encoding,
        ).1);
    } else {
        let all = first + rest;
        assert(all[0] == first[0]);
        assert(all.drop_first() =~= first.drop_first() + rest);
        let (range, text) = first[0];
        match range {
            None => {
                law_batches_compose(text, first.drop_first(), rest, encoding);
                let a = applied(text, first.drop_first(), encoding);
                let b = applied(a.0, rest, encoding);
                assert(seq![TreeStepView::Reparse(text)] + (a.1 + b.1) =~= (seq![
                    TreeStepView::Reparse(text),
                ] + a.1) + b.1);
            },
            Some(range) => {
                match char_range(s, range, encoding) {
                    None => {},
                    Some((start, end)) => {
                        let next = s.take(start) + text + s.skip(end);
                        law_batches_compose(next, first.drop_first(), rest, encoding);
                        let step = match tree_edit_for(s, range, start, end, text, encoding) {
                            Some(edit) => seq![TreeStepView::Edit(edit)],
                            None => Seq::<TreeStepView>::empty(),
                        };
                        let a = applied(next, first.drop_first(), encoding);
                        let b = applied(a.0, rest, encoding);
                        assert(step + (a.1 + b.1) =~= (step + a.1) + b.1);
                    },
                }
            },
        }
    }
}

/// Whether the position lies on a character boundary of its line's
/// content, in `encoding` units.
pub open spec fn on_boundary(s: Seq<char>, position: LspPosition, encoding: Encoding) -> bool {
    let start = line_start(s, position.line as nat);
    width_in(
        s.subrange(start, start + fit_chars(s, start, position.character as int, encoding)),
        encoding,
    ) == position.character
}

/// A change means the same characters whichever encoding its range is
/// given in: converting a range whose ends lie on character boundaries to
/// another encoding leaves the characters it replaces unchanged.
pub proof fn law_ranges_mean_the_same_in_every_encoding(
    s: Seq<char>,
    range: LspRange,
    from: Encoding,
    to: Encoding,
)
    requires
        range.start.line <= line_count(s),
        range.end.line <= line_count(s),
        on_boundary(s, range.start, from),
        on_boundary(s, range.end, from),
        converted_column(
            s,
            line_start(s, range.start.line as nat),
            range.start.character as int,
            from,
            to,
        ) <= u32::MAX,
        converted_column(
            s,
            line_start(s, range.end.line as nat),
            range.end.character as int,
            from,
            to,
        ) <= u32::MAX,
    ensures
        char_range(
            s,
            LspRange {
                start: converted_position(s, range.start, from, to),
                end: converted_position(s, range.end, from, to),
            },
            to,
        ) == char_range(s, range, from),
{
    reveal(char_range);
    let ls = line_start(s, range.start.line as nat);
    let le = line_start(s, range.end.line as nat);
    lemma_line_start_bounded(s, range.start.line as nat);
    lemma_line_start_bounded(s, range.end.line as nat);
    let ks = fit_chars(s, ls, range.start.character as int, from);
    let ke = fit_chars(s, le, range.end.character as int, from);
    lemma_fit_chars_bounded(s, ls, range.start.character as int, from);
    lemma_fit_chars_bounded(s, le, range.end.character as int, from);
    lemma_fit_chars_content(s, ls, range.start.character as int, from);
    lemma_fit_chars_content(s, le, range.end.character as int, from);
    lemma_fit_width(s, ls, ks, to);
    lemma_fit_width(s, le, ke, to);
}

} // verus!
