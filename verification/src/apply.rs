//! Applying the changes of a patch to the lines of a file.

use vstd::prelude::*;
use crate::lines::{join_lines, split_lines, LineSequence};
use crate::order::{
    distinct_lines, is_descending, lemma_rearranged_keeps_lines, lemma_slot_divides,
    lemma_sort_is_descending, lemma_sort_is_the_stable_order, lemma_sort_keeps_lines, on_line,
    same_lines, slot, sort_changes, sort_descending,
};
use crate::patch::{Action, FileChange, LineChange, LineChangeView};

verus! {

/// Why a patch could not be applied.
#[derive(Clone, Copy, Debug, PartialEq, Eq, Structural)]
pub enum ApplyError {
    /// A change names a line that the file does not have at that moment.
    OutOfBounds,
}

/// What one change makes of `lines`. `Edit` and `Remove` need an existing
/// line; `Add` may also name the position just past the last line.
pub open spec fn apply_one(lines: Seq<Seq<char>>, change: LineChangeView) -> Result<
    Seq<Seq<char>>,
    ApplyError,
> {
    let at = change.line_number as int;
    match change.action {
        Action::Edit => if at < lines.len() {
            Ok(lines.update(at, change.new_line))
        } else {
            Err(ApplyError::OutOfBounds)
        },
        Action::Remove => if at < lines.len() {
            Ok(lines.update(at, Seq::empty()))
        } else {
            Err(ApplyError::OutOfBounds)
        },
        Action::Add => if at <= lines.len() {
            Ok(lines.insert(at, change.new_line))
        } else {
            Err(ApplyError::OutOfBounds)
        },
    }
}

/// What the changes make of `lines` when they are applied one after the other
/// as they stand. The first change that fails ends the run with its error.
pub open spec fn apply_in_order(lines: Seq<Seq<char>>, changes: Seq<LineChangeView>) -> Result<
    Seq<Seq<char>>,
    ApplyError,
>
    decreases changes.len(),
{
    if changes.len() == 0 {
        Ok(lines)
    } else {
        match apply_one(lines, changes[0]) {
            Ok(next) => apply_in_order(next, changes.drop_first()),
            Err(error) => Err(error),
        }
    }
}

/// What a patch makes of `lines`: its changes are put in descending order of
/// line number first, whatever order they came in, and then applied in turn.
pub open spec fn apply_changes(lines: Seq<Seq<char>>, changes: Seq<LineChangeView>) -> Result<
    Seq<Seq<char>>,
    ApplyError,
> {
    apply_in_order(lines, sort_descending(changes))
}

/// Whether the line that `change` names is there to be changed: an existing
/// line for `Edit` and `Remove`, an existing line or the end for `Add`.
pub open spec fn in_bounds(lines: Seq<Seq<char>>, change: LineChangeView) -> bool {
    match change.action {
        Action::Add => change.line_number <= lines.len(),
        Action::Edit | Action::Remove => change.line_number < lines.len(),
    }
}

/// By how many lines a change of this action makes a file longer.
pub open spec fn growth(action: Action) -> nat {
    match action {
        Action::Add => 1,
        Action::Edit | Action::Remove => 0,
    }
}

/// How many of the changes add a line.
pub open spec fn additions(changes: Seq<LineChangeView>) -> nat
    decreases changes.len(),
{
    if changes.len() == 0 {
        0
    } else {
        additions(changes.drop_last()) + growth(changes.last().action)
    }
}

/// A change succeeds exactly when its line is in bounds, and then alters the
/// number of lines by what its action says: `Add` makes it one more, `Edit`
/// and `Remove` leave it as it is.
pub proof fn lemma_change_length(lines: Seq<Seq<char>>, change: LineChangeView)
    ensures
        apply_one(lines, change) is Ok <==> in_bounds(lines, change),
        apply_one(lines, change) matches Ok(next) ==> next.len() == lines.len() + growth(
            change.action,
        ),
{
}

/// What each action leaves behind: `Edit` the new text on its line, `Remove`
/// an empty line, `Add` the new text at its position with the former lines
/// from there on moved down by one. Every other line keeps its text.
pub proof fn lemma_change_content(lines: Seq<Seq<char>>, change: LineChangeView, index: int)
    requires
        in_bounds(lines, change),
        0 <= index < lines.len(),
    ensures
        apply_one(lines, change) matches Ok(next) && match change.action {
            Action::Edit => next[index] == if index == change.line_number {
                change.new_line
            } else {
                lines[index]
            },
            Action::Remove => next[index] == if index == change.line_number {
                Seq::<char>::empty()
            } else {
                lines[index]
            },
            Action::Add => next[change.line_number as int] == change.new_line && if index
                < change.line_number {
                next[index] == lines[index]
            } else {
                next[index + 1] == lines[index]
            },
        },
{
}

/// `Edit` and `Remove` fail with `OutOfBounds` on a line number at or past the
/// end; `Add` at the end succeeds and appends the new line.
pub proof fn lemma_bounds(lines: Seq<Seq<char>>, change: LineChangeView)
    ensures
        change.action != Action::Add && change.line_number >= lines.len() ==> apply_one(
            lines,
            change,
        ) == Err::<Seq<Seq<char>>, ApplyError>(ApplyError::OutOfBounds),
        change.action == Action::Add && change.line_number == lines.len() ==> apply_one(
            lines,
            change,
        ) == Ok::<Seq<Seq<char>>, ApplyError>(lines.push(change.new_line)),
        change.action == Action::Add && change.line_number > lines.len() ==> apply_one(
            lines,
            change,
        ) == Err::<Seq<Seq<char>>, ApplyError>(ApplyError::OutOfBounds),
{
    if change.action == Action::Add && change.line_number == lines.len() {
        assert(lines.insert(change.line_number as int, change.new_line) =~= lines.push(
            change.new_line,
        ));
    }
}

/// A patch of one change does what that change does.
pub proof fn lemma_single_change(lines: Seq<Seq<char>>, change: LineChangeView)
    ensures
        apply_changes(lines, seq![change]) == apply_one(lines, change),
{
    let single = seq![change];
    assert(single.drop_last() =~= Seq::empty());
    assert(sort_descending(single.drop_last()) =~= Seq::empty());
    assert(sort_descending(single) =~= single);
    assert(single.drop_first() =~= Seq::empty());
    match apply_one(lines, change) {
        Ok(next) => {
            assert(apply_in_order(next, single.drop_first()) == Ok::<Seq<Seq<char>>, ApplyError>(
                next,
            ));
        },
        Err(_) => {},
    }
}

/// A patch without changes leaves the lines as they are.
pub proof fn lemma_empty_patch(lines: Seq<Seq<char>>)
    ensures
        apply_changes(lines, Seq::empty()) == Ok::<Seq<Seq<char>>, ApplyError>(lines),
{
}

/// Changes given in any order have the effect of the same changes arranged
/// by hand from the highest line number to the lowest and applied as they
/// stand, provided the arrangement keeps changes to one and the same line in
/// the order in which they were given.
pub proof fn lemma_apply_order(
    lines: Seq<Seq<char>>,
    given: Seq<LineChangeView>,
    arranged: Seq<LineChangeView>,
)
    requires
        is_descending(arranged),
        same_lines(given, arranged),
    ensures
        apply_changes(lines, given) == apply_in_order(lines, arranged),
{
    lemma_sort_is_the_stable_order(given, arranged);
}

/// Where no two changes name the same line, the order in which a patch lists
/// its changes does not matter at all: it has the effect of any arrangement
/// of the same changes from the highest line number to the lowest, applied
/// as it stands.
pub proof fn lemma_apply_rearranged(
    lines: Seq<Seq<char>>,
    given: Seq<LineChangeView>,
    arranged: Seq<LineChangeView>,
)
    requires
        distinct_lines(given),
        given.to_multiset() == arranged.to_multiset(),
        is_descending(arranged),
    ensures
        apply_changes(lines, given) == apply_in_order(lines, arranged),
{
    lemma_rearranged_keeps_lines(given, arranged);
    lemma_apply_order(lines, given, arranged);
}

/// The effect of a patch does not depend on how changes to different lines
/// are interleaved in it: two patches that agree line by line do the same.
pub proof fn lemma_apply_any_order(
    lines: Seq<Seq<char>>,
    first: Seq<LineChangeView>,
    second: Seq<LineChangeView>,
)
    requires
        same_lines(first, second),
    ensures
        apply_changes(lines, first) == apply_changes(lines, second),
{
    lemma_sort_keeps_lines(second);
    lemma_sort_is_descending(second);
    assert forall|line: nat| #[trigger]
        on_line(first, line) == on_line(sort_descending(second), line) by {
        assert(on_line(first, line) == on_line(second, line));
    }
    lemma_sort_is_the_stable_order(first, sort_descending(second));
}

/// Changes applied as they stand, where all of them succeed, make the file
/// longer by the number of `Add`s among them.
pub proof fn lemma_length_in_order(lines: Seq<Seq<char>>, changes: Seq<LineChangeView>)
    ensures
        apply_in_order(lines, changes) matches Ok(next) ==> next.len() == lines.len() + additions(
            changes,
        ),
    decreases changes.len(),
{
    if changes.len() > 0 {
        match apply_one(lines, changes[0]) {
            Ok(next) => {
                let rest = changes.drop_first();
                lemma_length_in_order(next, rest);
                lemma_additions_front(changes);
            },
            Err(_) => {},
        }
    }
}

/// Counting the `Add`s from the front gives the same number as from the back.
pub proof fn lemma_additions_front(changes: Seq<LineChangeView>)
    requires
        changes.len() > 0,
    ensures
        additions(changes) == growth(changes[0].action) + additions(changes.drop_first()),
    decreases changes.len(),
{
    if changes.len() == 1 {
        assert(changes.drop_last() =~= changes.drop_first());
    } else {
        lemma_additions_front(changes.drop_last());
        assert(changes.drop_last().drop_first() =~= changes.drop_first().drop_last());
        assert(changes.drop_first().last() == changes.last());
        assert(changes.drop_last()[0] == changes[0]);
    }
}

/// The `Add`s of a sequence made of two parts are those of both parts.
pub proof fn lemma_additions_concat(first: Seq<LineChangeView>, second: Seq<LineChangeView>)
    ensures
        additions(first + second) == additions(first) + additions(second),
    decreases second.len(),
{
    if second.len() == 0 {
        assert(first + second =~= first);
    } else {
        lemma_additions_concat(first, second.drop_last());
        assert((first + second).drop_last() =~= first + second.drop_last());
        assert((first + second).last() == second.last());
    }
}

/// Sorting does not change how many `Add`s a patch holds.
pub proof fn lemma_additions_sorted(changes: Seq<LineChangeView>)
    ensures
        additions(sort_descending(changes)) == additions(changes),
    decreases changes.len(),
{
    if changes.len() > 0 {
        let shorter = sort_descending(changes.drop_last());
        let last = changes.last();
        lemma_additions_sorted(changes.drop_last());
        lemma_slot_divides(shorter, last.line_number);
        let at = slot(shorter, last.line_number) as int;
        let one = seq![last];
        assert(shorter =~= shorter.take(at) + shorter.skip(at));
        assert(sort_descending(changes) =~= (shorter.take(at) + one) + shorter.skip(at));
        lemma_additions_concat(shorter.take(at), shorter.skip(at));
        lemma_additions_concat(shorter.take(at) + one, shorter.skip(at));
        lemma_additions_concat(shorter.take(at), one);
        assert(one.drop_last() =~= Seq::empty());
        assert(additions(one.drop_last()) == 0);
        assert(additions(one) == growth(last.action));
        assert(additions(shorter) == additions(shorter.take(at)) + additions(shorter.skip(at)));
        assert(additions(sort_descending(changes)) == additions(shorter) + growth(last.action));
    }
}

/// A patch that succeeds makes the file longer by the number of its `Add`s;
/// its `Edit`s and `Remove`s leave the number of lines alone.
pub proof fn lemma_patch_length(lines: Seq<Seq<char>>, changes: Seq<LineChangeView>)
    ensures
        apply_changes(lines, changes) matches Ok(next) ==> next.len() == lines.len() + additions(
            changes,
        ),
{
    lemma_length_in_order(lines, sort_descending(changes));
    lemma_additions_sorted(changes);
}

impl LineSequence {
    /// Applies one change in place. On an error the lines are left as they were.
    pub fn apply_change(&mut self, change: &LineChange) -> (result: Result<(), ApplyError>)
        ensures
            match result {
                Ok(_) => apply_one(old(self)@, change@) == Ok::<Seq<Seq<char>>, ApplyError>(
                    final(self)@,
                ),
                Err(error) => apply_one(old(self)@, change@) == Err::<Seq<Seq<char>>, ApplyError>(
                    error,
                ) && final(self)@ == old(self)@,
            },
    {
        let count = self.lines.len();
        let ghost before = self@;
        match change.action {
            Action::Edit => {
                if change.line_number >= count as u64 {
                    return Err(ApplyError::OutOfBounds);
                }
                self.lines.set(change.line_number as usize, change.new_line.clone());
                assert(self@ =~= before.update(change@.line_number as int, change@.new_line));
            },
            Action::Remove => {
                if change.line_number >= count as u64 {
                    return Err(ApplyError::OutOfBounds);
                }
                self.lines.set(change.line_number as usize, String::new());
                assert(self@ =~= before.update(change@.line_number as int, Seq::empty()));
            },
            Action::Add => {
                if change.line_number > count as u64 {
                    return Err(ApplyError::OutOfBounds);
                }
                self.lines.insert(change.line_number as usize, change.new_line.clone());
                assert(self@ =~= before.insert(change@.line_number as int, change@.new_line));
            },
        }
        Ok(())
    }
}

/// Applies the changes of `change` to `store`, from the highest line number to
/// the lowest, and returns the new lines. Nothing is returned half done: the
/// first change that names a missing line makes the whole call fail.
pub fn apply(store: LineSequence, change: FileChange) -> (result: Result<LineSequence, ApplyError>)
    ensures
        match result {
            Ok(patched) => apply_changes(store@, change@.changes) == Ok::<
                Seq<Seq<char>>,
                ApplyError,
            >(patched@),
            Err(error) => apply_changes(store@, change@.changes) == Err::<
                Seq<Seq<char>>,
                ApplyError,
            >(error),
        },
{
    let ghost goal = apply_changes(store@, change@.changes);
    let mut patched = store;
    let FileChange { file_name: _, changes } = change;
    let mut changes = changes;
    sort_changes(&mut changes);
    let ghost sorted = changes.deep_view();
    let mut done: usize = 0;
    proof {
        assert(sorted.skip(0) =~= sorted);
    }
    while done < changes.len()
        invariant
            done <= changes.len(),
            sorted == changes.deep_view(),
            goal == apply_changes(store@, change@.changes),
            apply_in_order(patched@, sorted.skip(done as int)) == goal,
        decreases changes.len() - done,
    {
        proof {
            assert(sorted.skip(done as int)[0] == changes[done as int]@);
            assert(sorted.skip(done as int).drop_first() =~= sorted.skip(done + 1));
        }
        match patched.apply_change(&changes[done]) {
            Ok(_) => {},
            Err(error) => {
                return Err(error);
            },
        }
        done += 1;
    }
    Ok(patched)
}

/// What a patch makes of a file's text: the text is read as lines, the
/// changes are applied, and the lines are written out again.
pub open spec fn edited_text(content: Seq<char>, changes: Seq<LineChangeView>) -> Result<
    Seq<char>,
    ApplyError,
> {
    match apply_changes(split_lines(content), changes) {
        Ok(lines) => Ok(join_lines(lines)),
        Err(error) => Err(error),
    }
}

/// Applies the changes of `change` to the text of a file and returns the new
/// text, which is to replace the file's content in full. On an error there is
/// no new text, and the file is to be left as it is.
pub fn edit_text(content: &str, change: FileChange) -> (result: Result<String, ApplyError>)
    ensures
        match result {
            Ok(text) => edited_text(content@, change@.changes) == Ok::<Seq<char>, ApplyError>(
                text@,
            ),
            Err(error) => edited_text(content@, change@.changes) == Err::<Seq<char>, ApplyError>(
                error,
            ),
        },
{
    match apply(LineSequence::from_text(content), change) {
        Ok(patched) => Ok(patched.to_text()),
        Err(error) => Err(error),
    }
}

} // verus!
