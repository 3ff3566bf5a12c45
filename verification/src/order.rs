//! The order in which the changes of one file are applied: from the highest
//! line number to the lowest, so that a change never moves a line that a later
//! change still names. Changes to the same line keep the order they came in.

use vstd::prelude::*;
use crate::patch::{LineChange, LineChangeView};

verus! {

/// No change is followed by one for a higher line.
pub open spec fn is_descending(changes: Seq<LineChangeView>) -> bool {
    forall|i: int, j: int|
        0 <= i < j < changes.len() ==> changes[i].line_number >= changes[j].line_number
}

/// Where a change for `line` enters a descending sequence: directly behind the
/// last change whose line number is at least `line`.
pub open spec fn slot(sorted: Seq<LineChangeView>, line: nat) -> nat
    decreases sorted.len(),
{
    if sorted.len() == 0 {
        0
    } else if sorted.last().line_number >= line {
        sorted.len()
    } else {
        slot(sorted.drop_last(), line)
    }
}

/// `sorted` with `change` put in at its slot.
pub open spec fn insert_descending(
    sorted: Seq<LineChangeView>,
    change: LineChangeView,
) -> Seq<LineChangeView> {
    sorted.insert(slot(sorted, change.line_number) as int, change)
}

/// The changes from the highest line number to the lowest; those for one line
/// stay in the order in which they were given.
pub open spec fn sort_descending(changes: Seq<LineChangeView>) -> Seq<LineChangeView>
    decreases changes.len(),
{
    if changes.len() == 0 {
        Seq::empty()
    } else {
        insert_descending(sort_descending(changes.drop_last()), changes.last())
    }
}

/// The changes that name `line`, in the order in which they stand.
pub open spec fn on_line(changes: Seq<LineChangeView>, line: nat) -> Seq<LineChangeView>
    decreases changes.len(),
{
    if changes.len() == 0 {
        Seq::empty()
    } else if changes.last().line_number == line {
        on_line(changes.drop_last(), line).push(changes.last())
    } else {
        on_line(changes.drop_last(), line)
    }
}

/// Line by line, the two sequences hold the same changes in the same order.
/// They may differ only in how changes to different lines are interleaved.
pub open spec fn same_lines(first: Seq<LineChangeView>, second: Seq<LineChangeView>) -> bool {
    forall|line: nat| #[trigger] on_line(first, line) == on_line(second, line)
}

/// The slot lies inside the sequence, every change behind it names a lower
/// line, and in a descending sequence every change before it names a line at
/// least as high.
pub proof fn lemma_slot_divides(sorted: Seq<LineChangeView>, line: nat)
    ensures
        slot(sorted, line) <= sorted.len(),
        forall|i: int| slot(sorted, line) <= i < sorted.len() ==> sorted[i].line_number < line,
        is_descending(sorted) ==> forall|i: int|
            0 <= i < slot(sorted, line) ==> sorted[i].line_number >= line,
    decreases sorted.len(),
{
    if sorted.len() > 0 && sorted.last().line_number < line {
        let shorter = sorted.drop_last();
        lemma_slot_divides(shorter, line);
        assert forall|i: int| slot(sorted, line) <= i < sorted.len() implies sorted[i].line_number
            < line by {
            if i < shorter.len() {
                assert(sorted[i] == shorter[i]);
            }
        }
        if is_descending(sorted) {
            assert forall|i: int, j: int| 0 <= i < j < shorter.len() implies shorter[i].line_number
                >= shorter[j].line_number by {
                assert(shorter[i] == sorted[i] && shorter[j] == sorted[j]);
            }
            assert forall|i: int| 0 <= i < slot(sorted, line) implies sorted[i].line_number
                >= line by {
                assert(sorted[i] == shorter[i]);
            }
        }
    }
}

/// Putting a change in at its slot keeps a descending sequence descending.
pub proof fn lemma_insert_keeps_descending(sorted: Seq<LineChangeView>, change: LineChangeView)
    requires
        is_descending(sorted),
    ensures
        is_descending(insert_descending(sorted, change)),
{
    lemma_slot_divides(sorted, change.line_number);
}

/// Sorting yields a descending sequence.
pub proof fn lemma_sort_is_descending(changes: Seq<LineChangeView>)
    ensures
        is_descending(sort_descending(changes)),
    decreases changes.len(),
{
    if changes.len() > 0 {
        lemma_sort_is_descending(changes.drop_last());
        lemma_insert_keeps_descending(sort_descending(changes.drop_last()), changes.last());
    }
}

/// Sorting neither drops nor invents a change.
pub proof fn lemma_sort_permutes(changes: Seq<LineChangeView>)
    ensures
        sort_descending(changes).to_multiset() == changes.to_multiset(),
    decreases changes.len(),
{
    broadcast use vstd::seq_lib::to_multiset_build, vstd::seq_lib::to_multiset_insert;

    if changes.len() > 0 {
        let shorter = changes.drop_last();
        lemma_sort_permutes(shorter);
        lemma_slot_divides(sort_descending(shorter), changes.last().line_number);
        assert(changes =~= shorter.push(changes.last()));
    } else {
        assert(changes =~= Seq::empty());
    }
}

/// The changes for one line in a sequence made of two parts are those of the
/// first part followed by those of the second.
pub proof fn lemma_on_line_concat(
    first: Seq<LineChangeView>,
    second: Seq<LineChangeView>,
    line: nat,
)
    ensures
        on_line(first + second, line) == on_line(first, line) + on_line(second, line),
    decreases second.len(),
{
    if second.len() == 0 {
        assert(first + second =~= first);
        assert(on_line(first, line) + on_line(second, line) =~= on_line(first, line));
    } else {
        lemma_on_line_concat(first, second.drop_last(), line);
        assert((first + second).drop_last() =~= first + second.drop_last());
        assert((first + second).last() == second.last());
        assert(on_line(first + second, line) =~= on_line(first, line) + on_line(second, line));
    }
}

/// A sequence in which no change names `line` has nothing on that line, and a
/// sequence with something on that line holds a change that names it.
pub proof fn lemma_on_line_members(changes: Seq<LineChangeView>, line: nat)
    ensures
        (forall|i: int| 0 <= i < changes.len() ==> changes[i].line_number != line) <==> on_line(
            changes,
            line,
        ).len() == 0,
    decreases changes.len(),
{
    if changes.len() > 0 {
        let shorter = changes.drop_last();
        lemma_on_line_members(shorter, line);
        if changes.last().line_number != line {
            if forall|i: int| 0 <= i < shorter.len() ==> shorter[i].line_number != line {
                assert forall|i: int| 0 <= i < changes.len() implies changes[i].line_number
                    != line by {
                    if i < shorter.len() {
                        assert(changes[i] == shorter[i]);
                    }
                }
            } else {
                let i = choose|i: int| 0 <= i < shorter.len() && shorter[i].line_number == line;
                assert(changes[i] == shorter[i]);
            }
        }
    }
}

/// Putting a change in at its slot adds it behind the changes that already
/// name its line, and leaves every other line as it was.
pub proof fn lemma_insert_on_line(sorted: Seq<LineChangeView>, change: LineChangeView, line: nat)
    ensures
        on_line(insert_descending(sorted, change), line) == if change.line_number == line {
            on_line(sorted, line).push(change)
        } else {
            on_line(sorted, line)
        },
{
    let at = slot(sorted, change.line_number) as int;
    lemma_slot_divides(sorted, change.line_number);
    let head = sorted.take(at);
    let tail = sorted.skip(at);
    let one = seq![change];
    assert(sorted =~= head + tail);
    assert(insert_descending(sorted, change) =~= (head + one) + tail);
    lemma_on_line_concat(head, tail, line);
    lemma_on_line_concat(head + one, tail, line);
    lemma_on_line_concat(head, one, line);
    assert(one.drop_last() =~= Seq::empty());
    assert(on_line(one.drop_last(), line) =~= Seq::empty());
    if change.line_number == line {
        assert(on_line(one, line) =~= one);
        lemma_on_line_members(tail, line);
        assert(on_line(tail, line) =~= Seq::empty());
        assert(on_line(head, line) + one + on_line(tail, line) =~= (on_line(head, line) + on_line(
            tail,
            line,
        )).push(change));
    } else {
        assert(on_line(one, line) =~= Seq::empty());
        assert(on_line(head, line) + on_line(one, line) =~= on_line(head, line));
    }
}

/// Sorting keeps, for every line, the changes that name it in the order in
/// which they were given.
pub proof fn lemma_sort_keeps_lines(changes: Seq<LineChangeView>)
    ensures
        same_lines(sort_descending(changes), changes),
    decreases changes.len(),
{
    if changes.len() > 0 {
        let shorter = changes.drop_last();
        lemma_sort_keeps_lines(shorter);
        assert forall|line: nat| #[trigger]
            on_line(sort_descending(changes), line) == on_line(changes, line) by {
            lemma_insert_on_line(sort_descending(shorter), changes.last(), line);
            assert(on_line(sort_descending(shorter), line) == on_line(shorter, line));
        }
    }
}

/// A descending sequence is fixed by what it holds line by line: two
/// descending sequences with the same changes on every line are equal.
pub proof fn lemma_descending_unique(first: Seq<LineChangeView>, second: Seq<LineChangeView>)
    requires
        is_descending(first),
        is_descending(second),
        same_lines(first, second),
    ensures
        first == second,
    decreases first.len(),
{
    if first.len() == 0 {
        if second.len() > 0 {
            let line = second.last().line_number;
            assert(on_line(first, line) == on_line(second, line));
        }
        assert(first =~= second);
    } else {
        let low = first.last().line_number;
        assert(on_line(first, low) == on_line(second, low));
        lemma_on_line_members(second, low);
        let i = choose|i: int| 0 <= i < second.len() && second[i].line_number == low;
        let other = second.last().line_number;
        assert(second[i].line_number >= other);
        assert(on_line(first, other) == on_line(second, other));
        lemma_on_line_members(first, other);
        let j = choose|j: int| 0 <= j < first.len() && first[j].line_number == other;
        assert(first[j].line_number >= low);
        assert(other == low);
        assert(on_line(first, low).last() == first.last());
        assert(on_line(second, low).last() == second.last());
        let first_rest = first.drop_last();
        let second_rest = second.drop_last();
        assert forall|line: nat| #[trigger]
            on_line(first_rest, line) == on_line(second_rest, line) by {
            assert(on_line(first, line) == on_line(second, line));
            if line == low {
                assert(on_line(first_rest, line) =~= on_line(first, line).drop_last());
                assert(on_line(second_rest, line) =~= on_line(second, line).drop_last());
            }
        }
        assert forall|a: int, b: int| 0 <= a < b < first_rest.len() implies first_rest[a].line_number
            >= first_rest[b].line_number by {
            assert(first_rest[a] == first[a] && first_rest[b] == first[b]);
        }
        assert forall|a: int, b: int|
            0 <= a < b < second_rest.len() implies second_rest[a].line_number
            >= second_rest[b].line_number by {
            assert(second_rest[a] == second[a] && second_rest[b] == second[b]);
        }
        lemma_descending_unique(first_rest, second_rest);
        assert(first =~= first_rest.push(first.last()));
        assert(second =~= second_rest.push(second.last()));
    }
}

/// Sorting is the one way to put changes in descending order without
/// reordering those that name the same line.
pub proof fn lemma_sort_is_the_stable_order(
    given: Seq<LineChangeView>,
    arranged: Seq<LineChangeView>,
)
    requires
        is_descending(arranged),
        same_lines(given, arranged),
    ensures
        sort_descending(given) == arranged,
{
    lemma_sort_is_descending(given);
    lemma_sort_keeps_lines(given);
    assert forall|line: nat| #[trigger]
        on_line(sort_descending(given), line) == on_line(arranged, line) by {
        assert(on_line(sort_descending(given), line) == on_line(given, line));
        assert(on_line(given, line) == on_line(arranged, line));
    }
    lemma_descending_unique(sort_descending(given), arranged);
}

/// Sorting leaves a sequence that is already descending as it is.
pub proof fn lemma_sort_of_descending(changes: Seq<LineChangeView>)
    requires
        is_descending(changes),
    ensures
        sort_descending(changes) == changes,
{
    lemma_sort_is_the_stable_order(changes, changes);
}

/// No two changes name the same line.
pub open spec fn distinct_lines(changes: Seq<LineChangeView>) -> bool {
    forall|i: int, j: int|
        0 <= i < j < changes.len() ==> changes[i].line_number != changes[j].line_number
}

/// Where no two changes name the same line, a change stands alone on its line.
pub proof fn lemma_on_line_single(changes: Seq<LineChangeView>, at: int)
    requires
        distinct_lines(changes),
        0 <= at < changes.len(),
    ensures
        on_line(changes, changes[at].line_number) == seq![changes[at]],
    decreases changes.len(),
{
    let line = changes[at].line_number;
    let shorter = changes.drop_last();
    if at == changes.len() - 1 {
        assert forall|i: int| 0 <= i < shorter.len() implies shorter[i].line_number != line by {
            assert(shorter[i] == changes[i]);
        }
        lemma_on_line_members(shorter, line);
        assert(on_line(shorter, line) =~= Seq::empty());
        assert(on_line(changes, line) =~= seq![changes[at]]);
    } else {
        assert forall|i: int, j: int| 0 <= i < j < shorter.len() implies shorter[i].line_number
            != shorter[j].line_number by {
            assert(shorter[i] == changes[i] && shorter[j] == changes[j]);
        }
        assert(shorter[at] == changes[at]);
        lemma_on_line_single(shorter, at);
    }
}

/// Where no two changes name the same line, every rearrangement of the
/// changes holds, line by line, the same changes.
pub proof fn lemma_rearranged_keeps_lines(given: Seq<LineChangeView>, arranged: Seq<LineChangeView>)
    requires
        distinct_lines(given),
        given.to_multiset() == arranged.to_multiset(),
    ensures
        distinct_lines(arranged),
        same_lines(given, arranged),
{
    assert forall|a: LineChangeView| given.contains(a) <==> arranged.contains(a) by {
        vstd::seq_lib::to_multiset_contains(given, a);
        vstd::seq_lib::to_multiset_contains(arranged, a);
    }
    assert(given.len() == arranged.len()) by {
        vstd::seq_lib::to_multiset_len(given);
        vstd::seq_lib::to_multiset_len(arranged);
    }
    assert(given.no_duplicates()) by {
        assert forall|i: int, j: int| 0 <= i < given.len() && 0 <= j < given.len() && i
            != j implies given[i] != given[j] by {
            if i < j {
                assert(given[i].line_number != given[j].line_number);
            } else {
                assert(given[j].line_number != given[i].line_number);
            }
        }
    }
    given.unique_seq_to_set();
    assert(given.to_set() =~= arranged.to_set());
    arranged.lemma_no_dup_set_cardinality();
    assert forall|i: int, j: int| 0 <= i < j < arranged.len() implies arranged[i].line_number
        != arranged[j].line_number by {
        assert(arranged.contains(arranged[i]));
        assert(arranged.contains(arranged[j]));
        let p = choose|p: int| 0 <= p < given.len() && given[p] == arranged[i];
        let q = choose|q: int| 0 <= q < given.len() && given[q] == arranged[j];
        assert(arranged[i] != arranged[j]);
        if p < q {
            assert(given[p].line_number != given[q].line_number);
        } else {
            assert(given[q].line_number != given[p].line_number);
        }
    }
    assert forall|line: nat| #[trigger] on_line(given, line) == on_line(arranged, line) by {
        lemma_on_line_members(given, line);
        lemma_on_line_members(arranged, line);
        if exists|i: int| 0 <= i < given.len() && given[i].line_number == line {
            let i = choose|i: int| 0 <= i < given.len() && given[i].line_number == line;
            assert(given.contains(given[i]));
            let j = choose|j: int| 0 <= j < arranged.len() && arranged[j] == given[i];
            lemma_on_line_single(given, i);
            lemma_on_line_single(arranged, j);
        } else {
            assert forall|j: int| 0 <= j < arranged.len() implies arranged[j].line_number
                != line by {
                assert(arranged.contains(arranged[j]));
                let p = choose|p: int| 0 <= p < given.len() && given[p] == arranged[j];
                assert(given[p].line_number != line);
            }
            assert(on_line(given, line) =~= on_line(arranged, line));
        }
    }
}

/// Finds the slot for `line` among the first `end` changes.
fn find_slot(changes: &Vec<LineChange>, end: usize, line: u64) -> (at: usize)
    requires
        end <= changes.len(),
    ensures
        at == slot(changes.deep_view().take(end as int), line as nat),
        at <= end,
{
    let ghost prefix = changes.deep_view().take(end as int);
    let mut at = end;
    proof {
        assert(prefix.take(end as int) =~= prefix);
    }
    while at > 0 && changes[at - 1].line_number < line
        invariant
            at <= end <= changes.len(),
            prefix == changes.deep_view().take(end as int),
            slot(prefix, line as nat) == slot(prefix.take(at as int), line as nat),
        decreases at,
    {
        proof {
            let shorter = prefix.take(at as int);
            assert(shorter.last() == changes[at - 1]@);
            assert(shorter.drop_last() =~= prefix.take(at - 1));
        }
        at -= 1;
    }
    proof {
        let shorter = prefix.take(at as int);
        if at > 0 {
            assert(shorter.last() == changes[at - 1]@);
        }
    }
    at
}

/// Sorts the changes into the order of application: descending by line
/// number, with the changes to one line left in the order they came in. No
/// change is lost and none is made up.
pub fn sort_changes(changes: &mut Vec<LineChange>)
    ensures
        final(changes).deep_view() == sort_descending(old(changes).deep_view()),
        is_descending(final(changes).deep_view()),
        same_lines(final(changes).deep_view(), old(changes).deep_view()),
        final(changes).deep_view().to_multiset() == old(changes).deep_view().to_multiset(),
{
    let ghost given = changes.deep_view();
    let count = changes.len();
    let mut done: usize = 0;
    proof {
        assert(given.take(0) =~= Seq::empty());
        assert(changes.deep_view().skip(0) =~= given.skip(0));
    }
    while done < count
        invariant
            done <= count,
            changes.len() == count,
            given.len() == count,
            changes.deep_view().take(done as int) == sort_descending(given.take(done as int)),
            changes.deep_view().skip(done as int) == given.skip(done as int),
        decreases count - done,
    {
        let ghost before = changes.deep_view();
        let line = changes[done].line_number;
        let at = find_slot(changes, done, line);
        if at < done {
            let change = changes.remove(done);
            changes.insert(at, change);
        }
        proof {
            let after = changes.deep_view();
            let moved = before[done as int];
            assert(moved == before.skip(done as int)[0]);
            assert(moved == given[done as int]);
            assert(given.take(done + 1).drop_last() =~= given.take(done as int));
            assert(given.take(done + 1).last() == moved);
            assert(after.take(done + 1) =~= before.take(done as int).insert(at as int, moved));
            assert(after.skip(done + 1) =~= before.skip(done as int).skip(1));
            assert(given.skip(done + 1) =~= given.skip(done as int).skip(1));
        }
        done += 1;
    }
    proof {
        assert(changes.deep_view().take(count as int) =~= changes.deep_view());
        assert(given.take(count as int) =~= given);
        lemma_sort_is_descending(given);
        lemma_sort_keeps_lines(given);
        lemma_sort_permutes(given);
    }
}

} // verus!
