//! A file's content as a sequence of lines.

use vstd::prelude::*;
use vstd::std_specs::iter::IteratorSpec;

verus! {

/// How many characters stand before the first line feed of `text`, or in all
/// of `text` if it holds none.
pub open spec fn first_line_len(text: Seq<char>) -> nat
    decreases text.len(),
{
    if text.len() == 0 || text[0] == '\n' {
        0
    } else {
        1 + first_line_len(text.drop_first())
    }
}

/// `line` without the carriage return at its end, if it has one there.
pub open spec fn without_carriage_return(line: Seq<char>) -> Seq<char> {
    if line.len() > 0 && line.last() == '\r' {
        line.drop_last()
    } else {
        line
    }
}

/// The lines of a text. A line ends at a line feed, or at a carriage return
/// directly followed by one; neither belongs to the line. What stands behind
/// the last line feed is a line of its own unless it is empty.
pub open spec fn split_lines(text: Seq<char>) -> Seq<Seq<char>>
    decreases text.len(),
{
    let first = first_line_len(text);
    if text.len() == 0 {
        Seq::empty()
    } else if first >= text.len() {
        seq![text]
    } else {
        seq![without_carriage_return(text.take(first as int))] + split_lines(
            text.skip(first as int + 1),
        )
    }
}

/// The lines as one text, with a line feed between each two of them and none
/// at the end.
pub open spec fn join_lines(lines: Seq<Seq<char>>) -> Seq<char>
    decreases lines.len(),
{
    if lines.len() == 0 {
        Seq::empty()
    } else if lines.len() == 1 {
        lines[0]
    } else {
        lines[0] + seq!['\n'] + join_lines(lines.drop_first())
    }
}

/// Whether joining the lines and splitting the text again gives them back:
/// no line holds a line feed, none but the last ends in a carriage return,
/// and the last line is not empty.
pub open spec fn survives_round_trip(lines: Seq<Seq<char>>) -> bool {
    &&& forall|i: int, j: int|
        0 <= i < lines.len() && 0 <= j < lines[i].len() ==> lines[i][j] != '\n'
    &&& forall|i: int|
        0 <= i < lines.len() - 1 ==> without_carriage_return(#[trigger] lines[i]) == lines[i]
    &&& lines.len() > 0 ==> lines.last().len() > 0
}

/// Where the first line feed stands, there the first line ends.
pub proof fn lemma_first_line_len(text: Seq<char>, end: int)
    requires
        0 <= end <= text.len(),
        forall|i: int| 0 <= i < end ==> text[i] != '\n',
        end == text.len() || text[end] == '\n',
    ensures
        first_line_len(text) == end,
    decreases end,
{
    if end > 0 {
        let rest = text.drop_first();
        assert forall|i: int| 0 <= i < end - 1 implies rest[i] != '\n' by {
            assert(rest[i] == text[i + 1]);
        }
        lemma_first_line_len(rest, end - 1);
    }
}

/// Joining one more line puts a line feed and that line behind the text so
/// far; the first line comes without a line feed.
pub proof fn lemma_join_push(lines: Seq<Seq<char>>, line: Seq<char>)
    ensures
        join_lines(lines.push(line)) == if lines.len() == 0 {
            line
        } else {
            join_lines(lines) + seq!['\n'] + line
        },
    decreases lines.len(),
{
    let longer = lines.push(line);
    if lines.len() == 0 {
    } else if lines.len() == 1 {
        assert(longer.drop_first() =~= seq![line]);
        assert(join_lines(longer.drop_first()) == line);
        assert(longer[0] == lines[0]);
    } else {
        lemma_join_push(lines.drop_first(), line);
        assert(longer.drop_first() =~= lines.drop_first().push(line));
        assert(longer[0] == lines[0]);
        assert(join_lines(longer) =~= join_lines(lines) + seq!['\n'] + line);
    }
}

/// Writing lines out as one text and reading that text back gives the same
/// lines, for every sequence of lines that `survives_round_trip`.
pub proof fn lemma_round_trip(lines: Seq<Seq<char>>)
    requires
        survives_round_trip(lines),
    ensures
        split_lines(join_lines(lines)) == lines,
    decreases lines.len(),
{
    let text = join_lines(lines);
    if lines.len() == 0 {
    } else if lines.len() == 1 {
        assert(lines.last() == lines[0]);
        lemma_first_line_len(text, text.len() as int);
        assert(seq![text] =~= lines);
    } else {
        let rest = lines.drop_first();
        let end = lines[0].len() as int;
        assert(text[end] == '\n');
        assert forall|i: int| 0 <= i < end implies text[i] != '\n' by {
            assert(text[i] == lines[0][i]);
        }
        lemma_first_line_len(text, end);
        assert(text.take(end) =~= lines[0]);
        assert(text.skip(end + 1) =~= join_lines(rest));
        assert(rest.last() == lines.last());
        assert forall|i: int, j: int| 0 <= i < rest.len() && 0 <= j < rest[i].len() implies rest[i][j]
            != '\n' by {
            assert(rest[i] == lines[i + 1]);
        }
        assert forall|i: int| 0 <= i < rest.len() - 1 implies without_carriage_return(
            #[trigger] rest[i],
        ) == rest[i] by {
            assert(rest[i] == lines[i + 1]);
        }
        lemma_round_trip(rest);
        assert(seq![lines[0]] + rest =~= lines);
    }
}

/// The first line holds no line feed, and where it ends before the text
/// does, a line feed stands.
pub proof fn lemma_first_line_end(text: Seq<char>)
    ensures
        first_line_len(text) <= text.len(),
        forall|i: int| 0 <= i < first_line_len(text) ==> text[i] != '\n',
        first_line_len(text) < text.len() ==> text[first_line_len(text) as int] == '\n',
    decreases text.len(),
{
    if text.len() > 0 && text[0] != '\n' {
        let rest = text.drop_first();
        lemma_first_line_end(rest);
        assert forall|i: int| 0 <= i < first_line_len(text) implies text[i] != '\n' by {
            if i > 0 {
                assert(text[i] == rest[i - 1]);
            }
        }
        if first_line_len(text) < text.len() {
            assert(text[first_line_len(text) as int] == rest[first_line_len(rest) as int]);
        }
    }
}

/// No line read from a text holds a line feed.
pub proof fn lemma_split_lines_hold_no_line_feed(text: Seq<char>)
    ensures
        forall|i: int, j: int|
            0 <= i < split_lines(text).len() && 0 <= j < split_lines(text)[i].len()
                ==> split_lines(text)[i][j] != '\n',
    decreases text.len(),
{
    let first = first_line_len(text);
    lemma_first_line_end(text);
    if text.len() > 0 && first < text.len() {
        let rest = text.skip(first as int + 1);
        let head = without_carriage_return(text.take(first as int));
        lemma_split_lines_hold_no_line_feed(rest);
        assert forall|i: int, j: int|
            0 <= i < split_lines(text).len() && 0 <= j < split_lines(text)[i].len() implies split_lines(
            text,
        )[i][j] != '\n' by {
            if i == 0 {
                assert(split_lines(text)[0] == head);
                assert(head[j] == text[j]);
            } else {
                assert(split_lines(text)[i] == split_lines(rest)[i - 1]);
            }
        }
    }
}

/// Only lines that `survives_round_trip` admits come back as they were.
pub proof fn lemma_round_trip_only(lines: Seq<Seq<char>>)
    requires
        split_lines(join_lines(lines)) == lines,
    ensures
        survives_round_trip(lines),
    decreases lines.len(),
{
    let text = join_lines(lines);
    lemma_split_lines_hold_no_line_feed(text);
    if lines.len() == 1 {
        assert(lines.last() == lines[0]);
        if lines[0].len() == 0 {
            assert(split_lines(text).len() == 0);
        }
    } else if lines.len() >= 2 {
        let rest = lines.drop_first();
        let end = lines[0].len() as int;
        assert(text[end] == '\n');
        assert forall|i: int| 0 <= i < end implies text[i] != '\n' by {
            assert(text[i] == lines[0][i]);
        }
        lemma_first_line_len(text, end);
        assert(text.take(end) =~= lines[0]);
        assert(text.skip(end + 1) =~= join_lines(rest));
        let read = seq![without_carriage_return(lines[0])] + split_lines(join_lines(rest));
        assert(split_lines(text) == read);
        assert(read[0] == lines[0]);
        assert(read.drop_first() =~= split_lines(join_lines(rest)));
        lemma_round_trip_only(rest);
        assert(rest.last() == lines.last());
        assert forall|i: int| 0 <= i < lines.len() - 1 implies without_carriage_return(
            #[trigger] lines[i],
        ) == lines[i] by {
            if i > 0 {
                assert(lines[i] == rest[i - 1]);
            }
        }
    }
}

/// Lines come back from a round trip as they were exactly when they are
/// lines that `survives_round_trip` admits.
pub proof fn lemma_round_trip_exact(lines: Seq<Seq<char>>)
    ensures
        split_lines(join_lines(lines)) == lines <==> survives_round_trip(lines),
{
    if survives_round_trip(lines) {
        lemma_round_trip(lines);
    }
    if split_lines(join_lines(lines)) == lines {
        lemma_round_trip_only(lines);
    }
}

/// `String::push` of the standard library: puts one character at the end of
/// the text.
#[verifier::external_body]
fn push_char(text: &mut String, c: char)
    ensures
        final(text)@ == old(text)@.push(c),
{
    text.push(c);
}

/// The lines of one file, in order, counted from zero.
#[derive(Debug)]
pub struct LineSequence {
    pub lines: Vec<String>,
}

impl View for LineSequence {
    type V = Seq<Seq<char>>;

    open spec fn view(&self) -> Seq<Seq<char>> {
        self.lines.deep_view()
    }
}

impl LineSequence {
    /// A sequence with no lines.
    pub fn new() -> (store: LineSequence)
        ensures
            store@ == Seq::<Seq<char>>::empty(),
    {
        let store = LineSequence { lines: Vec::new() };
        assert(store@ =~= Seq::<Seq<char>>::empty());
        store
    }

    /// Takes the given lines as they are.
    pub fn from_lines(lines: Vec<String>) -> (store: LineSequence)
        ensures
            store@ == lines.deep_view(),
    {
        LineSequence { lines }
    }

    /// Reads the lines of a text, as `split_lines` says.
    pub fn from_text(text: &str) -> (store: LineSequence)
        ensures
            store@ == split_lines(text@),
    {
        let mut lines: Vec<String> = Vec::new();
        let mut current = String::new();
        let mut held = false;
        let mut chars = text.chars();
        let ghost mut start: int = 0;
        let ghost mut seen: int = 0;
        proof {
            assert(text@.skip(0) =~= text@);
            assert(lines.deep_view() + split_lines(text@) =~= split_lines(text@));
            assert(text@.subrange(0, 0) =~= Seq::empty());
        }
        loop
            invariant
                0 <= start <= seen <= text@.len(),
                chars.remaining() == text@.skip(seen),
                split_lines(text@) == lines.deep_view() + split_lines(text@.skip(start)),
                forall|i: int| start <= i < seen ==> text@[i] != '\n',
                text@.subrange(start, seen) == current@ + (if held {
                    seq!['\r']
                } else {
                    Seq::empty()
                }),
                !held ==> without_carriage_return(current@) == current@,
            ensures
                seen == text@.len(),
            decreases text@.len() - seen,
        {
            let ghost so_far = text@.subrange(start, seen);
            let next = chars.next();
            match next {
                None => {
                    break ;
                },
                Some(c) => {
                    proof {
                        assert(c == text@[seen]);
                        assert(text@.skip(seen).drop_first() =~= text@.skip(seen + 1));
                        assert(text@.subrange(start, seen + 1) =~= so_far.push(c));
                    }
                    if c == '\n' {
                        proof {
                            let rest = text@.skip(start);
                            assert forall|i: int| 0 <= i < seen - start implies rest[i]
                                != '\n' by {
                                assert(rest[i] == text@[start + i]);
                            }
                            lemma_first_line_len(rest, seen - start);
                            assert(rest.take(seen - start) =~= so_far);
                            assert(rest.skip(seen - start + 1) =~= text@.skip(seen + 1));
                            assert(without_carriage_return(so_far) =~= current@);
                            assert(lines.deep_view().push(current@) + split_lines(
                                text@.skip(seen + 1),
                            ) =~= lines.deep_view() + split_lines(rest));
                        }
                        let ghost listed = lines.deep_view();
                        let ghost line = current@;
                        lines.push(current);
                        current = String::new();
                        held = false;
                        proof {
                            assert(lines.deep_view() =~= listed.push(line));
                            start = seen + 1;
                            assert(text@.subrange(start, seen + 1) =~= Seq::empty());
                        }
                    } else {
                        if held {
                            push_char(&mut current, '\r');
                        }
                        if c == '\r' {
                            held = true;
                        } else {
                            held = false;
                            push_char(&mut current, c);
                        }
                        proof {
                            assert(text@.subrange(start, seen + 1) =~= current@ + (if held {
                                seq!['\r']
                            } else {
                                Seq::empty()
                            }));
                        }
                    }
                    proof {
                        seen = seen + 1;
                    }
                },
            }
        }
        let ghost rest = text@.skip(start);
        let ghost listed = lines.deep_view();
        if held {
            push_char(&mut current, '\r');
        }
        proof {
            assert(text@.subrange(start, seen) =~= rest);
            assert(current@ =~= rest);
        }
        if !current.as_str().is_empty() {
            proof {
                assert forall|i: int| 0 <= i < rest.len() implies rest[i] != '\n' by {
                    assert(rest[i] == text@[start + i]);
                }
                lemma_first_line_len(rest, rest.len() as int);
            }
            lines.push(current);
            proof {
                assert(lines.deep_view() =~= listed + split_lines(rest));
            }
        } else {
            proof {
                assert(lines.deep_view() =~= listed + split_lines(rest));
            }
        }
        LineSequence { lines }
    }

    /// Writes the lines out as one text, as `join_lines` says.
    pub fn to_text(&self) -> (text: String)
        ensures
            text@ == join_lines(self@),
    {
        let mut text = String::new();
        let mut done: usize = 0;
        proof {
            assert(self@.take(0) =~= Seq::empty());
        }
        while done < self.lines.len()
            invariant
                done <= self.lines.len(),
                text@ == join_lines(self@.take(done as int)),
            decreases self.lines.len() - done,
        {
            proof {
                lemma_join_push(self@.take(done as int), self@[done as int]);
                assert(self@.take(done + 1) =~= self@.take(done as int).push(self@[done as int]));
            }
            if done > 0 {
                push_char(&mut text, '\n');
            }
            text.append(self.lines[done].as_str());
            done += 1;
        }
        proof {
            assert(self@.take(self.lines.len() as int) =~= self@);
        }
        text
    }

    /// The number of lines.
    pub fn len(&self) -> (count: usize)
        ensures
            count == self@.len(),
    {
        self.lines.len()
    }

    /// Whether there is no line at all.
    pub fn is_empty(&self) -> (empty: bool)
        ensures
            empty == (self@.len() == 0),
    {
        self.lines.len() == 0
    }

    /// The text of line `index`, if the sequence has such a line.
    pub fn line(&self, index: usize) -> (text: Option<&str>)
        ensures
            match text {
                Some(t) => index < self@.len() && t@ == self@[index as int],
                None => index >= self@.len(),
            },
    {
        if index < self.lines.len() {
            Some(self.lines[index].as_str())
        } else {
            None
        }
    }
}

} // verus!
