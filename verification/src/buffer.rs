//! The document: an ordered collection of lines, with location-addressed
//! structural edits (insert a character, delete a grapheme or merge lines,
//! break a line in two) and construction from decoded text.

use crate::line::{
    frags_of, insert_text, line_text, remove_text, wf_frags, FragModel, Line,
};
use crate::unicode::push_char;
use crate::view::Location;
use vstd::prelude::*;

verus! {

/// All lines of the buffer model are well formed.
pub open spec fn buf_wf(bm: Seq<Seq<FragModel>>) -> bool {
    forall|i: int| 0 <= i < bm.len() ==> wf_frags(#[trigger] bm[i])
}

/// The grapheme count of line `i`, or zero when there is no such line.
pub open spec fn count_at(bm: Seq<Seq<FragModel>>, i: nat) -> nat {
    if i < bm.len() {
        bm[i as int].len()
    } else {
        0
    }
}

/// The buffer after inserting character `c` at line `li`, grapheme `gi`: one
/// past the last line appends a new line holding just `c`, an existing line
/// has `c` inserted at `gi`, and anything further out is a no-op.
pub open spec fn buf_insert(bm: Seq<Seq<FragModel>>, li: nat, gi: nat, c: char) -> Seq<
    Seq<FragModel>,
> {
    if li > bm.len() {
        bm
    } else if li == bm.len() {
        bm.push(frags_of(seq![c]))
    } else {
        bm.update(li as int, frags_of(insert_text(bm[li as int], c, gi)))
    }
}

/// The buffer after a forward delete at line `li`, grapheme `gi`: at or past
/// the end of an existing line with a following line, the following line is
/// merged in; within the line, the grapheme at `gi` is removed; otherwise a
/// no-op.
pub open spec fn buf_delete(bm: Seq<Seq<FragModel>>, li: nat, gi: nat) -> Seq<Seq<FragModel>> {
    if li >= bm.len() {
        bm
    } else if gi >= bm[li as int].len() && bm.len() > li + 1 {
        bm.update(li as int, frags_of(line_text(bm[li as int]) + line_text(bm[li as int + 1])))
            .remove(li as int + 1)
    } else if gi < bm[li as int].len() {
        bm.update(li as int, frags_of(remove_text(bm[li as int], gi)))
    } else {
        bm
    }
}

/// The buffer after breaking line `li` at grapheme `gi`: the suffix of the
/// line becomes a new line right after it. A `gi` past the end inserts an
/// empty line; a `li` with no line is a no-op.
pub open spec fn buf_insert_line(bm: Seq<Seq<FragModel>>, li: nat, gi: nat) -> Seq<
    Seq<FragModel>,
> {
    if li >= bm.len() {
        bm
    } else if gi > bm[li as int].len() {
        bm.insert(li as int + 1, Seq::<FragModel>::empty())
    } else {
        bm.update(li as int, bm[li as int].take(gi as int)).insert(
            li as int + 1,
            bm[li as int].skip(gi as int),
        )
    }
}

/// The first index of a newline in `s`, or `s.len()` when there is none.
pub open spec fn find_nl(s: Seq<char>) -> nat
    decreases s.len(),
{
    if s.len() == 0 {
        0
    } else if s[0] == '\n' {
        0
    } else {
        1 + find_nl(s.drop_first())
    }
}

/// A line segment with a trailing carriage return removed.
pub open spec fn strip_cr(s: Seq<char>) -> Seq<char> {
    if s.len() > 0 && s.last() == '\r' {
        s.drop_last()
    } else {
        s
    }
}

/// The line segments of a text: split at each newline, a carriage return
/// directly before a newline stripped, and no final empty segment for a
/// trailing newline.
pub open spec fn lines_of(s: Seq<char>) -> Seq<Seq<char>>
    decreases s.len(),
{
    if s.len() == 0 {
        Seq::empty()
    } else {
        let i = find_nl(s) as int;
        if i < s.len() {
            seq![strip_cr(s.take(i))] + lines_of(s.skip(i + 1))
        } else {
            seq![s]
        }
    }
}

/// `find_nl` finds the position of the first newline.
proof fn lemma_find_nl_at(t: Seq<char>, j: int)
    requires
        0 <= j < t.len(),
        t[j] == '\n',
        forall|m: int| 0 <= m < j ==> t[m] != '\n',
    ensures
        find_nl(t) == j,
    decreases j,
{
    if j > 0 {
        assert(t[0] != '\n');
        lemma_find_nl_at(t.drop_first(), j - 1);
    }
}

/// Without a newline, `find_nl` runs to the end.
proof fn lemma_find_nl_none(t: Seq<char>)
    requires
        forall|m: int| 0 <= m < t.len() ==> t[m] != '\n',
    ensures
        find_nl(t) >= t.len(),
    decreases t.len(),
{
    if t.len() > 0 {
        lemma_find_nl_none(t.drop_first());
    }
}

/// Mapping the line view over an updated line sequence updates the mapped
/// sequence.
proof fn lemma_map_view_update(lines: Seq<Line>, li: int, l: Line)
    requires
        0 <= li < lines.len(),
    ensures
        lines.update(li, l).map_values(|x: Line| x@) == lines.map_values(|x: Line| x@).update(
            li,
            l@,
        ),
{
    assert(lines.update(li, l).map_values(|x: Line| x@) =~= lines.map_values(
        |x: Line| x@,
    ).update(li, l@));
}

/// The ordered lines of the document.
pub struct Buffer {
    pub lines: Vec<Line>,
}

impl View for Buffer {
    type V = Seq<Seq<FragModel>>;

    open spec fn view(&self) -> Seq<Seq<FragModel>> {
        self.lines@.map_values(|l: Line| l@)
    }
}

impl Default for Buffer {
    /// The empty buffer, distinct from a buffer with one empty line.
    fn default() -> (r: Buffer)
        ensures
            r@ =~= Seq::<Seq<FragModel>>::empty(),
            r.wf(),
    {
        Buffer { lines: Vec::new() }
    }
}

impl Buffer {
    /// Every line of the buffer is well formed.
    pub open spec fn wf(&self) -> bool {
        buf_wf(self@)
    }

    /// Whether the buffer has no lines at all.
    pub fn is_empty(&self) -> (r: bool)
        ensures
            r == (self@.len() == 0),
    {
        self.lines.is_empty()
    }

    /// The number of lines.
    pub fn height(&self) -> (r: usize)
        ensures
            r as nat == self@.len(),
    {
        self.lines.len()
    }

    /// Builds a buffer from decoded text: one line per line segment of the
    /// text.
    pub fn load(text: &str) -> (r: Buffer)
        ensures
            r@ == lines_of(text@).map_values(|t: Seq<char>| frags_of(t)),
            forall|i: int| 0 <= i < r@.len() ==> line_text(#[trigger] r@[i]) == lines_of(text@)[i],
            r.wf(),
    {
        let n = text.unicode_len();
        let mut lines: Vec<Line> = Vec::new();
        let ghost mut done: Seq<Seq<char>> = Seq::empty();
        let mut start: usize = 0;
        let mut i: usize = 0;
        proof {
            assert(text@.skip(0) =~= text@);
            assert(done + lines_of(text@) =~= lines_of(text@));
        }
        while i < n
            invariant
                n == text@.len(),
                start <= i <= n,
                lines@.map_values(|l: Line| l@) == done.map_values(|t: Seq<char>| frags_of(t)),
                forall|j: int| 0 <= j < lines@.len() ==> line_text(#[trigger] lines@[j]@)
                    == done[j],
                forall|j: int| 0 <= j < lines@.len() ==> wf_frags(#[trigger] lines@[j]@),
                lines_of(text@) == done + lines_of(text@.skip(start as int)),
                forall|m: int| start <= m < i ==> text@[m] != '\n',
            decreases n - i,
        {
            if text.get_char(i) == '\n' {
                let stop = if i > start && text.get_char(i - 1) == '\r' {
                    i - 1
                } else {
                    i
                };
                let segment_text = text.substring_char(start, stop);
                let line = Line::from(segment_text);
                proof {
                    let t = text@.skip(start as int);
                    lemma_find_nl_at(t, i - start);
                    assert(t.take(i - start) =~= text@.subrange(start as int, i as int));
                    assert(t.skip(i - start + 1) =~= text@.skip(i + 1));
                    assert(strip_cr(text@.subrange(start as int, i as int)) =~= text@.subrange(
                        start as int,
                        stop as int,
                    ));
                    assert(lines_of(t) == seq![segment_text@] + lines_of(text@.skip(i + 1)));
                    assert(done + lines_of(t) =~= done.push(segment_text@) + lines_of(
                        text@.skip(i + 1),
                    ));
                    let lhs = lines@.push(line).map_values(|l: Line| l@);
                    let rhs = done.push(segment_text@).map_values(
                        |t2: Seq<char>| frags_of(t2),
                    );
                    assert(lines@.map_values(|l: Line| l@).len() == done.map_values(
                        |t2: Seq<char>| frags_of(t2),
                    ).len());
                    assert forall|j: int| 0 <= j < lhs.len() implies lhs[j] == rhs[j] by {
                        if j < lines@.len() {
                            assert(lines@.map_values(|l: Line| l@)[j] == done.map_values(
                                |t2: Seq<char>| frags_of(t2),
                            )[j]);
                        }
                    }
                    assert(lhs =~= rhs);
                }
                lines.push(line);
                proof {
                    done = done.push(segment_text@);
                }
                start = i + 1;
            }
            i = i + 1;
        }
        if start < n {
            let segment_text = text.substring_char(start, n);
            let line = Line::from(segment_text);
            proof {
                let t = text@.skip(start as int);
                lemma_find_nl_none(t);
                assert(t =~= text@.subrange(start as int, n as int));
                assert(t.len() > 0);
                assert(lines_of(t) == seq![t]);
                assert(done + lines_of(t) =~= done.push(segment_text@));
                let lhs = lines@.push(line).map_values(|l: Line| l@);
                let rhs = done.push(segment_text@).map_values(|t2: Seq<char>| frags_of(t2));
                assert(lines@.map_values(|l: Line| l@).len() == done.map_values(
                    |t2: Seq<char>| frags_of(t2),
                ).len());
                assert forall|j: int| 0 <= j < lhs.len() implies lhs[j] == rhs[j] by {
                    if j < lines@.len() {
                        assert(lines@.map_values(|l: Line| l@)[j] == done.map_values(
                            |t2: Seq<char>| frags_of(t2),
                        )[j]);
                    }
                }
                assert(lhs =~= rhs);
            }
            lines.push(line);
            proof {
                done = done.push(segment_text@);
            }
        } else {
            proof {
                assert(text@.skip(start as int).len() == 0);
                assert(lines_of(text@.skip(start as int)) == Seq::<Seq<char>>::empty());
                assert(done + lines_of(text@.skip(start as int)) =~= done);
            }
        }
        let r = Buffer { lines };
        proof {
            assert(r@ =~= lines_of(text@).map_values(|t: Seq<char>| frags_of(t)));
        }
        r
    }

    /// Inserts `character` at `at`: appends a new line when addressed one
    /// past the last line, inserts into the addressed line when it exists,
    /// and otherwise does nothing.
    pub fn insert_char(&mut self, character: char, at: &Location)
        ensures
            final(self)@ == buf_insert(
                old(self)@,
                at.line_index as nat,
                at.grapheme_index as nat,
                character,
            ),
            old(self).wf() ==> final(self).wf(),
    {
        let ghost bm = self@;
        if at.line_index > self.lines.len() {
            return ;
        }
        if at.line_index == self.lines.len() {
            let mut s = String::new();
            push_char(&mut s, character);
            proof {
                assert(s@ =~= seq![character]);
            }
            let line = Line::from(s.as_str());
            proof {
                assert(self.lines@.push(line).map_values(|x: Line| x@) =~= bm.push(
                    frags_of(seq![character]),
                ));
            }
            self.lines.push(line);
        } else {
            let mut line = self.lines.remove(at.line_index);
            line.insert_character(character, at.grapheme_index);
            self.lines.insert(at.line_index, line);
            proof {
                assert(self.lines@ =~= old(self).lines@.update(at.line_index as int, line));
                lemma_map_view_update(old(self).lines@, at.line_index as int, line);
            }
        }
    }

    /// A forward delete at `at`: merges the following line in when `at` is at
    /// or past the end of its line, removes the addressed grapheme when it is
    /// within the line, and otherwise does nothing.
    pub fn delete(&mut self, at: &Location)
        ensures
            final(self)@ == buf_delete(old(self)@, at.line_index as nat, at.grapheme_index as nat),
            old(self).wf() ==> final(self).wf(),
    {
        let ghost bm = self@;
        if at.line_index < self.lines.len() {
            let count = self.lines[at.line_index].grapheme_count();
            let next_index = at.line_index.saturating_add(1);
            if at.grapheme_index >= count && self.lines.len() > next_index {
                let next_line = self.lines.remove(next_index);
                let mut line = self.lines.remove(at.line_index);
                line.append(&next_line);
                self.lines.insert(at.line_index, line);
                proof {
                    let li = at.line_index as int;
                    assert(next_line@ == bm[li + 1]);
                    assert(self.lines@ =~= old(self).lines@.update(li, line).remove(li + 1));
                    assert(self@ =~= bm.update(
                        li,
                        frags_of(line_text(bm[li]) + line_text(bm[li + 1])),
                    ).remove(li + 1));
                }
            } else if at.grapheme_index < count {
                let mut line = self.lines.remove(at.line_index);
                line.delete(at.grapheme_index);
                self.lines.insert(at.line_index, line);
                proof {
                    assert(self.lines@ =~= old(self).lines@.update(at.line_index as int, line));
                    lemma_map_view_update(old(self).lines@, at.line_index as int, line);
                }
            }
        }
    }

    /// Breaks the line at `at.line_index` at grapheme `at.grapheme_index` and
    /// inserts the suffix as a new line right after it.
    pub fn insert_line(&mut self, at: &Location)
        ensures
            final(self)@ == buf_insert_line(
                old(self)@,
                at.line_index as nat,
                at.grapheme_index as nat,
            ),
            old(self).wf() ==> final(self).wf(),
    {
        let ghost bm = self@;
        if at.line_index < self.lines.len() {
            let mut line = self.lines.remove(at.line_index);
            let rest = line.split_at(at.grapheme_index);
            self.lines.insert(at.line_index, line);
            let next_index = at.line_index.saturating_add(1);
            self.lines.insert(next_index, rest);
            proof {
                let li = at.line_index as int;
                assert(self.lines@ =~= old(self).lines@.update(li, line).insert(li + 1, rest));
                if at.grapheme_index as nat > bm[li].len() {
                    assert(self@ =~= bm.insert(li + 1, Seq::<FragModel>::empty()));
                } else {
                    assert(self@ =~= bm.update(li, bm[li].take(at.grapheme_index as int)).insert(
                        li + 1,
                        bm[li].skip(at.grapheme_index as int),
                    ));
                }
            }
        }
    }
}

} // verus!
