//! One row of text, decomposed into Unicode grapheme-cluster fragments, each
//! carrying a rendered width (one or two columns) and an optional display
//! substitution. The stored text is always the concatenation of the fragment
//! graphemes; substitutions affect rendering only.

use crate::clamp::{min_nat, sat_add, sat_sub};
use crate::unicode::{
    check_has_control, check_has_whitespace, concat_texts, graphemes_of, has_control,
    has_whitespace, push_char, segment, str_width, width_of,
};
use std::ops::Range;
use vstd::prelude::*;

verus! {

/// How many columns a grapheme cluster occupies on screen.
#[derive(Clone, Copy, PartialEq, Eq, Structural, Debug)]
pub enum GraphemeWidth {
    Half,
    Full,
}

impl GraphemeWidth {
    /// The number of screen cells of this width.
    pub open spec fn cells(self) -> nat {
        match self {
            GraphemeWidth::Half => 1,
            GraphemeWidth::Full => 2,
        }
    }

    /// Adds this width to a running cell position, clamped at `usize::MAX`.
    pub fn saturating_add(self, other: usize) -> (r: usize)
        ensures
            r as nat == sat_add(other as nat, self.cells()),
    {
        match self {
            GraphemeWidth::Half => other.saturating_add(1),
            GraphemeWidth::Full => other.saturating_add(2),
        }
    }
}

/// The mathematical model of a fragment: its grapheme's characters, its
/// rendered width, and its optional display substitution.
#[verifier::ext_equal]
pub struct FragModel {
    pub grapheme: Seq<char>,
    pub rendered_width: GraphemeWidth,
    pub replacement: Option<char>,
}

/// One grapheme cluster of a line, with display metadata.
pub struct TextFragment {
    pub grapheme: String,
    pub rendered_width: GraphemeWidth,
    pub replacement: Option<char>,
}

impl View for TextFragment {
    type V = FragModel;

    open spec fn view(&self) -> FragModel {
        FragModel {
            grapheme: self.grapheme@,
            rendered_width: self.rendered_width,
            replacement: self.replacement,
        }
    }
}

/// The rendered width assigned to a grapheme cluster: displayed width zero or
/// one takes a single cell, anything wider takes two.
pub open spec fn frag_width(g: Seq<char>) -> GraphemeWidth {
    if width_of(g) <= 1 {
        GraphemeWidth::Half
    } else {
        GraphemeWidth::Full
    }
}

/// The display substitution assigned to a grapheme cluster: a visible space
/// marker for whitespace other than plain space or tab, a visible control
/// marker for control characters other than tab, a placeholder dot for
/// zero-width clusters, and none otherwise.
pub open spec fn frag_replacement(g: Seq<char>) -> Option<char> {
    if has_whitespace(g) && g != seq![' '] && g != seq!['\t'] {
        Some('\u{2423}')
    } else if has_control(g) && g != seq!['\t'] {
        Some('\u{25af}')
    } else if width_of(g) == 0 {
        Some('.')
    } else {
        None
    }
}

/// The fragment a grapheme cluster maps to.
pub open spec fn frag_of(g: Seq<char>) -> FragModel {
    FragModel { grapheme: g, rendered_width: frag_width(g), replacement: frag_replacement(g) }
}

/// The fragments of a text: its grapheme clusters, each through `frag_of`.
pub open spec fn frags_of(s: Seq<char>) -> Seq<FragModel> {
    graphemes_of(s).map_values(|g: Seq<char>| frag_of(g))
}

/// The text a fragment sequence stores: the concatenation of its graphemes.
pub open spec fn line_text(fs: Seq<FragModel>) -> Seq<char>
    decreases fs.len(),
{
    if fs.len() == 0 {
        Seq::empty()
    } else {
        fs[0].grapheme + line_text(fs.drop_first())
    }
}

/// A fragment is well formed when its metadata is the one its grapheme maps
/// to and its grapheme is non-empty.
pub open spec fn wf_frag(f: FragModel) -> bool {
    &&& f == frag_of(f.grapheme)
    &&& f.grapheme.len() > 0
}

/// All fragments of the sequence are well formed.
pub open spec fn wf_frags(fs: Seq<FragModel>) -> bool {
    forall|i: int| 0 <= i < fs.len() ==> wf_frag(#[trigger] fs[i])
}

/// The text inserted with character `c` at grapheme position `k` (clamped to
/// the end): the text of the first `k` fragments, then `c`, then the rest.
pub open spec fn insert_text(fs: Seq<FragModel>, c: char, k: nat) -> Seq<char> {
    let m = min_nat(k, fs.len()) as int;
    line_text(fs.take(m)) + seq![c] + line_text(fs.skip(m))
}

/// The text with the grapheme at position `k` removed; out of range leaves
/// the text unchanged.
pub open spec fn remove_text(fs: Seq<FragModel>, k: nat) -> Seq<char> {
    if k < fs.len() {
        line_text(fs.take(k as int)) + line_text(fs.skip(k as int + 1))
    } else {
        line_text(fs)
    }
}

/// Total rendered width of a fragment sequence, accumulated left to right
/// with clamping at `usize::MAX`.
pub open spec fn wsum(fs: Seq<FragModel>) -> nat
    decreases fs.len(),
{
    if fs.len() == 0 {
        0
    } else {
        sat_add(wsum(fs.drop_last()), fs.last().rendered_width.cells())
    }
}

/// The screen column of grapheme position `k`: the total rendered width of
/// the fragments before it (`k` clamped to the fragment count).
pub open spec fn width_until_spec(fs: Seq<FragModel>, k: nat) -> nat {
    wsum(fs.take(min_nat(k, fs.len()) as int))
}

/// The characters rendered for the screen-column range `[start, end)`,
/// walking fragments from cell position `pos`: a fragment wholly inside the
/// range shows its substitution or its grapheme, one straddling a boundary
/// shows a single ellipsis marker, and the rest are skipped.
pub open spec fn visible_cells(fs: Seq<FragModel>, pos: nat, start: nat, end: nat) -> Seq<char>
    decreases fs.len(),
{
    if fs.len() == 0 || pos >= end {
        Seq::empty()
    } else {
        let f = fs[0];
        let fragment_end = sat_add(pos, f.rendered_width.cells());
        let piece = if fragment_end > start {
            if fragment_end > end || pos < start {
                seq!['\u{22ef}']
            } else if f.replacement is Some {
                seq![f.replacement.unwrap()]
            } else {
                f.grapheme
            }
        } else {
            Seq::empty()
        };
        piece + visible_cells(fs.drop_first(), fragment_end, start, end)
    }
}

/// What `get_visible_graphemes` returns for `[start, end)`: empty when the
/// range is, the fragment walk otherwise.
pub open spec fn visible_text(fs: Seq<FragModel>, start: nat, end: nat) -> Seq<char> {
    if start >= end {
        Seq::empty()
    } else {
        visible_cells(fs, 0, start, end)
    }
}

/// The text of a single fragment is its grapheme.
pub proof fn lemma_line_text_one(f: FragModel)
    ensures
        line_text(seq![f]) == f.grapheme,
{
    assert(seq![f].drop_first() =~= Seq::<FragModel>::empty());
    assert(line_text(Seq::<FragModel>::empty()) == Seq::<char>::empty());
    assert(line_text(seq![f]) == seq![f][0].grapheme + line_text(seq![f].drop_first()));
    assert(line_text(seq![f]) =~= f.grapheme);
}

/// `line_text` distributes over concatenation.
pub proof fn lemma_line_text_concat(a: Seq<FragModel>, b: Seq<FragModel>)
    ensures
        line_text(a + b) == line_text(a) + line_text(b),
    decreases a.len(),
{
    if a.len() == 0 {
        assert(a + b =~= b);
        assert(line_text(a) + line_text(b) =~= line_text(b));
    } else {
        lemma_line_text_concat(a.drop_first(), b);
        assert((a + b).drop_first() =~= a.drop_first() + b);
        assert(line_text(a) + line_text(b) =~= a[0].grapheme + (line_text(a.drop_first())
            + line_text(b)));
    }
}

/// Splitting a fragment sequence at any point splits its text: the prefix
/// text followed by the suffix text is the original text. Together with the
/// contracts of `split_at` and `append`, splitting a line and appending the
/// returned suffix back restores the original text.
pub proof fn lemma_split_append_text(fs: Seq<FragModel>, k: int)
    requires
        0 <= k <= fs.len(),
    ensures
        line_text(fs.take(k)) + line_text(fs.skip(k)) == line_text(fs),
{
    assert(fs.take(k) + fs.skip(k) =~= fs);
    lemma_line_text_concat(fs.take(k), fs.skip(k));
}

/// The text of the fragments of a grapheme sequence is its concatenation.
pub proof fn lemma_line_text_frags(gs: Seq<Seq<char>>)
    ensures
        line_text(gs.map_values(|g: Seq<char>| frag_of(g))) == concat_texts(gs),
    decreases gs.len(),
{
    let fs = gs.map_values(|g: Seq<char>| frag_of(g));
    if gs.len() == 0 {
        assert(line_text(fs) =~= concat_texts(gs));
    } else {
        lemma_line_text_frags(gs.drop_first());
        assert(fs.drop_first() =~= gs.drop_first().map_values(|g: Seq<char>| frag_of(g)));
        assert(line_text(fs) =~= concat_texts(gs));
    }
}

/// A clamped accumulation never exceeds `usize::MAX`.
pub proof fn lemma_wsum_bound(fs: Seq<FragModel>)
    ensures
        wsum(fs) <= usize::MAX as nat,
    decreases fs.len(),
{
    if fs.len() > 0 {
        lemma_wsum_bound(fs.drop_last());
    }
}

/// `width_until_spec` is non-decreasing in the grapheme position: moving the
/// position right never moves the screen column left.
pub proof fn lemma_width_until_monotone(fs: Seq<FragModel>, i: nat, j: nat)
    requires
        i <= j,
    ensures
        width_until_spec(fs, i) <= width_until_spec(fs, j),
{
    let a = min_nat(i, fs.len()) as int;
    let b = min_nat(j, fs.len()) as int;
    lemma_wsum_take_monotone(fs, a, b);
}

/// Widths of prefixes grow with the prefix.
proof fn lemma_wsum_take_monotone(fs: Seq<FragModel>, a: int, b: int)
    requires
        0 <= a <= b <= fs.len(),
    ensures
        wsum(fs.take(a)) <= wsum(fs.take(b)),
    decreases b - a,
{
    if a < b {
        lemma_wsum_take_monotone(fs, a, b - 1);
        lemma_wsum_bound(fs.take(b - 1));
        assert(fs.take(b).drop_last() =~= fs.take(b - 1));
        assert(wsum(fs.take(b)) == sat_add(
            wsum(fs.take(b - 1)),
            fs.take(b).last().rendered_width.cells(),
        ));
    }
}

/// Decides whether the cluster `g` is exactly the single character `c`.
fn is_single_char(g: &str, c: char) -> (r: bool)
    ensures
        r == (g@ == seq![c]),
{
    let n = g.unicode_len();
    if n == 1 && g.get_char(0) == c {
        proof {
            assert(g@ =~= seq![c]);
        }
        true
    } else {
        proof {
            if g@ == seq![c] {
                assert(g@.len() == 1 && g@[0] == c);
            }
        }
        false
    }
}

/// Computes the display substitution of the cluster `g`, whose displayed
/// width is `w`.
fn replacement_for(g: &str, w: usize) -> (r: Option<char>)
    requires
        w as nat == width_of(g@),
    ensures
        r == frag_replacement(g@),
{
    let is_space = is_single_char(g, ' ');
    let is_tab = is_single_char(g, '\t');
    if check_has_whitespace(g) && !is_space && !is_tab {
        Some('\u{2423}')
    } else if check_has_control(g) && !is_tab {
        Some('\u{25af}')
    } else if w == 0 {
        Some('.')
    } else {
        None
    }
}

/// A row of text as a sequence of grapheme-cluster fragments. Its view is the
/// sequence of fragment models; its stored text is their concatenation.
pub struct Line {
    pub fragments: Vec<TextFragment>,
}

impl View for Line {
    type V = Seq<FragModel>;

    open spec fn view(&self) -> Seq<FragModel> {
        self.fragments@.map_values(|f: TextFragment| f@)
    }
}

impl Default for Line {
    /// The empty line.
    fn default() -> (r: Line)
        ensures
            r@ =~= Seq::<FragModel>::empty(),
            r.wf(),
    {
        Line { fragments: Vec::new() }
    }
}

impl Line {
    /// The line's stored text.
    pub open spec fn text(&self) -> Seq<char> {
        line_text(self@)
    }

    /// Every fragment carries the metadata of its grapheme.
    pub open spec fn wf(&self) -> bool {
        wf_frags(self@)
    }

    /// Segments `line_str` into grapheme-cluster fragments. The stored text
    /// equals `line_str` and the fragment count equals the number of extended
    /// grapheme clusters of `line_str`.
    pub fn from(line_str: &str) -> (r: Line)
        ensures
            r@ == frags_of(line_str@),
            r@.len() == graphemes_of(line_str@).len(),
            r.text() == line_str@,
            r.wf(),
    {
        Line { fragments: str_to_fragments(line_str) }
    }

    /// The number of grapheme clusters in the line.
    pub fn grapheme_count(&self) -> (r: usize)
        ensures
            r as nat == self@.len(),
    {
        self.fragments.len()
    }

    /// The stored text of the line, reassembled from its fragments.
    pub fn to_string(&self) -> (r: String)
        ensures
            r@ == self.text(),
    {
        let mut result = String::new();
        let mut i: usize = 0;
        while i < self.fragments.len()
            invariant
                i <= self.fragments.len(),
                result@ == line_text(self@.take(i as int)),
            decreases self.fragments.len() - i,
        {
            result.append(self.fragments[i].grapheme.as_str());
            proof {
                assert(self@.take(i + 1) =~= self@.take(i as int) + seq![self@[i as int]]);
                lemma_line_text_concat(self@.take(i as int), seq![self@[i as int]]);
                lemma_line_text_one(self@[i as int]);
            }
            i = i + 1;
        }
        proof {
            assert(self@.take(self@.len() as int) =~= self@);
        }
        result
    }

    /// The screen column at which grapheme position `grapheme_index` starts:
    /// the summed rendered widths of the fragments before it.
    pub fn width_until(&self, grapheme_index: usize) -> (r: usize)
        ensures
            r as nat == width_until_spec(self@, grapheme_index as nat),
    {
        let limit = if grapheme_index < self.fragments.len() {
            grapheme_index
        } else {
            self.fragments.len()
        };
        let mut acc: usize = 0;
        let mut i: usize = 0;
        while i < limit
            invariant
                limit as nat == min_nat(grapheme_index as nat, self@.len()),
                i <= limit,
                limit <= self.fragments.len(),
                acc as nat == wsum(self@.take(i as int)),
            decreases limit - i,
        {
            acc = self.fragments[i].rendered_width.saturating_add(acc);
            proof {
                assert(self@.take(i + 1).drop_last() =~= self@.take(i as int));
                assert(self@.take(i + 1).last() == self@[i as int]);
            }
            i = i + 1;
        }
        acc
    }

    /// Renders the screen-column range `[range.start, range.end)` of the
    /// line: fragments inside the range show their substitution or grapheme,
    /// fragments straddling a boundary show an ellipsis marker.
    pub fn get_visible_graphemes(&self, range: Range<usize>) -> (r: String)
        ensures
            r@ == visible_text(self@, range.start as nat, range.end as nat),
    {
        let start = range.start;
        let end = range.end;
        let mut result = String::new();
        if start >= end {
            return result;
        }
        let mut current_pos: usize = 0;
        let mut k: usize = 0;
        proof {
            assert(self@.skip(0) =~= self@);
            assert(result@ + visible_cells(self@, 0, start as nat, end as nat) =~= visible_cells(
                self@,
                0,
                start as nat,
                end as nat,
            ));
        }
        while k < self.fragments.len() && current_pos < end
            invariant
                k <= self.fragments.len(),
                start < end,
                result@ + visible_cells(
                    self@.skip(k as int),
                    current_pos as nat,
                    start as nat,
                    end as nat,
                ) == visible_cells(self@, 0, start as nat, end as nat),
            decreases self.fragments.len() - k,
        {
            let ghost fs = self@;
            let ghost pos0 = current_pos as nat;
            let ghost prev = result@;
            let fragment = &self.fragments[k];
            let fragment_end = fragment.rendered_width.saturating_add(current_pos);
            let ghost piece = if fragment_end as nat > start {
                if fragment_end as nat > end || pos0 < start {
                    seq!['\u{22ef}']
                } else if fs[k as int].replacement is Some {
                    seq![fs[k as int].replacement.unwrap()]
                } else {
                    fs[k as int].grapheme
                }
            } else {
                Seq::<char>::empty()
            };
            if fragment_end > start {
                if fragment_end > end || current_pos < start {
                    push_char(&mut result, '\u{22ef}');
                } else if let Some(c) = fragment.replacement {
                    push_char(&mut result, c);
                } else {
                    result.append(fragment.grapheme.as_str());
                }
            }
            proof {
                assert(result@ =~= prev + piece);
                assert(fs.skip(k as int)[0] == fs[k as int]);
                assert(fs.skip(k as int).drop_first() =~= fs.skip(k + 1));
                assert(visible_cells(fs.skip(k as int), pos0, start as nat, end as nat) == piece
                    + visible_cells(fs.skip(k + 1), fragment_end as nat, start as nat, end as nat));
                assert((prev + piece) + visible_cells(
                    fs.skip(k + 1),
                    fragment_end as nat,
                    start as nat,
                    end as nat,
                ) =~= prev + visible_cells(fs.skip(k as int), pos0, start as nat, end as nat));
            }
            current_pos = fragment_end;
            k = k + 1;
        }
        proof {
            if k == self.fragments.len() {
                assert(self@.skip(k as int) =~= Seq::<FragModel>::empty());
            }
            assert(visible_cells(
                self@.skip(k as int),
                current_pos as nat,
                start as nat,
                end as nat,
            ) == Seq::<char>::empty());
            assert(result@ =~= result@ + Seq::<char>::empty());
        }
        result
    }

    /// Truncates the line to the fragments before `grapheme_index` and
    /// returns a new line holding the rest; an index past the end leaves the
    /// line unchanged and returns an empty line.
    pub fn split_at(&mut self, grapheme_index: usize) -> (r: Line)
        ensures
            grapheme_index <= old(self)@.len() ==> final(self)@ == old(self)@.take(
                grapheme_index as int,
            ) && r@ == old(self)@.skip(grapheme_index as int),
            grapheme_index > old(self)@.len() ==> final(self)@ == old(self)@ && r@ == Seq::<
                FragModel,
            >::empty(),
            old(self).wf() ==> final(self).wf() && r.wf(),
    {
        if grapheme_index > self.fragments.len() {
            Line::default()
        } else {
            let ghost fs = self@;
            let remainder = self.fragments.split_off(grapheme_index);
            let r = Line { fragments: remainder };
            proof {
                assert(self@ =~= fs.take(grapheme_index as int));
                assert(r@ =~= fs.skip(grapheme_index as int));
                if wf_frags(fs) {
                    assert forall|i: int| 0 <= i < self@.len() implies wf_frag(
                        #[trigger] self@[i],
                    ) by {
                        assert(self@[i] == fs[i]);
                    }
                    assert forall|i: int| 0 <= i < r@.len() implies wf_frag(#[trigger] r@[i]) by {
                        assert(r@[i] == fs[i + grapheme_index]);
                    }
                }
            }
            r
        }
    }

    /// Inserts `character` at grapheme position `grapheme_index` (appended
    /// when the position is at or past the end) and re-segments the resulting
    /// text, since an inserted character can merge with or split neighbouring
    /// clusters.
    pub fn insert_character(&mut self, character: char, grapheme_index: usize)
        ensures
            final(self)@ == frags_of(insert_text(old(self)@, character, grapheme_index as nat)),
            final(self).text() == insert_text(old(self)@, character, grapheme_index as nat),
            final(self).wf(),
    {
        let ghost fs = self@;
        let ghost m = min_nat(grapheme_index as nat, fs.len()) as int;
        let mut result = String::new();
        let mut i: usize = 0;
        while i < self.fragments.len()
            invariant
                fs == self@,
                m == min_nat(grapheme_index as nat, fs.len()) as int,
                i <= self.fragments.len(),
                i <= grapheme_index ==> result@ == line_text(fs.take(i as int)),
                i > grapheme_index ==> result@ == line_text(fs.take(m)) + seq![character]
                    + line_text(fs.subrange(m, i as int)),
            decreases self.fragments.len() - i,
        {
            let ghost prev = result@;
            if i == grapheme_index {
                push_char(&mut result, character);
            }
            result.append(self.fragments[i].grapheme.as_str());
            proof {
                lemma_line_text_one(fs[i as int]);
                if i < grapheme_index {
                    assert(fs.take(i + 1) =~= fs.take(i as int) + seq![fs[i as int]]);
                    lemma_line_text_concat(fs.take(i as int), seq![fs[i as int]]);
                    assert(result@ =~= line_text(fs.take(i + 1)));
                } else if i == grapheme_index {
                    assert(fs.subrange(m, i + 1) =~= seq![fs[i as int]]);
                    assert(result@ =~= line_text(fs.take(m)) + seq![character] + line_text(
                        fs.subrange(m, i + 1),
                    ));
                } else {
                    assert(fs.subrange(m, i + 1) =~= fs.subrange(m, i as int) + seq![
                        fs[i as int],
                    ]);
                    lemma_line_text_concat(fs.subrange(m, i as int), seq![fs[i as int]]);
                    assert(result@ =~= line_text(fs.take(m)) + seq![character] + line_text(
                        fs.subrange(m, i + 1),
                    ));
                }
            }
            i = i + 1;
        }
        if grapheme_index >= self.fragments.len() {
            push_char(&mut result, character);
        }
        proof {
            assert(fs.skip(m) =~= fs.subrange(m, fs.len() as int));
            if grapheme_index as nat >= fs.len() {
                assert(fs.take(m) =~= fs);
                assert(line_text(fs.skip(m)) =~= Seq::<char>::empty());
                assert(result@ =~= insert_text(fs, character, grapheme_index as nat));
            } else {
                assert(result@ =~= insert_text(fs, character, grapheme_index as nat));
            }
        }
        self.fragments = str_to_fragments(result.as_str());
    }

    /// Removes the grapheme at position `grapheme_index` if present (an index
    /// past the end leaves the text unchanged) and re-segments the resulting
    /// text.
    pub fn delete(&mut self, grapheme_index: usize)
        ensures
            final(self)@ == frags_of(remove_text(old(self)@, grapheme_index as nat)),
            final(self).text() == remove_text(old(self)@, grapheme_index as nat),
            final(self).wf(),
    {
        let ghost fs = self@;
        let ghost gi = grapheme_index as int;
        let mut result = String::new();
        let mut i: usize = 0;
        while i < self.fragments.len()
            invariant
                fs == self@,
                gi == grapheme_index as int,
                i <= self.fragments.len(),
                i <= grapheme_index ==> result@ == line_text(fs.take(i as int)),
                i > grapheme_index ==> result@ == line_text(fs.take(gi)) + line_text(
                    fs.subrange(gi + 1, i as int),
                ),
            decreases self.fragments.len() - i,
        {
            let ghost prev = result@;
            if grapheme_index != i {
                result.append(self.fragments[i].grapheme.as_str());
            }
            proof {
                lemma_line_text_one(fs[i as int]);
                if i < grapheme_index {
                    assert(fs.take(i + 1) =~= fs.take(i as int) + seq![fs[i as int]]);
                    lemma_line_text_concat(fs.take(i as int), seq![fs[i as int]]);
                    assert(result@ =~= line_text(fs.take(i + 1)));
                } else if i == grapheme_index {
                    assert(fs.subrange(gi + 1, i + 1) =~= Seq::<FragModel>::empty());
                    assert(result@ =~= line_text(fs.take(gi)) + line_text(
                        fs.subrange(gi + 1, i + 1),
                    ));
                } else {
                    assert(fs.subrange(gi + 1, i + 1) =~= fs.subrange(gi + 1, i as int) + seq![
                        fs[i as int],
                    ]);
                    lemma_line_text_concat(fs.subrange(gi + 1, i as int), seq![fs[i as int]]);
                    assert(result@ =~= line_text(fs.take(gi)) + line_text(
                        fs.subrange(gi + 1, i + 1),
                    ));
                }
            }
            i = i + 1;
        }
        proof {
            if grapheme_index as nat >= fs.len() {
                assert(fs.take(fs.len() as int) =~= fs);
                assert(result@ =~= remove_text(fs, grapheme_index as nat));
            } else {
                assert(fs.skip(gi + 1) =~= fs.subrange(gi + 1, fs.len() as int));
                assert(result@ =~= remove_text(fs, grapheme_index as nat));
            }
        }
        self.fragments = str_to_fragments(result.as_str());
    }

    /// Concatenates `other`'s text onto this line and re-segments, since the
    /// clusters at the seam can merge.
    pub fn append(&mut self, other: &Line)
        ensures
            final(self)@ == frags_of(line_text(old(self)@) + line_text(other@)),
            final(self).text() == line_text(old(self)@) + line_text(other@),
            final(self).wf(),
    {
        let mut concat = self.to_string();
        let other_text = other.to_string();
        concat.append(other_text.as_str());
        self.fragments = str_to_fragments(concat.as_str());
    }
}

/// Builds the fragment sequence of `line_str`, one fragment per grapheme
/// cluster.
fn str_to_fragments(line_str: &str) -> (r: Vec<TextFragment>)
    ensures
        r@.map_values(|f: TextFragment| f@) == frags_of(line_str@),
        line_text(frags_of(line_str@)) == line_str@,
        wf_frags(frags_of(line_str@)),
{
    let graphemes = segment(line_str);
    let ghost gs = graphemes_of(line_str@);
    proof {
        lemma_line_text_frags(gs);
        assert forall|i: int| 0 <= i < frags_of(line_str@).len() implies wf_frag(
            #[trigger] frags_of(line_str@)[i],
        ) by {
            assert(graphemes@.map_values(|g: String| g@)[i] == graphemes@[i]@);
        }
    }
    let mut fragments: Vec<TextFragment> = Vec::new();
    let mut idx: usize = 0;
    while idx < graphemes.len()
        invariant
            graphemes@.map_values(|g: String| g@) == gs,
            gs == graphemes_of(line_str@),
            idx <= graphemes.len(),
            fragments@.map_values(|f: TextFragment| f@) =~= frags_of(line_str@).take(idx as int),
        decreases graphemes.len() - idx,
    {
        proof {
            assert(graphemes@.map_values(|g: String| g@)[idx as int] == graphemes@[idx as int]@);
        }
        let g = &graphemes[idx];
        let w = str_width(g.as_str());
        let rendered_width = if w <= 1 {
            GraphemeWidth::Half
        } else {
            GraphemeWidth::Full
        };
        let replacement = replacement_for(g.as_str(), w);
        let fragment = TextFragment { grapheme: g.clone(), rendered_width, replacement };
        proof {
            assert(fragment@ =~= frags_of(line_str@)[idx as int]);
            let prev = fragments@;
            assert(prev.map_values(|f: TextFragment| f@).len() == idx);
            assert(prev.len() == idx);
            let lhs = prev.push(fragment).map_values(|f: TextFragment| f@);
            let rhs = frags_of(line_str@).take(idx + 1);
            assert(lhs.len() == idx + 1);
            assert(rhs.len() == idx + 1);
            assert forall|j: int| 0 <= j < lhs.len() implies lhs[j] == rhs[j] by {
                if j < idx {
                    assert(prev.map_values(|f: TextFragment| f@)[j] == frags_of(line_str@).take(
                        idx as int,
                    )[j]);
                } else {
                    assert(lhs[j] == fragment@);
                }
            }
            assert(lhs =~= rhs);
        }
        fragments.push(fragment);
        idx = idx + 1;
    }
    proof {
        assert(frags_of(line_str@).take(frags_of(line_str@).len() as int) =~= frags_of(line_str@));
    }
    fragments
}

} // verus!
