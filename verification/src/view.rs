//! The viewport/cursor controller: a logical cursor in grapheme units, a
//! scroll offset in screen cells, and the movement, editing, scrolling and
//! rendering rules over the buffer. The whole state is modelled by
//! `ViewState`, and every operation's contract states the exact transition.

use crate::buffer::{buf_delete, buf_insert, buf_wf, count_at, lines_of, Buffer};
use crate::clamp::{min_nat, sat_add, sat_sub};
use crate::editorcommand::{Direction, EditorCommand};
use crate::geometry::{Position, Size};
use crate::line::{frags_of, visible_text, width_until_spec, FragModel};
use crate::unicode::push_char;
use vstd::prelude::*;
use vstd::view::View as _;

verus! {

/// The logical cursor position: a line index and a grapheme index within
/// that line (not screen cells).
#[derive(Copy, Clone, Debug, PartialEq, Eq, Structural, Default)]
pub struct Location {
    pub grapheme_index: usize,
    pub line_index: usize,
}

/// The full state of the controller: the buffer's line models, the cursor,
/// the scroll origin, the viewport size, and the dirty flag.
#[verifier::ext_equal]
pub struct ViewState {
    pub lines: Seq<Seq<FragModel>>,
    pub line_index: nat,
    pub grapheme_index: nat,
    pub scroll_row: nat,
    pub scroll_col: nat,
    pub width: nat,
    pub height: nat,
    pub needs_redraw: bool,
}

/// The cursor invariant: the line index addresses a line (or is zero in an
/// empty buffer) and the grapheme index is at most the line's grapheme
/// count.
pub open spec fn loc_valid(vs: ViewState) -> bool {
    if vs.lines.len() == 0 {
        vs.line_index == 0 && vs.grapheme_index == 0
    } else {
        vs.line_index < vs.lines.len() && vs.grapheme_index <= count_at(vs.lines, vs.line_index)
    }
}

/// The document row of the cursor.
pub open spec fn pos_row(vs: ViewState) -> nat {
    vs.line_index
}

/// The document column of the cursor: the summed widths of the graphemes
/// before it on its line, or zero when no line is addressed.
pub open spec fn pos_col(vs: ViewState) -> nat {
    if vs.line_index < vs.lines.len() {
        width_until_spec(vs.lines[vs.line_index as int], vs.grapheme_index)
    } else {
        0
    }
}

/// The cursor's document position lies inside the scroll window.
pub open spec fn in_view(vs: ViewState) -> bool {
    &&& vs.scroll_row <= pos_row(vs)
    &&& sat_sub(pos_row(vs), vs.scroll_row) < vs.height
    &&& vs.scroll_col <= pos_col(vs)
    &&& sat_sub(pos_col(vs), vs.scroll_col) < vs.width
}

/// Clamps the grapheme index to the addressed line's grapheme count (zero
/// when no line is addressed).
pub open spec fn vs_snap_grapheme(vs: ViewState) -> ViewState {
    ViewState {
        grapheme_index: if vs.line_index < vs.lines.len() {
            min_nat(vs.grapheme_index, count_at(vs.lines, vs.line_index))
        } else {
            0
        },
        ..vs
    }
}

/// Clamps the line index to the last line.
pub open spec fn vs_snap_line(vs: ViewState) -> ViewState {
    ViewState { line_index: min_nat(vs.line_index, sat_sub(vs.lines.len(), 1)), ..vs }
}

/// Moves the cursor up `step` lines, clamping at the first line and snapping
/// the grapheme index to the new line.
pub open spec fn vs_move_up(vs: ViewState, step: nat) -> ViewState {
    vs_snap_grapheme(ViewState { line_index: sat_sub(vs.line_index, step), ..vs })
}

/// Moves the cursor down `step` lines, clamping at the last line and then
/// snapping the grapheme index to the new line.
pub open spec fn vs_move_down(vs: ViewState, step: nat) -> ViewState {
    vs_snap_grapheme(vs_snap_line(ViewState { line_index: sat_add(vs.line_index, step), ..vs }))
}

/// Moves the cursor to the start of its line.
pub open spec fn vs_move_to_start(vs: ViewState) -> ViewState {
    ViewState { grapheme_index: 0, ..vs }
}

/// Moves the cursor to the end of its line.
pub open spec fn vs_move_to_end(vs: ViewState) -> ViewState {
    ViewState { grapheme_index: count_at(vs.lines, vs.line_index), ..vs }
}

/// Moves the cursor one grapheme left, or to the end of the previous line at
/// a line start.
pub open spec fn vs_move_left(vs: ViewState) -> ViewState {
    if vs.grapheme_index > 0 {
        ViewState { grapheme_index: (vs.grapheme_index - 1) as nat, ..vs }
    } else if vs.line_index > 0 {
        vs_move_to_end(vs_move_up(vs, 1))
    } else {
        vs
    }
}

/// Moves the cursor one grapheme right, or to the start of the next line at
/// a line end.
pub open spec fn vs_move_right(vs: ViewState) -> ViewState {
    let line_width = count_at(vs.lines, vs.line_index);
    if vs.grapheme_index < line_width {
        ViewState { grapheme_index: vs.grapheme_index + 1, ..vs }
    } else if vs.line_index < sat_sub(vs.lines.len(), 1) {
        vs_move_down(vs_move_to_start(vs), 1)
    } else {
        vs
    }
}

/// One scroll axis: an origin before the target jumps back to it exactly; a
/// target at or past the window end advances the origin by exactly the
/// deficit; otherwise the origin stays.
pub open spec fn scroll_to(off: nat, to: nat, dim: nat) -> nat {
    if to < off {
        to
    } else if to >= sat_add(off, dim) {
        sat_add(sat_sub(to, dim), 1)
    } else {
        off
    }
}

/// Whether one scroll axis adjusts its origin: the target lies before the
/// window or at or past its end.
pub open spec fn scroll_moved(off: nat, to: nat, dim: nat) -> bool {
    to < off || to >= sat_add(off, dim)
}

/// Scrolls the window so the cursor's position is inside it, marking the
/// state dirty when an origin was adjusted.
pub open spec fn vs_scroll_into_view(vs: ViewState) -> ViewState {
    let new_row = scroll_to(vs.scroll_row, pos_row(vs), vs.height);
    let new_col = scroll_to(vs.scroll_col, pos_col(vs), vs.width);
    ViewState {
        scroll_row: new_row,
        scroll_col: new_col,
        needs_redraw: vs.needs_redraw || scroll_moved(vs.scroll_row, pos_row(vs), vs.height)
            || scroll_moved(vs.scroll_col, pos_col(vs), vs.width),
        ..vs
    }
}

/// A movement command: the directional move, then scroll into view. Page
/// moves step by one less than the viewport height.
pub open spec fn vs_move(vs: ViewState, direction: Direction) -> ViewState {
    let moved = match direction {
        Direction::Up => vs_move_up(vs, 1),
        Direction::Down => vs_move_down(vs, 1),
        Direction::Left => vs_move_left(vs),
        Direction::Right => vs_move_right(vs),
        Direction::PageUp => vs_move_up(vs, sat_sub(vs.height, 1)),
        Direction::PageDown => vs_move_down(vs, sat_sub(vs.height, 1)),
        Direction::Home => vs_move_to_start(vs),
        Direction::End => vs_move_to_end(vs),
    };
    vs_scroll_into_view(moved)
}

/// Inserting a character: the buffer edit, a cursor advance when the line's
/// grapheme count grew (a snap otherwise), scroll into view, and the dirty
/// flag set.
pub open spec fn vs_insert_char(vs: ViewState, c: char) -> ViewState {
    let old_count = count_at(vs.lines, vs.line_index);
    let v2 = ViewState {
        lines: buf_insert(vs.lines, vs.line_index, vs.grapheme_index, c),
        ..vs
    };
    let v3 = if count_at(v2.lines, vs.line_index) > old_count {
        vs_move_right(v2)
    } else {
        vs_snap_grapheme(v2)
    };
    ViewState { needs_redraw: true, ..vs_scroll_into_view(v3) }
}

/// Whether the cursor sits at the very end of the document (an empty buffer
/// counts as the end).
pub open spec fn vs_at_end(vs: ViewState) -> bool {
    if vs.lines.len() == 0 {
        true
    } else {
        vs.line_index == vs.lines.len() - 1 && vs.grapheme_index == count_at(
            vs.lines,
            vs.line_index,
        )
    }
}

/// A forward delete: a no-op at the end of the document; otherwise the
/// scroll row backs up by one when the cursor is at the document origin, the
/// buffer edit runs, the grapheme index is snapped, the window scrolls into
/// view, and the dirty flag is set.
pub open spec fn vs_delete(vs: ViewState) -> ViewState {
    if vs_at_end(vs) {
        vs
    } else {
        let v1 = if vs.line_index == 0 && vs.grapheme_index == 0 {
            ViewState { scroll_row: sat_sub(vs.scroll_row, 1), ..vs }
        } else {
            vs
        };
        let v2 = ViewState {
            lines: buf_delete(v1.lines, v1.line_index, v1.grapheme_index),
            ..v1
        };
        ViewState { needs_redraw: true, ..vs_scroll_into_view(vs_snap_grapheme(v2)) }
    }
}

/// Backspace: a no-op at the document origin; otherwise move left, then
/// forward delete.
pub open spec fn vs_backspace(vs: ViewState) -> ViewState {
    if vs.line_index == 0 && vs.grapheme_index == 0 {
        vs
    } else {
        vs_delete(vs_move_left(vs))
    }
}

/// Resizing: the new dimensions, the dirty flag set, and the window scrolled
/// into view under the new size.
pub open spec fn vs_resize(vs: ViewState, width: nat, height: nat) -> ViewState {
    vs_scroll_into_view(ViewState { width, height, needs_redraw: true, ..vs })
}

/// Loading decoded text: the buffer is rebuilt from the text's line
/// segments, the cursor is snapped back into range, the window scrolls into
/// view, and the dirty flag is set.
pub open spec fn vs_load(vs: ViewState, text: Seq<char>) -> ViewState {
    let v1 = ViewState {
        lines: lines_of(text).map_values(|t: Seq<char>| frags_of(t)),
        needs_redraw: true,
        ..vs
    };
    vs_scroll_into_view(vs_snap_grapheme(vs_snap_line(v1)))
}

/// One command applied to the state. A tab insertion becomes four space
/// insertions.
pub open spec fn vs_handle(vs: ViewState, command: EditorCommand) -> ViewState {
    match command {
        EditorCommand::Resize(size) => vs_resize(vs, size.width as nat, size.height as nat),
        EditorCommand::Move(direction) => vs_move(vs, direction),
        EditorCommand::Insert(c) => if c == '\t' {
            vs_insert_char(vs_insert_char(vs_insert_char(vs_insert_char(vs, ' '), ' '), ' '), ' ')
        } else {
            vs_insert_char(vs, c)
        },
        EditorCommand::Delete => vs_delete(vs),
        EditorCommand::Backspace => vs_backspace(vs),
        EditorCommand::Quit => vs,
    }
}

/// After one scroll axis runs, the target lies inside the window on that
/// axis.
proof fn lemma_scroll_to_in_view(off: nat, to: nat, dim: nat)
    requires
        1 <= dim <= usize::MAX as nat,
        to <= usize::MAX as nat,
    ensures
        scroll_to(off, to, dim) <= to,
        sat_sub(to, scroll_to(off, to, dim)) < dim,
{
}

/// Scrolling into view puts the cursor inside the window whenever the
/// viewport has at least one row and one column. This is the minimal
/// adjustment policy's guarantee: after every movement or edit the cursor's
/// screen position is visible.
pub proof fn lemma_scroll_into_view_in_view(vs: ViewState)
    requires
        1 <= vs.width <= usize::MAX as nat,
        1 <= vs.height <= usize::MAX as nat,
        pos_row(vs) <= usize::MAX as nat,
        pos_col(vs) <= usize::MAX as nat,
    ensures
        in_view(vs_scroll_into_view(vs)),
{
    lemma_scroll_to_in_view(vs.scroll_row, pos_row(vs), vs.height);
    lemma_scroll_to_in_view(vs.scroll_col, pos_col(vs), vs.width);
}

/// The welcome banner's text.
pub open spec fn banner_text() -> Seq<char> {
    "Rust terminal version 0.5"@
}

/// The welcome row for a viewport `width` columns wide: a lone space on a
/// zero-width screen, a tilde when the banner does not fit, and otherwise a
/// tilde, centering padding, and the banner.
pub open spec fn welcome_text(width: nat) -> Seq<char> {
    if width == 0 {
        seq![' ']
    } else if width <= banner_text().len() {
        seq!['~']
    } else {
        seq!['~'] + Seq::new((((width - banner_text().len() - 1) as int) / 2) as nat, |j: int| ' ')
            + banner_text()
    }
}

/// The text of screen row `r`: the visible slice of the document line the
/// scroll window maps it to; on a row with no line, the welcome banner at a
/// third of the screen height when the buffer is empty, and an empty-row
/// tilde marker otherwise.
pub open spec fn row_text(vs: ViewState, r: nat) -> Seq<char> {
    let idx = sat_add(r, vs.scroll_row);
    if idx < vs.lines.len() {
        visible_text(vs.lines[idx as int], vs.scroll_col, sat_add(vs.scroll_col, vs.width))
    } else if r == vs.height / 3 && vs.lines.len() == 0 {
        welcome_text(vs.width)
    } else {
        seq!['~']
    }
}

/// Movement keeps the cursor invariant.
proof fn lemma_move_loc_valid(vs: ViewState, direction: Direction)
    requires
        loc_valid(vs),
    ensures
        loc_valid(vs_move(vs, direction)),
{
}

/// Insertion keeps the cursor invariant.
proof fn lemma_insert_loc_valid(vs: ViewState, c: char)
    requires
        loc_valid(vs),
    ensures
        loc_valid(vs_insert_char(vs, c)),
{
}

/// Forward deletion keeps the cursor invariant.
proof fn lemma_delete_loc_valid(vs: ViewState)
    requires
        loc_valid(vs),
    ensures
        loc_valid(vs_delete(vs)),
{
}

/// Backspace keeps the cursor invariant.
proof fn lemma_backspace_loc_valid(vs: ViewState)
    requires
        loc_valid(vs),
    ensures
        loc_valid(vs_backspace(vs)),
{
}

/// Away from the document origin a valid cursor never lands on the document
/// end by moving left, so backspace always reaches the delete.
proof fn lemma_backspace_reaches_delete(vs: ViewState)
    requires
        loc_valid(vs),
        !(vs.line_index == 0 && vs.grapheme_index == 0),
    ensures
        !vs_at_end(vs_move_left(vs)),
{
}

/// The viewport/cursor controller.
pub struct View {
    pub buffer: Buffer,
    pub needs_redraw: bool,
    pub size: Size,
    pub text_location: Location,
    pub scroll_offset: Position,
}

impl View {
    /// The controller's full abstract state.
    pub open spec fn vs(&self) -> ViewState {
        ViewState {
            lines: self.buffer@,
            line_index: self.text_location.line_index as nat,
            grapheme_index: self.text_location.grapheme_index as nat,
            scroll_row: self.scroll_offset.row as nat,
            scroll_col: self.scroll_offset.col as nat,
            width: self.size.width as nat,
            height: self.size.height as nat,
            needs_redraw: self.needs_redraw,
        }
    }

    /// Well-formedness: the buffer's lines are well formed and the cursor
    /// satisfies its invariant.
    pub open spec fn wf(&self) -> bool {
        buf_wf(self.buffer@) && loc_valid(self.vs())
    }
}

impl Default for View {
    /// An empty controller: empty buffer, cursor and scroll at the origin,
    /// zero size, in need of a first redraw.
    fn default() -> (r: View)
        ensures
            (r.vs() =~= ViewState {
                lines: Seq::empty(),
                line_index: 0,
                grapheme_index: 0,
                scroll_row: 0,
                scroll_col: 0,
                width: 0,
                height: 0,
                needs_redraw: true,
            }),
            r.wf(),
    {
        View {
            buffer: Buffer::default(),
            needs_redraw: true,
            size: Size { width: 0, height: 0 },
            text_location: Location { grapheme_index: 0, line_index: 0 },
            scroll_offset: Position { col: 0, row: 0 },
        }
    }
}

impl View {
    /// Clamps the cursor's grapheme index back into its line's range.
    fn snap_to_valid_grapheme(&mut self)
        ensures
            final(self).vs() == vs_snap_grapheme(old(self).vs()),
    {
        let li = self.text_location.line_index;
        if li < self.buffer.lines.len() {
            let count = self.buffer.lines[li].grapheme_count();
            if self.text_location.grapheme_index > count {
                self.text_location.grapheme_index = count;
            }
        } else {
            self.text_location.grapheme_index = 0;
        }
        proof {
            assert(final(self).vs() =~= vs_snap_grapheme(old(self).vs()));
        }
    }

    /// Clamps the cursor's line index back into the buffer's range.
    fn snap_to_valid_line(&mut self)
        ensures
            final(self).vs() == vs_snap_line(old(self).vs()),
    {
        let max_line = self.buffer.lines.len().saturating_sub(1);
        if self.text_location.line_index > max_line {
            self.text_location.line_index = max_line;
        }
        proof {
            assert(final(self).vs() =~= vs_snap_line(old(self).vs()));
        }
    }

    /// Moves the cursor up `step` lines, clamping at the top and snapping
    /// the grapheme index to the new line.
    pub fn move_up(&mut self, step: usize)
        ensures
            final(self).vs() == vs_move_up(old(self).vs(), step as nat),
    {
        self.text_location.line_index = self.text_location.line_index.saturating_sub(step);
        self.snap_to_valid_grapheme();
        proof {
            assert(final(self).vs() =~= vs_move_up(old(self).vs(), step as nat));
        }
    }

    /// Moves the cursor down `step` lines, clamping at the last line and
    /// snapping the grapheme index to the new line.
    pub fn move_down(&mut self, step: usize)
        ensures
            final(self).vs() == vs_move_down(old(self).vs(), step as nat),
    {
        self.text_location.line_index = self.text_location.line_index.saturating_add(step);
        self.snap_to_valid_line();
        self.snap_to_valid_grapheme();
        proof {
            assert(final(self).vs() =~= vs_move_down(old(self).vs(), step as nat));
        }
    }

    /// Moves the cursor one grapheme right, or to the start of the next line
    /// at a line end.
    pub fn move_right(&mut self)
        ensures
            final(self).vs() == vs_move_right(old(self).vs()),
    {
        let line_width = if self.text_location.line_index < self.buffer.lines.len() {
            self.buffer.lines[self.text_location.line_index].grapheme_count()
        } else {
            0
        };
        if self.text_location.grapheme_index < line_width {
            self.text_location.grapheme_index = self.text_location.grapheme_index + 1;
        } else if self.text_location.line_index < self.buffer.height().saturating_sub(1) {
            self.move_to_start_of_line();
            self.move_down(1);
        }
        proof {
            assert(final(self).vs() =~= vs_move_right(old(self).vs()));
        }
    }

    /// Moves the cursor one grapheme left, or to the end of the previous
    /// line at a line start.
    pub fn move_left(&mut self)
        ensures
            final(self).vs() == vs_move_left(old(self).vs()),
    {
        if self.text_location.grapheme_index > 0 {
            self.text_location.grapheme_index = self.text_location.grapheme_index - 1;
        } else if self.text_location.line_index > 0 {
            self.move_up(1);
            self.move_to_end_of_line();
        }
        proof {
            assert(final(self).vs() =~= vs_move_left(old(self).vs()));
        }
    }

    /// Moves the cursor to the start of its line.
    pub fn move_to_start_of_line(&mut self)
        ensures
            final(self).vs() == vs_move_to_start(old(self).vs()),
    {
        self.text_location.grapheme_index = 0;
        proof {
            assert(final(self).vs() =~= vs_move_to_start(old(self).vs()));
        }
    }

    /// Moves the cursor to the end of its line.
    pub fn move_to_end_of_line(&mut self)
        ensures
            final(self).vs() == vs_move_to_end(old(self).vs()),
    {
        self.text_location.grapheme_index = if self.text_location.line_index
            < self.buffer.lines.len() {
            self.buffer.lines[self.text_location.line_index].grapheme_count()
        } else {
            0
        };
        proof {
            assert(final(self).vs() =~= vs_move_to_end(old(self).vs()));
        }
    }

    /// The cursor's document position: row is the line index, column the
    /// rendered width before the cursor on its line.
    fn text_location_to_position(&self) -> (r: Position)
        ensures
            r.row as nat == pos_row(self.vs()),
            r.col as nat == pos_col(self.vs()),
    {
        let row = self.text_location.line_index;
        let col = if row < self.buffer.lines.len() {
            self.buffer.lines[row].width_until(self.text_location.grapheme_index)
        } else {
            0
        };
        Position { col, row }
    }

    /// The cursor's position on screen: its document position relative to
    /// the scroll origin, clamped at zero.
    #[must_use]
    pub fn caret_position(&self) -> (r: Position)
        ensures
            r.row as nat == sat_sub(pos_row(self.vs()), self.vs().scroll_row),
            r.col as nat == sat_sub(pos_col(self.vs()), self.vs().scroll_col),
    {
        self.text_location_to_position().saturating_sub(self.scroll_offset)
    }

    /// One scroll axis, vertically.
    fn scroll_vertically(&mut self, to: usize)
        ensures
            final(self).scroll_offset.row as nat == scroll_to(
                old(self).scroll_offset.row as nat,
                to as nat,
                old(self).size.height as nat,
            ),
            final(self).needs_redraw == (old(self).needs_redraw || scroll_moved(
                old(self).scroll_offset.row as nat,
                to as nat,
                old(self).size.height as nat,
            )),
            final(self).buffer@ == old(self).buffer@,
            final(self).size == old(self).size,
            final(self).text_location == old(self).text_location,
            final(self).scroll_offset.col == old(self).scroll_offset.col,
    {
        let height = self.size.height;
        let offset_changed = if to < self.scroll_offset.row {
            self.scroll_offset.row = to;
            true
        } else if to >= self.scroll_offset.row.saturating_add(height) {
            self.scroll_offset.row = to.saturating_sub(height).saturating_add(1);
            true
        } else {
            false
        };
        self.needs_redraw = self.needs_redraw || offset_changed;
    }

    /// One scroll axis, horizontally.
    fn scroll_horizontally(&mut self, to: usize)
        ensures
            final(self).scroll_offset.col as nat == scroll_to(
                old(self).scroll_offset.col as nat,
                to as nat,
                old(self).size.width as nat,
            ),
            final(self).needs_redraw == (old(self).needs_redraw || scroll_moved(
                old(self).scroll_offset.col as nat,
                to as nat,
                old(self).size.width as nat,
            )),
            final(self).buffer@ == old(self).buffer@,
            final(self).size == old(self).size,
            final(self).text_location == old(self).text_location,
            final(self).scroll_offset.row == old(self).scroll_offset.row,
    {
        let width = self.size.width;
        let offset_changed = if to < self.scroll_offset.col {
            self.scroll_offset.col = to;
            true
        } else if to >= self.scroll_offset.col.saturating_add(width) {
            self.scroll_offset.col = to.saturating_sub(width).saturating_add(1);
            true
        } else {
            false
        };
        self.needs_redraw = self.needs_redraw || offset_changed;
    }

    /// Moves the scroll origin the minimal amount that brings the cursor's
    /// document position inside the window; with a viewport of at least one
    /// row and one column the cursor is inside the window afterwards.
    pub fn scroll_text_location_into_view(&mut self)
        ensures
            final(self).vs() == vs_scroll_into_view(old(self).vs()),
            1 <= old(self).size.width && 1 <= old(self).size.height ==> in_view(final(self).vs()),
    {
        let position = self.text_location_to_position();
        self.scroll_vertically(position.row);
        self.scroll_horizontally(position.col);
        proof {
            assert(final(self).vs() =~= vs_scroll_into_view(old(self).vs()));
            if 1 <= old(self).size.width && 1 <= old(self).size.height {
                lemma_scroll_into_view_in_view(old(self).vs());
            }
        }
    }

    /// A movement command: the directional move, then scroll into view.
    fn move_text_location(&mut self, direction: &Direction)
        ensures
            final(self).vs() == vs_move(old(self).vs(), *direction),
            1 <= old(self).size.width && 1 <= old(self).size.height ==> in_view(final(self).vs()),
    {
        let height = self.size.height;
        match direction {
            Direction::Up => self.move_up(1),
            Direction::Down => self.move_down(1),
            Direction::Left => self.move_left(),
            Direction::Right => self.move_right(),
            Direction::PageUp => self.move_up(height.saturating_sub(1)),
            Direction::PageDown => self.move_down(height.saturating_sub(1)),
            Direction::Home => self.move_to_start_of_line(),
            Direction::End => self.move_to_end_of_line(),
        }
        self.scroll_text_location_into_view();
    }

    /// Inserts `character` at the cursor, advances the cursor when the
    /// line's grapheme count grew (snaps it otherwise), scrolls into view
    /// and marks the state dirty.
    fn insert_char(&mut self, character: char)
        ensures
            final(self).vs() == vs_insert_char(old(self).vs(), character),
            old(self).wf() ==> final(self).wf(),
            1 <= old(self).size.width && 1 <= old(self).size.height ==> in_view(final(self).vs()),
    {
        let old_len = if self.text_location.line_index < self.buffer.lines.len() {
            self.buffer.lines[self.text_location.line_index].grapheme_count()
        } else {
            0
        };
        let at = self.text_location;
        self.buffer.insert_char(character, &at);
        let new_len = if self.text_location.line_index < self.buffer.lines.len() {
            self.buffer.lines[self.text_location.line_index].grapheme_count()
        } else {
            0
        };
        if new_len > old_len {
            self.move_right();
        } else {
            self.snap_to_valid_grapheme();
        }
        self.scroll_text_location_into_view();
        self.needs_redraw = true;
        proof {
            assert(final(self).vs() =~= vs_insert_char(old(self).vs(), character));
            if old(self).wf() {
                lemma_insert_loc_valid(old(self).vs(), character);
            }
        }
    }

    /// Whether the cursor sits at the very end of the document.
    fn end_of_file(&self) -> (r: bool)
        ensures
            r == vs_at_end(self.vs()),
    {
        if self.buffer.lines.len() == 0 {
            true
        } else {
            self.text_location.line_index == self.buffer.height().saturating_sub(1)
                && self.text_location.grapheme_index == (
            if self.text_location.line_index < self.buffer.lines.len() {
                self.buffer.lines[self.text_location.line_index].grapheme_count()
            } else {
                0
            })
        }
    }

    /// Whether the cursor sits at the document origin.
    fn start_of_view(&self) -> (r: bool)
        ensures
            r == (self.vs().line_index == 0 && self.vs().grapheme_index == 0),
    {
        self.text_location.line_index == 0 && self.text_location.grapheme_index == 0
    }

    /// A forward delete at the cursor: a no-op at the end of the document,
    /// otherwise the buffer edit followed by a snap, a scroll into view and
    /// the dirty flag.
    fn delete(&mut self)
        ensures
            final(self).vs() == vs_delete(old(self).vs()),
            old(self).wf() ==> final(self).wf(),
            1 <= old(self).size.width && 1 <= old(self).size.height && !vs_at_end(old(self).vs())
                ==> in_view(final(self).vs()),
    {
        if self.end_of_file() {
            return ;
        }
        if self.start_of_view() {
            self.scroll_offset.row = self.scroll_offset.row.saturating_sub(1);
        }
        let at = self.text_location;
        self.buffer.delete(&at);
        self.snap_to_valid_grapheme();
        self.scroll_text_location_into_view();
        self.needs_redraw = true;
        proof {
            assert(final(self).vs() =~= vs_delete(old(self).vs()));
            if old(self).wf() {
                lemma_delete_loc_valid(old(self).vs());
            }
        }
    }

    /// Backspace: a no-op at the document origin, otherwise a move left
    /// followed by a forward delete.
    pub fn backspace(&mut self)
        ensures
            final(self).vs() == vs_backspace(old(self).vs()),
            old(self).wf() ==> final(self).wf(),
            1 <= old(self).size.width && 1 <= old(self).size.height && loc_valid(old(self).vs())
                && !(old(self).vs().line_index == 0 && old(self).vs().grapheme_index == 0)
                ==> in_view(final(self).vs()),
    {
        if self.text_location.line_index == 0 && self.text_location.grapheme_index == 0 {
            return ;
        }
        proof {
            if loc_valid(old(self).vs()) {
                lemma_backspace_reaches_delete(old(self).vs());
            }
        }
        self.move_left();
        self.delete();
        proof {
            if old(self).wf() {
                lemma_backspace_loc_valid(old(self).vs());
            }
        }
    }

    /// Installs a new viewport size, marks the state dirty and scrolls the
    /// cursor back into view under the new size.
    pub fn resize(&mut self, to_size: Size)
        ensures
            final(self).vs() == vs_resize(old(self).vs(), to_size.width as nat, to_size.height as nat),
            1 <= to_size.width && 1 <= to_size.height ==> in_view(final(self).vs()),
    {
        self.size = to_size;
        self.needs_redraw = true;
        self.scroll_text_location_into_view();
        proof {
            assert(final(self).vs() =~= vs_resize(
                old(self).vs(),
                to_size.width as nat,
                to_size.height as nat,
            ));
        }
    }

    /// Replaces the buffer with the line segments of the decoded text, snaps
    /// the cursor back into range, scrolls it into view and marks the state
    /// dirty.
    pub fn load(&mut self, text: &str)
        ensures
            final(self).vs() == vs_load(old(self).vs(), text@),
            final(self).wf(),
            1 <= old(self).size.width && 1 <= old(self).size.height ==> in_view(final(self).vs()),
    {
        self.buffer = Buffer::load(text);
        self.needs_redraw = true;
        self.snap_to_valid_line();
        self.snap_to_valid_grapheme();
        self.scroll_text_location_into_view();
        proof {
            assert(final(self).vs() =~= vs_load(old(self).vs(), text@));
            assert(loc_valid(final(self).vs()));
        }
    }

    /// Applies one decoded command: movement commands move the cursor and
    /// scroll; edit commands mutate the buffer, reposition the cursor and
    /// mark the state dirty; a tab inserts four spaces; quit does nothing
    /// here. With a viewport of at least one row and one column, movement,
    /// insertion and resizing leave the cursor inside the scroll window, and
    /// every command keeps it there if it already was.
    #[verifier::rlimit(100)]
    #[verifier::spinoff_prover]
    pub fn handle_command(&mut self, command: EditorCommand)
        ensures
            final(self).vs() == vs_handle(old(self).vs(), command),
            old(self).wf() ==> final(self).wf(),
            1 <= final(self).vs().width && 1 <= final(self).vs().height && (command is Move
                || command is Insert || command is Resize) ==> in_view(final(self).vs()),
            1 <= final(self).vs().width && 1 <= final(self).vs().height && old(self).wf()
                && in_view(old(self).vs()) ==> in_view(final(self).vs()),
    {
        let ghost vs0 = self.vs();
        match command {
            EditorCommand::Resize(size) => self.resize(size),
            EditorCommand::Move(direction) => self.move_text_location(&direction),
            EditorCommand::Insert(c) => {
                if c == '\t' {
                    self.insert_char(' ');
                    self.insert_char(' ');
                    self.insert_char(' ');
                    self.insert_char(' ');
                } else {
                    self.insert_char(c);
                }
            },
            EditorCommand::Delete => self.delete(),
            EditorCommand::Backspace => self.backspace(),
            EditorCommand::Quit => {},
        }
        proof {
            if old(self).wf() {
                match command {
                    EditorCommand::Move(direction) => {
                        lemma_move_loc_valid(vs0, direction);
                    },
                    _ => {},
                }
            }
        }
    }

    /// Builds the welcome row for a viewport `width` columns wide.
    fn build_welcome_message(width: usize) -> (r: String)
        ensures
            r@ == welcome_text(width as nat),
    {
        proof {
            reveal_strlit(" ");
            reveal_strlit("~");
            reveal_strlit("Rust terminal version 0.5");
        }
        if width == 0 {
            let r = String::from_str(" ");
            proof {
                assert(r@ =~= welcome_text(width as nat));
            }
            return r;
        }
        let version = "Rust terminal version 0.5";
        let len = version.unicode_len();
        if width <= len {
            let r = String::from_str("~");
            proof {
                assert(r@ =~= welcome_text(width as nat));
            }
            return r;
        }
        let padding = (width - len - 1) / 2;
        let mut result = String::from_str("~");
        let mut i: usize = 0;
        proof {
            assert(result@ =~= seq!['~'] + Seq::new(0, |j: int| ' '));
        }
        while i < padding
            invariant
                i <= padding,
                result@ == seq!['~'] + Seq::new(i as nat, |j: int| ' '),
            decreases padding - i,
        {
            push_char(&mut result, ' ');
            proof {
                assert(result@ =~= seq!['~'] + Seq::new((i + 1) as nat, |j: int| ' '));
            }
            i = i + 1;
        }
        result.append(version);
        proof {
            assert(result@ =~= welcome_text(width as nat));
        }
        result
    }

    /// Computes the visible rows when a redraw is due: one string per screen
    /// row, each the row's text under the current scroll window, and clears
    /// the dirty flag. Without a pending redraw, or with an empty viewport,
    /// nothing is rendered.
    pub fn render(&mut self) -> (rows: Option<Vec<String>>)
        ensures
            !old(self).needs_redraw ==> rows is None && final(self).vs() == old(self).vs(),
            old(self).needs_redraw && (old(self).size.width == 0 || old(self).size.height == 0)
                ==> rows is None && final(self).vs() == old(self).vs(),
            old(self).needs_redraw && old(self).size.width > 0 && old(self).size.height > 0 ==> ({
                &&& final(self).vs() == (ViewState { needs_redraw: false, ..old(self).vs() })
                &&& rows is Some
                &&& (rows matches Some(v) ==> v@.len() == old(self).size.height && (forall|r: int|
                    0 <= r < v@.len() ==> v@[r]@ == row_text(old(self).vs(), r as nat)))
            }),
    {
        if !self.needs_redraw {
            return None;
        }
        let width = self.size.width;
        let height = self.size.height;
        if width == 0 || height == 0 {
            return None;
        }
        let ghost vs0 = self.vs();
        let vertical_center = height / 3;
        let top = self.scroll_offset.row;
        let mut result_rows: Vec<String> = Vec::new();
        let mut current_row: usize = 0;
        while current_row < height
            invariant
                vs0 == self.vs(),
                width == self.size.width,
                height == self.size.height,
                top == self.scroll_offset.row,
                vertical_center == height / 3,
                current_row <= height,
                result_rows@.len() == current_row,
                forall|j: int| 0 <= j < current_row ==> result_rows@[j]@ == row_text(
                    vs0,
                    j as nat,
                ),
            decreases height - current_row,
        {
            let idx = current_row.saturating_add(top);
            let row_string = if idx < self.buffer.lines.len() {
                let left = self.scroll_offset.col;
                let right = left.saturating_add(width);
                let visible = self.buffer.lines[idx].get_visible_graphemes(left..right);
                proof {
                    assert(self.buffer.lines@[idx as int]@ == vs0.lines[idx as int]);
                }
                visible
            } else if current_row == vertical_center && self.buffer.is_empty() {
                Self::build_welcome_message(width)
            } else {
                let tilde = String::from_str("~");
                proof {
                    reveal_strlit("~");
                    assert(tilde@ =~= seq!['~']);
                }
                tilde
            };
            proof {
                assert(row_string@ == row_text(vs0, current_row as nat));
            }
            result_rows.push(row_string);
            current_row = current_row + 1;
        }
        self.needs_redraw = false;
        proof {
            assert(self.vs() =~= (ViewState { needs_redraw: false, ..vs0 }));
        }
        Some(result_rows)
    }
}

} // verus!
