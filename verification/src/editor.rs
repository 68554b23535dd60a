//! The editor state machine: the decision half of the input loop. It owns
//! the board, a cursor clamped to the 5x5 grid, a dirty flag that tells
//! the caller when to redraw, and a running flag cleared by Escape so a
//! driver can restore the terminal on the way out. The driver feeds it
//! one key press at a time and performs the drawing itself.

use vstd::prelude::*;

use crate::board::{initial_cells, upper_char, Board};

verus! {

/// A key press the editor reacts to. `Other` stands for every key the
/// editor ignores; key events that are not presses never reach it.
#[derive(PartialEq, Eq, Structural, Clone, Copy, Debug)]
pub enum Key {
    Left,
    Right,
    Up,
    Down,
    Enter,
    Escape,
    Char(char),
    Other,
}

/// The editor's state as the contracts see it.
pub struct EditorView {
    pub cells: Seq<char>,
    pub x: int,
    pub y: int,
    pub changed: bool,
    pub running: bool,
}

/// Decrement clamped at 0.
pub open spec fn clamp_dec(v: int) -> int {
    if v <= 0 {
        0
    } else {
        v - 1
    }
}

/// Increment clamped at 4.
pub open spec fn clamp_inc(v: int) -> int {
    if v >= 4 {
        4
    } else {
        v + 1
    }
}

/// One step of the editor on a key press: arrows move the cursor and
/// clamp at the grid's edge, a character key writes its uppercase form
/// into the cell under the cursor, Escape stops the editor, and Enter
/// and every other key change nothing. Every state change marks the
/// editor dirty.
pub open spec fn step(s: EditorView, k: Key) -> EditorView {
    match k {
        Key::Left => EditorView { x: clamp_dec(s.x), changed: true, ..s },
        Key::Right => EditorView { x: clamp_inc(s.x), changed: true, ..s },
        Key::Up => EditorView { y: clamp_dec(s.y), changed: true, ..s },
        Key::Down => EditorView { y: clamp_inc(s.y), changed: true, ..s },
        Key::Char(c) => EditorView {
            cells: s.cells.update(s.y * 5 + s.x, upper_char(c)),
            changed: true,
            ..s
        },
        Key::Escape => EditorView { running: false, ..s },
        Key::Enter => s,
        Key::Other => s,
    }
}

/// A well-formed editor state: 25 cells and a cursor inside the grid.
pub open spec fn view_well_formed(s: EditorView) -> bool {
    &&& s.cells.len() == 25
    &&& 0 <= s.x < 5
    &&& 0 <= s.y < 5
}

/// The state a fresh editor is in: the default board, the cursor at the
/// origin, a pending first draw, and running.
pub open spec fn initial_view() -> EditorView {
    EditorView { cells: initial_cells(), x: 0, y: 0, changed: true, running: true }
}

/// The editor: the board, the cursor, the dirty flag and the running flag.
pub struct Editor {
    board: Board,
    x: usize,
    y: usize,
    changed: bool,
    running: bool,
}

impl View for Editor {
    type V = EditorView;

    closed spec fn view(&self) -> EditorView {
        EditorView {
            cells: self.board@,
            x: self.x as int,
            y: self.y as int,
            changed: self.changed,
            running: self.running,
        }
    }
}

impl Editor {
    pub open spec fn well_formed(&self) -> bool {
        view_well_formed(self@)
    }

    /// Create an editor in the initial state.
    pub fn new() -> (e: Editor)
        ensures
            e.well_formed(),
            e@ == initial_view(),
    {
        Editor { board: Board::new(), x: 0, y: 0, changed: true, running: true }
    }

    /// React to one key press: the state after the call is exactly
    /// `step` of the state before it.
    pub fn handle_key(&mut self, k: Key)
        requires
            old(self).well_formed(),
        ensures
            final(self).well_formed(),
            final(self)@ == step(old(self)@, k),
    {
        match k {
            Key::Left => {
                if self.x > 0 {
                    self.x = self.x - 1;
                }
                self.changed = true;
            },
            Key::Right => {
                if self.x < 4 {
                    self.x = self.x + 1;
                }
                self.changed = true;
            },
            Key::Up => {
                if self.y > 0 {
                    self.y = self.y - 1;
                }
                self.changed = true;
            },
            Key::Down => {
                if self.y < 4 {
                    self.y = self.y + 1;
                }
                self.changed = true;
            },
            Key::Char(c) => {
                self.board.update(self.x, self.y, c);
                self.changed = true;
            },
            Key::Escape => {
                self.running = false;
            },
            Key::Enter => {},
            Key::Other => {},
        }
    }

    /// Whether a redraw is pending, clearing the dirty flag: this is the
    /// check the driver makes at the top of each loop turn.
    pub fn take_changed(&mut self) -> (was_changed: bool)
        requires
            old(self).well_formed(),
        ensures
            final(self).well_formed(),
            was_changed == old(self)@.changed,
            final(self)@ == (EditorView { changed: false, ..old(self)@ }),
    {
        let was_changed = self.changed;
        self.changed = false;
        was_changed
    }

    /// Whether the editor is still running; Escape clears this.
    pub fn is_running(&self) -> (r: bool)
        ensures
            r == self@.running,
    {
        self.running
    }

    /// The cursor's column.
    pub fn cursor_x(&self) -> (r: usize)
        requires
            self.well_formed(),
        ensures
            r == self@.x,
            r < 5,
    {
        self.x
    }

    /// The cursor's row.
    pub fn cursor_y(&self) -> (r: usize)
        requires
            self.well_formed(),
        ensures
            r == self@.y,
            r < 5,
    {
        self.y
    }

    /// The board the editor holds.
    pub fn board(&self) -> (b: &Board)
        ensures
            b@ == self@.cells,
    {
        &self.board
    }
}

/// Cursor motion is idempotently clamped: a step never leaves the grid,
/// and at an edge the move toward that edge is a fixed point — repeated
/// Left at the left edge keeps the cursor there, and likewise for
/// Right, Up and Down at their edges.
pub proof fn lemma_cursor_clamped(s: EditorView, k: Key)
    requires
        view_well_formed(s),
    ensures
        view_well_formed(step(s, k)),
        s.x == 0 ==> step(s, Key::Left).x == 0,
        s.x == 4 ==> step(s, Key::Right).x == 4,
        s.y == 0 ==> step(s, Key::Up).y == 0,
        s.y == 4 ==> step(s, Key::Down).y == 4,
{
    if k is Char {
        assert(step(s, k).cells.len() == 25);
    }
}

} // verus!
