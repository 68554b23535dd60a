//! Rendering as a pure function: the board and cursor position determine
//! a flat plan of drawing pieces. The plan alternates one glyph and one
//! separator per cell, row-major; the glyph under the cursor is the only
//! highlighted one, and every fifth separator is a newline.

use vstd::prelude::*;

use crate::board::Board;

verus! {

/// One drawing step of a rendered board: a plain glyph, the single
/// highlighted glyph under the cursor, or a separator.
#[derive(PartialEq, Eq, Structural, Clone, Copy, Debug)]
pub enum Piece {
    Plain(char),
    Highlighted(char),
    Space,
    Newline,
}

/// The piece at position `i` of the rendered plan: even positions carry
/// the glyph of cell `i / 2`, odd positions the separator after it.
pub open spec fn piece_at(cells: Seq<char>, px: int, py: int, i: int) -> Piece {
    if i % 2 == 0 {
        let idx = i / 2;
        if idx == py * 5 + px {
            Piece::Highlighted(cells[idx])
        } else {
            Piece::Plain(cells[idx])
        }
    } else {
        let idx = (i - 1) / 2;
        if idx % 5 == 4 {
            Piece::Newline
        } else {
            Piece::Space
        }
    }
}

/// The full rendered plan: 50 pieces, a glyph and a separator for each
/// of the 25 cells in row-major order.
pub open spec fn render_plan(cells: Seq<char>, px: int, py: int) -> Seq<Piece> {
    Seq::new(50, |i: int| piece_at(cells, px, py, i))
}

/// Render the board with the cursor at column `px`, row `py`. The result
/// is determined by the cells and the cursor position alone.
pub fn render(board: &Board, px: usize, py: usize) -> (plan: Vec<Piece>)
    requires
        board.well_formed(),
        px < 5,
        py < 5,
    ensures
        plan@ == render_plan(board@, px as int, py as int),
{
    let mut plan: Vec<Piece> = Vec::new();
    let cursor_index: usize = py * 5 + px;
    let mut i: usize = 0;
    while i < 25
        invariant
            board.well_formed(),
            px < 5,
            py < 5,
            cursor_index == py * 5 + px,
            i <= 25,
            plan@.len() == 2 * i,
            forall|j: int|
                0 <= j < 2 * i ==> plan@[j] == piece_at(board@, px as int, py as int, j),
        decreases 25 - i,
    {
        let c = board.get(i % 5, i / 5);
        if i == cursor_index {
            plan.push(Piece::Highlighted(c));
        } else {
            plan.push(Piece::Plain(c));
        }
        if i % 5 == 4 {
            plan.push(Piece::Newline);
        } else {
            plan.push(Piece::Space);
        }
        i = i + 1;
    }
    proof {
        assert(plan@ =~= render_plan(board@, px as int, py as int));
    }
    plan
}

/// The rendered plan lays the board out row by row with exactly one
/// highlighted glyph, the one under the cursor: every even position
/// shows the matching cell, highlighted exactly at the cursor's cell,
/// and every odd position is a newline at the end of a row and a space
/// elsewhere.
pub proof fn lemma_render_layout(cells: Seq<char>, px: int, py: int)
    requires
        cells.len() == 25,
        0 <= px < 5,
        0 <= py < 5,
    ensures
        render_plan(cells, px, py).len() == 50,
        forall|i: int|
            0 <= i < 50 && i % 2 == 0 ==> #[trigger] render_plan(cells, px, py)[i] == (if i / 2
                == py * 5 + px {
                Piece::Highlighted(cells[i / 2])
            } else {
                Piece::Plain(cells[i / 2])
            }),
        forall|i: int|
            0 <= i < 50 && i % 2 == 1 ==> #[trigger] render_plan(cells, px, py)[i] == (if ((i - 1)
                / 2) % 5 == 4 {
                Piece::Newline
            } else {
                Piece::Space
            }),
        forall|i: int|
            0 <= i < 50 ==> (#[trigger] render_plan(cells, px, py)[i] is Highlighted <==> i == 2
                * (py * 5 + px)),
{
    let plan = render_plan(cells, px, py);
    let cursor = py * 5 + px;
    assert forall|i: int| 0 <= i < 50 implies (#[trigger] plan[i] is Highlighted <==> i == 2
        * cursor) by {
        assert(plan[i] == piece_at(cells, px, py, i));
        if i % 2 == 0 {
            assert(plan[i] is Highlighted <==> i / 2 == cursor);
            assert(i / 2 == cursor <==> i == 2 * cursor);
        } else {
            assert(!(plan[i] is Highlighted));
            assert(i != 2 * cursor);
        }
    }
}

} // verus!
