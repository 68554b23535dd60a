//! The 5x5 character board: fixed 25-cell grid, row-major, with
//! single-cell writes that store the uppercased character.

use vstd::prelude::*;

verus! {

/// ASCII uppercasing: lowercase letters are shifted to their uppercase
/// counterpart; every other character is unchanged.
pub open spec fn upper_char(c: char) -> char {
    if 'a' <= c && c <= 'z' {
        ((c as u8) - 32) as char
    } else {
        c
    }
}

/// The board a freshly created editor holds: 'A'..'Y' in row-major order.
pub open spec fn initial_cells() -> Seq<char> {
    Seq::new(25, |i: int| ((65 + i) as u8) as char)
}

/// Uppercase one ASCII character; anything that is not a lowercase
/// ASCII letter comes back unchanged.
pub fn to_upper(c: char) -> (r: char)
    ensures
        r == upper_char(c),
{
    if 'a' <= c && c <= 'z' {
        ((c as u8) - 32) as char
    } else {
        c
    }
}

/// A 5x5 grid of characters, stored row-major: the cell at column `x`,
/// row `y` lives at index `y * 5 + x`.
pub struct Board {
    cells: Vec<char>,
}

impl View for Board {
    type V = Seq<char>;

    closed spec fn view(&self) -> Seq<char> {
        self.cells@
    }
}

impl Board {
    /// A board is exactly 25 cells.
    pub open spec fn well_formed(&self) -> bool {
        self@.len() == 25
    }

    /// Create the default board, filled with 'A'..'Y' in row-major order.
    pub fn new() -> (b: Board)
        ensures
            b.well_formed(),
            b@ == initial_cells(),
    {
        let mut cells: Vec<char> = Vec::new();
        let mut i: usize = 0;
        while i < 25
            invariant
                i <= 25,
                cells@.len() == i,
                forall|j: int| 0 <= j < i ==> cells@[j] == initial_cells()[j],
            decreases 25 - i,
        {
            cells.push((65 + i as u8) as char);
            i = i + 1;
        }
        proof {
            assert(cells@ =~= initial_cells());
        }
        Board { cells }
    }

    /// Write `c`, uppercased, into the cell at column `ptr_x`, row `ptr_y`;
    /// every other cell keeps its value.
    pub fn update(&mut self, ptr_x: usize, ptr_y: usize, r_char: char)
        requires
            old(self).well_formed(),
            ptr_x < 5,
            ptr_y < 5,
        ensures
            final(self).well_formed(),
            final(self)@ == old(self)@.update(ptr_y * 5 + ptr_x, upper_char(r_char)),
    {
        let index: usize = ptr_y * 5 + ptr_x;
        let up = to_upper(r_char);
        self.cells.set(index, up);
    }

    /// Read the cell at column `x`, row `y`.
    pub fn get(&self, x: usize, y: usize) -> (c: char)
        requires
            self.well_formed(),
            x < 5,
            y < 5,
        ensures
            c == self@[y * 5 + x],
    {
        self.cells[y * 5 + x]
    }
}

} // verus!
