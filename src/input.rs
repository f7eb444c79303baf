use vstd::prelude::*;
use crate::grid::{adjusted_rate, dead_cells, flip, grid_height, grid_width, in_grid, Board, State};

verus! {

/// Width and height of a cell on screen, in pixels.
pub const CELL_SIZE: u64 = 20;

/// The keys the game reacts to; every other key is `Other`.
#[derive(Clone, Copy, Debug, PartialEq, Eq, Structural)]
pub enum Key {
    /// Pauses or resumes.
    Pause,
    /// One more generation per second.
    Faster,
    /// One generation per second less, never below one.
    Slower,
    /// Kills every cell.
    Reset,
    Other,
}

/// The board after a press of `key`; a repeated press changes nothing.
pub open spec fn after_key(b: Board, key: Key, repeat: bool) -> Board {
    if repeat {
        b
    } else {
        match key {
            Key::Pause => Board { running: !b.running, ..b },
            Key::Faster => Board { rate: adjusted_rate(b.rate as int, 1) as nat, ..b },
            Key::Slower => Board { rate: adjusted_rate(b.rate as int, -1) as nat, ..b },
            Key::Reset => Board {
                cells: dead_cells(grid_width(b.cells), grid_height(b.cells)),
                ..b
            },
            Key::Other => b,
        }
    }
}

/// The top-left corner, in pixels, of the cell at `(x, y)`.
pub fn cell_origin(x: usize, y: usize) -> (r: (u64, u64))
    requires
        x as int * CELL_SIZE <= u64::MAX,
        y as int * CELL_SIZE <= u64::MAX,
    ensures
        r.0 == x as int * CELL_SIZE,
        r.1 == y as int * CELL_SIZE,
{
    (x as u64 * CELL_SIZE, y as u64 * CELL_SIZE)
}

impl State {
    /// Reacts to a key press: pause, speed up, slow down or reset.
    pub fn key_down_event(&mut self, key: Key, repeat: bool)
        requires
            old(self).wf(),
        ensures
            final(self).wf(),
            final(self)@ == after_key(old(self)@, key, repeat),
    {
        if repeat {
            return;
        }
        match key {
            Key::Pause => self.toggle_running(),
            Key::Faster => self.adjust_rate(1),
            Key::Slower => self.adjust_rate(-1),
            Key::Reset => self.clear(),
            Key::Other => {},
        }
    }

    /// Toggles the cell under the pixel `(px, py)`; a click off the board
    /// changes nothing.
    pub fn mouse_button_down_event(&mut self, px: u64, py: u64)
        requires
            old(self).wf(),
        ensures
            final(self).wf(),
            ({
                let x = px as int / CELL_SIZE as int;
                let y = py as int / CELL_SIZE as int;
                final(self)@ == if in_grid(old(self)@.cells, x, y) {
                    Board { cells: flip(old(self)@.cells, x, y), ..old(self)@ }
                } else {
                    old(self)@
                }
            }),
    {
        let x = px / CELL_SIZE;
        let y = py / CELL_SIZE;
        let w = self.width() as u64;
        let h = self.height() as u64;
        if x < w && y < h {
            self.toggle(x as usize, y as usize);
        }
    }
}

} // verus!
