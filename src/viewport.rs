use vstd::prelude::*;
use crate::picker::{min, sat_sub};

verus! {

/// Where the picker draws: the terminal's size, the number of rows it asked
/// for (the prompt line plus one per candidate), and the screen row at which
/// its reserved region starts.
#[derive(Clone, Copy, Debug, PartialEq, Eq, Structural)]
pub struct ViewportGeometry {
    pub terminal_width: u16,
    pub terminal_height: u16,
    pub desired_height: usize,
    pub start_row: u16,
}

impl ViewportGeometry {
    pub fn new(terminal_width: u16, terminal_height: u16, desired_height: usize, start_row: u16) -> (r: Self)
        ensures
            r == (ViewportGeometry { terminal_width, terminal_height, desired_height, start_row }),
    {
        ViewportGeometry { terminal_width, terminal_height, desired_height, start_row }
    }

    /// The rows to reserve below the cursor: as many as desired, at most the
    /// terminal's height.
    pub fn reserved_rows(terminal_height: u16, desired_height: usize) -> (r: u16)
        ensures
            r == min(terminal_height as int, desired_height as int),
    {
        if (terminal_height as usize) <= desired_height {
            terminal_height
        } else {
            desired_height as u16
        }
    }

    /// The blank lines to print (and move back up over) so that the reserved
    /// rows exist below the cursor's line.
    pub fn lines_to_open(terminal_height: u16, desired_height: usize) -> (r: u16)
        ensures
            r == sat_sub(min(terminal_height as int, desired_height as int), 1),
    {
        let rows = Self::reserved_rows(terminal_height, desired_height);
        if rows > 0 {
            rows - 1
        } else {
            0
        }
    }

    /// The rows usable now, from the live terminal height.
    pub fn usable_height(&self) -> (r: u16)
        ensures
            r == min(self.terminal_height as int, self.desired_height as int),
    {
        Self::reserved_rows(self.terminal_height, self.desired_height)
    }

    /// The rows left for candidates below the prompt line.
    pub fn visible_rows(&self) -> (r: usize)
        ensures
            r == sat_sub(min(self.terminal_height as int, self.desired_height as int), 1),
    {
        let h = self.usable_height();
        if h > 0 {
            (h - 1) as usize
        } else {
            0
        }
    }

    /// Records a new terminal size; nothing else changes.
    pub fn resize(&mut self, width: u16, height: u16)
        ensures
            *final(self) == (ViewportGeometry {
                terminal_width: width,
                terminal_height: height,
                ..*old(self)
            }),
    {
        self.terminal_width = width;
        self.terminal_height = height;
    }
}

} // verus!
