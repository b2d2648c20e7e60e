use crate::universe::{generation, Universe};
use vstd::prelude::*;

verus! {

/// A universe with the play/pause state of the host's frame loop. The host
/// reports each event and performs what the returned value asks for.
pub struct Session {
    universe: Universe,
    playing: bool,
}

/// `i` held to the last index of an axis of `n` positions.
pub open spec fn clamp_index(i: int, n: int) -> int {
    if i < n - 1 {
        i
    } else {
        n - 1
    }
}

impl Session {
    /// The universe being shown.
    pub closed spec fn spec_universe(&self) -> Universe {
        self.universe
    }

    /// Whether the frame loop is running.
    pub closed spec fn spec_playing(&self) -> bool {
        self.playing
    }

    /// The universe is well formed and has at least one cell.
    pub open spec fn wf(&self) -> bool {
        &&& self.spec_universe().wf()
        &&& self.spec_universe().spec_width() > 0
        &&& self.spec_universe().spec_height() > 0
    }

    /// A running session on `universe`.
    pub fn new(universe: Universe) -> (r: Session)
        requires
            universe.wf(),
            universe.spec_width() > 0,
            universe.spec_height() > 0,
        ensures
            r.wf(),
            r.spec_universe() == universe,
            r.spec_playing(),
    {
        Session { universe, playing: true }
    }

    /// The universe being shown.
    pub fn universe(&self) -> (r: &Universe)
        ensures
            *r == self.spec_universe(),
    {
        &self.universe
    }

    /// Whether the frame loop is running.
    pub fn is_playing(&self) -> (r: bool)
        ensures
            r == self.spec_playing(),
    {
        self.playing
    }

    /// An animation frame has come: the universe advances one generation.
    /// Returns whether the host is to ask for another frame.
    pub fn on_frame(&mut self) -> (r: bool)
        requires
            old(self).wf(),
        ensures
            final(self).wf(),
            r == old(self).spec_playing(),
            final(self).spec_playing() == old(self).spec_playing(),
            final(self).spec_universe().spec_width() == old(self).spec_universe().spec_width(),
            final(self).spec_universe().spec_height() == old(self).spec_universe().spec_height(),
            final(self).spec_universe()@ == generation(
                old(self).spec_universe()@,
                old(self).spec_universe().spec_width(),
                old(self).spec_universe().spec_height(),
            ),
    {
        self.universe.tick();
        self.playing
    }

    /// The play/pause control was pressed: a running loop stops, a stopped
    /// one starts. Returns whether the host is to ask for a frame, which is
    /// when the loop starts again.
    pub fn on_play_pause(&mut self) -> (r: bool)
        requires
            old(self).wf(),
        ensures
            final(self).wf(),
            final(self).spec_universe() == old(self).spec_universe(),
            final(self).spec_playing() == !old(self).spec_playing(),
            r == final(self).spec_playing(),
    {
        self.playing = !self.playing;
        self.playing
    }

    /// A press landed on `(row, column)`, counted from the top left and
    /// possibly past the last row or column: the cell there, held to the
    /// grid, is flipped.
    pub fn on_press(&mut self, row: u32, column: u32)
        requires
            old(self).wf(),
        ensures
            final(self).wf(),
            final(self).spec_playing() == old(self).spec_playing(),
            final(self).spec_universe().spec_width() == old(self).spec_universe().spec_width(),
            final(self).spec_universe().spec_height() == old(self).spec_universe().spec_height(),
            ({
                let u = old(self).spec_universe();
                let r = clamp_index(row as int, u.spec_height());
                let c = clamp_index(column as int, u.spec_width());
                final(self).spec_universe()@ == u@.update(
                    r * u.spec_width() + c,
                    u.spec_cell(r, c).flipped(),
                )
            }),
    {
        let height = self.universe.height();
        let width = self.universe.width();
        let r = if row < height - 1 {
            row
        } else {
            height - 1
        };
        let c = if column < width - 1 {
            column
        } else {
            width - 1
        };
        self.universe.toggle_cell(r, c);
    }
}

} // verus!
