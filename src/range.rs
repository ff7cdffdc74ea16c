use vstd::prelude::*;

verus! {

/// The time interval `[start, end)` shown on screen, in ticks.
#[derive(Debug, Clone, Copy, Default, PartialEq, Eq, Structural)]
pub struct MIDIViewRange {
    pub start: u64,
    pub end: u64,
}

impl MIDIViewRange {
    pub open spec fn well_formed(self) -> bool {
        self.start <= self.end
    }

    pub fn new(start: u64, end: u64) -> (r: Self)
        requires
            start <= end,
        ensures
            r.start == start,
            r.end == end,
            r.well_formed(),
    {
        MIDIViewRange { start, end }
    }

    pub fn length(&self) -> (r: u64)
        requires
            self.well_formed(),
        ensures
            r == self.end - self.start,
    {
        self.end - self.start
    }
}

} // verus!
