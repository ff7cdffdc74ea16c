use vstd::prelude::*;

verus! {

/// Note counters of a loaded file: the fixed total and how many have scrolled past.
pub struct MIDIFileStats {
    pub total_notes: usize,
    pub passed_notes: usize,
}

impl MIDIFileStats {
    pub fn new(notes: usize) -> (r: Self)
        ensures
            r.total_notes == notes,
            r.passed_notes == 0,
    {
        Self { total_notes: notes, passed_notes: 0 }
    }

    /// Counts `count` more notes as passed and returns the new passed count.
    pub fn add_notes(&mut self, count: usize) -> (r: usize)
        requires
            old(self).passed_notes + count <= usize::MAX,
        ensures
            final(self).passed_notes == old(self).passed_notes + count,
            final(self).total_notes == old(self).total_notes,
            r == final(self).passed_notes,
    {
        self.passed_notes = self.passed_notes + count;
        self.passed_notes
    }
}

} // verus!
