use vstd::prelude::*;
use std::sync::Arc;
use crate::block::{BlockModel, InRamNoteColumn, notes_in_prefix};
use crate::color::MIDIColor;
use crate::range::MIDIViewRange;
use crate::stats::MIDIFileStats;
use crate::timer::TimeKeeper;
use crate::view::{InRamNoteViews, notes_colored};

verus! {

/// The number of notes in the first `n` columns.
pub open spec fn notes_in_columns(columns: Seq<Seq<BlockModel>>, n: int) -> nat
    decreases n,
{
    if n <= 0 {
        0
    } else {
        notes_in_columns(columns, n - 1) + notes_in_prefix(columns[n - 1], columns[n - 1].len() as int)
    }
}

proof fn lemma_columns_monotonic(columns: Seq<Seq<BlockModel>>, i: int, j: int)
    requires
        i <= j,
    ensures
        notes_in_columns(columns, i) <= notes_in_columns(columns, j),
    decreases j - i,
{
    if i < j {
        lemma_columns_monotonic(columns, i, j - 1);
    }
}

/// A file held in memory: its note views, its playback clock, its length in
/// ticks and its note count.
pub struct InRamMIDIFile {
    view_data: InRamNoteViews,
    timer: TimeKeeper,
    length: u64,
    note_count: usize,
}

impl InRamMIDIFile {
    pub closed spec fn views(&self) -> InRamNoteViews {
        self.view_data
    }

    pub closed spec fn clock(&self) -> TimeKeeper {
        self.timer
    }

    pub closed spec fn length_spec(&self) -> u64 {
        self.length
    }

    pub closed spec fn note_count_spec(&self) -> usize {
        self.note_count
    }

    pub open spec fn well_formed(&self) -> bool {
        self.views().well_formed()
    }

    /// A file of `length` ticks over `columns`, for `track_count` tracks,
    /// its clock paused at zero.
    pub fn new(
        columns: Vec<InRamNoteColumn>,
        track_count: usize,
        hue_colors: &Vec<MIDIColor>,
        length: u64,
    ) -> (r: Self)
        requires
            hue_colors@.len() == 16,
            track_count * 16 <= usize::MAX,
            forall|i: int| 0 <= i < columns@.len() ==> (#[trigger] columns@[i]).well_formed(),
            forall|i: int|
                0 <= i < columns@.len() ==> notes_colored(
                    (#[trigger] columns@[i])@,
                    track_count * 16,
                ),
            notes_in_columns(
                columns@.map_values(|c: InRamNoteColumn| c@),
                columns@.len() as int,
            ) <= usize::MAX,
        ensures
            r.well_formed(),
            r.views()@.columns == columns@.map_values(|c: InRamNoteColumn| c@),
            r.views()@.range == (MIDIViewRange { start: 0, end: 0 }),
            r.views()@.colors.len() == track_count * 16,
            forall|i: int|
                0 <= i < r.views()@.colors.len() ==> r.views()@.colors[i] == hue_colors@[i % 16],
            r.clock()@.time == 0,
            r.clock()@.is_paused(),
            r.length_spec() == length,
            r.note_count_spec() == notes_in_columns(r.views()@.columns, r.views()@.columns.len() as int),
    {
        let ghost model = columns@.map_values(|c: InRamNoteColumn| c@);
        let mut count: usize = 0;
        let mut i: usize = 0;
        while i < columns.len()
            invariant
                model == columns@.map_values(|c: InRamNoteColumn| c@),
                forall|j: int| 0 <= j < columns@.len() ==> (#[trigger] columns@[j]).well_formed(),
                notes_in_columns(model, columns@.len() as int) <= usize::MAX,
                i <= columns@.len(),
                count == notes_in_columns(model, i as int),
            decreases columns@.len() - i,
        {
            proof {
                lemma_columns_monotonic(model, i as int + 1, columns@.len() as int);
                assert(model[i as int] == columns@[i as int]@);
            }
            count = count + columns[i].note_count();
            i = i + 1;
        }
        let view_data = InRamNoteViews::new(Arc::new(columns), track_count, hue_colors);
        InRamMIDIFile { view_data, timer: TimeKeeper::new(), length, note_count: count }
    }

    pub fn midi_length(&self) -> (r: Option<u64>)
        ensures
            r == Some(self.length_spec()),
    {
        Some(self.length)
    }

    /// A file in memory is parsed whole, so there is no parse front to report.
    pub fn parsed_up_to(&self) -> (r: Option<u64>)
        ensures
            r is None,
    {
        None
    }

    pub fn timer(&self) -> (r: &TimeKeeper)
        ensures
            *r == self.clock(),
    {
        &self.timer
    }

    pub fn timer_mut(&mut self) -> (r: &mut TimeKeeper)
        ensures
            *r == old(self).clock(),
            final(self).clock() == *final(r),
            final(self).views() == old(self).views(),
            final(self).length_spec() == old(self).length_spec(),
            final(self).note_count_spec() == old(self).note_count_spec(),
    {
        &mut self.timer
    }

    pub fn stats(&self) -> (r: MIDIFileStats)
        ensures
            r.total_notes == self.note_count_spec(),
            r.passed_notes == 0,
    {
        MIDIFileStats::new(self.note_count)
    }

    /// A file in memory can be sought backward.
    pub fn allows_seeking_backward(&self) -> (r: bool)
        ensures
            r,
    {
        true
    }

    /// Moves the window to `range` ticks from the clock's time at `now` and
    /// hands out the views.
    pub fn get_current_column_views(&mut self, range: u64, now: u64) -> (r: &InRamNoteViews)
        requires
            old(self).well_formed(),
            old(self).clock()@.time_at(now as int) + range <= u64::MAX,
        ensures
            final(self).well_formed(),
            *r == final(self).views(),
            final(self).views()@.range == (MIDIViewRange {
                start: old(self).clock()@.time_at(now as int) as u64,
                end: (old(self).clock()@.time_at(now as int) + range) as u64,
            }),
            final(self).views()@.columns == old(self).views()@.columns,
            final(self).views()@.colors == old(self).views()@.colors,
            final(self).clock() == old(self).clock(),
            final(self).length_spec() == old(self).length_spec(),
            final(self).note_count_spec() == old(self).note_count_spec(),
    {
        let time = self.timer.get_time(now);
        let new_range = MIDIViewRange::new(time, time + range);
        self.view_data.shift_view_range(new_range);
        &self.view_data
    }
}

/// The sources a file can be read from.
pub enum MIDIFileUnion {
    InRam(InRamMIDIFile),
}

impl MIDIFileUnion {
    pub open spec fn well_formed(&self) -> bool {
        match self {
            MIDIFileUnion::InRam(f) => f.well_formed(),
        }
    }

    pub open spec fn clock(&self) -> TimeKeeper {
        match self {
            MIDIFileUnion::InRam(f) => f.clock(),
        }
    }

    pub fn midi_length(&self) -> (r: Option<u64>)
        ensures
            match self {
                MIDIFileUnion::InRam(f) => r == Some(f.length_spec()),
            },
    {
        match self {
            MIDIFileUnion::InRam(f) => f.midi_length(),
        }
    }

    pub fn parsed_up_to(&self) -> (r: Option<u64>)
        ensures
            r is None,
    {
        match self {
            MIDIFileUnion::InRam(f) => f.parsed_up_to(),
        }
    }

    pub fn timer(&self) -> (r: &TimeKeeper)
        ensures
            *r == self.clock(),
    {
        match self {
            MIDIFileUnion::InRam(f) => f.timer(),
        }
    }

    pub fn timer_mut(&mut self) -> (r: &mut TimeKeeper)
        ensures
            *r == old(self).clock(),
            final(self).clock() == *final(r),
            final(self).well_formed() == old(self).well_formed(),
    {
        match self {
            MIDIFileUnion::InRam(f) => f.timer_mut(),
        }
    }

    pub fn stats(&self) -> (r: MIDIFileStats)
        ensures
            match self {
                MIDIFileUnion::InRam(f) => r.total_notes == f.note_count_spec(),
            },
            r.passed_notes == 0,
    {
        match self {
            MIDIFileUnion::InRam(f) => f.stats(),
        }
    }

    pub fn allows_seeking_backward(&self) -> (r: bool)
        ensures
            r,
    {
        match self {
            MIDIFileUnion::InRam(f) => f.allows_seeking_backward(),
        }
    }
}

} // verus!
