use vstd::prelude::*;
use std::sync::Arc;
use crate::block::{BlockModel, InRamNoteColumn, MIDINote, notes_in_prefix};
use crate::color::MIDIColor;
use crate::cursor::{
    CursorModel, InRamNoteColumnViewData, column_blocks_ok, cursor_matches, lemma_start_before_end,
    lemma_zero_cursor,
};
use crate::laws::lemma_same_window_same_state;
use crate::range::MIDIViewRange;

verus! {

/// A note placed relative to the window start, with its render color.
#[derive(Debug, Clone, Copy, PartialEq, Eq, Structural)]
pub struct DisplacedMIDINote {
    pub start: i128,
    pub len: u64,
    pub color: MIDIColor,
}

/// Every note of the blocks has a palette slot below `slots`.
pub open spec fn notes_colored(blocks: Seq<BlockModel>, slots: int) -> bool {
    forall|b: int, k: int|
        0 <= b < blocks.len() && 0 <= k < blocks[b].notes.len() ==> #[trigger] blocks[b].notes[k].track_chan
            < slots
}

/// The note `n` displaced against a window starting at `window_start`.
pub open spec fn displace(n: MIDINote, window_start: u64, colors: Seq<MIDIColor>) -> DisplacedMIDINote {
    DisplacedMIDINote {
        start: (n.start as int - window_start as int) as i128,
        len: n.len,
        color: colors[n.track_chan as int],
    }
}

/// The first `upto` notes of block `b`, displaced, last note first.
pub open spec fn block_notes_rev(
    b: BlockModel,
    upto: int,
    window_start: u64,
    colors: Seq<MIDIColor>,
) -> Seq<DisplacedMIDINote> {
    Seq::new(upto as nat, |i: int| displace(b.notes[upto - 1 - i], window_start, colors))
}

/// The notes of blocks `lo..hi`, displaced, from the last note of the last
/// block back to the first note of block `lo`.
pub open spec fn blocks_rev(
    blocks: Seq<BlockModel>,
    lo: int,
    hi: int,
    window_start: u64,
    colors: Seq<MIDIColor>,
) -> Seq<DisplacedMIDINote>
    decreases hi - lo,
{
    if hi <= lo {
        Seq::empty()
    } else {
        block_notes_rev(blocks[hi - 1], blocks[hi - 1].notes.len() as int, window_start, colors)
            + blocks_rev(blocks, lo, hi - 1, window_start, colors)
    }
}

/// The walk over blocks `lo..hi` yields as many notes as those blocks hold.
pub proof fn lemma_blocks_rev_len(
    blocks: Seq<BlockModel>,
    lo: int,
    hi: int,
    window_start: u64,
    colors: Seq<MIDIColor>,
)
    requires
        0 <= lo <= hi <= blocks.len(),
    ensures
        blocks_rev(blocks, lo, hi, window_start, colors).len() == notes_in_prefix(blocks, hi)
            - notes_in_prefix(blocks, lo),
    decreases hi - lo,
{
    if lo < hi {
        lemma_blocks_rev_len(blocks, lo, hi - 1, window_start, colors);
    }
}

/// What the views hold: the columns, one cursor per column, the palette and
/// the current window.
pub struct ViewsModel {
    pub columns: Seq<Seq<BlockModel>>,
    pub cursors: Seq<CursorModel>,
    pub colors: Seq<MIDIColor>,
    pub range: MIDIViewRange,
}

impl ViewsModel {
    pub open spec fn well_formed(self) -> bool {
        &&& self.range.well_formed()
        &&& self.columns.len() == self.cursors.len()
        &&& forall|i: int| 0 <= i < self.columns.len() ==> column_blocks_ok(#[trigger] self.columns[i])
        &&& forall|i: int|
            0 <= i < self.columns.len() ==> cursor_matches(
                #[trigger] self.columns[i],
                self.range,
                self.cursors[i],
            )
        &&& forall|i: int|
            0 <= i < self.columns.len() ==> notes_colored(
                #[trigger] self.columns[i],
                self.colors.len() as int,
            )
    }

    /// The displaced notes of column `key` in the current window.
    pub open spec fn displaced(self, key: int) -> Seq<DisplacedMIDINote> {
        blocks_rev(
            self.columns[key],
            self.cursors[key].block_start,
            self.cursors[key].block_end,
            self.range.start,
            self.colors,
        )
    }
}

/// Note views that follow a moving window.
pub trait MIDINoteViewsBase {}

impl MIDINoteViewsBase for InRamNoteViews {}

/// All columns of a file with their window cursors and the track palette.
pub struct InRamNoteViews {
    columns: Arc<Vec<InRamNoteColumn>>,
    column_view_data: Vec<InRamNoteColumnViewData>,
    default_track_colors: Vec<MIDIColor>,
    view_range: MIDIViewRange,
}

impl View for InRamNoteViews {
    type V = ViewsModel;

    closed spec fn view(&self) -> ViewsModel {
        ViewsModel {
            columns: self.columns@.map_values(|c: InRamNoteColumn| c@),
            cursors: self.column_view_data@.map_values(|d: InRamNoteColumnViewData| d@),
            colors: self.default_track_colors@,
            range: self.view_range,
        }
    }
}

impl InRamNoteViews {
    pub open spec fn well_formed(&self) -> bool {
        self@.well_formed()
    }

    /// Views over `columns` for a file of `track_count` tracks, at the empty
    /// window at time zero. `hue_colors` are the sixteen hue colors of the
    /// deterministic palette.
    pub fn new(columns: Arc<Vec<InRamNoteColumn>>, track_count: usize, hue_colors: &Vec<MIDIColor>) -> (r: Self)
        requires
            hue_colors@.len() == 16,
            track_count * 16 <= usize::MAX,
            forall|i: int| 0 <= i < columns@.len() ==> (#[trigger] columns@[i]).well_formed(),
            forall|i: int|
                0 <= i < columns@.len() ==> notes_colored(
                    (#[trigger] columns@[i])@,
                    track_count * 16,
                ),
        ensures
            r.well_formed(),
            r@.columns == columns@.map_values(|c: InRamNoteColumn| c@),
            r@.range == (MIDIViewRange { start: 0, end: 0 }),
            r@.colors.len() == track_count * 16,
            forall|i: int| 0 <= i < r@.colors.len() ==> r@.colors[i] == hue_colors@[i % 16],
    {
        let mut column_view_data: Vec<InRamNoteColumnViewData> = Vec::new();
        let mut i: usize = 0;
        while i < columns.len()
            invariant
                i <= columns@.len(),
                column_view_data@.len() == i,
                forall|j: int| 0 <= j < i ==> (#[trigger] column_view_data@[j])@ == crate::cursor::zero_cursor(),
            decreases columns@.len() - i,
        {
            column_view_data.push(InRamNoteColumnViewData::new());
            i = i + 1;
        }
        let r = InRamNoteViews {
            columns,
            column_view_data,
            view_range: MIDIViewRange { start: 0, end: 0 },
            default_track_colors: MIDIColor::new_vec_for_tracks(track_count, hue_colors),
        };
        assert forall|j: int| 0 <= j < r@.columns.len() implies cursor_matches(
            #[trigger] r@.columns[j],
            r@.range,
            r@.cursors[j],
        ) by {
            assert(r@.columns[j] == r.columns@[j]@);
            lemma_zero_cursor(r@.columns[j]);
        }
        r
    }

    /// Moves the window to `new_view_range`, column by column.
    pub fn shift_view_range(&mut self, new_view_range: MIDIViewRange)
        requires
            old(self).well_formed(),
            new_view_range.well_formed(),
        ensures
            final(self).well_formed(),
            final(self)@.range == new_view_range,
            final(self)@.columns == old(self)@.columns,
            final(self)@.colors == old(self)@.colors,
            old(self)@.range == new_view_range ==> final(self)@ == old(self)@,
    {
        let old_view_range = self.view_range;
        let ghost old_model = self@;
        let mut i: usize = 0;
        while i < self.columns.len()
            invariant
                old_model == old(self)@,
                old_model.well_formed(),
                self.columns == old(self).columns,
                self.default_track_colors == old(self).default_track_colors,
                self.view_range == old_view_range,
                old_view_range == old_model.range,
                new_view_range.well_formed(),
                self.column_view_data@.len() == self.columns@.len(),
                i <= self.columns@.len(),
                forall|j: int|
                    i <= j < self.columns@.len() ==> (#[trigger] self.column_view_data@[j])@
                        == old_model.cursors[j],
                forall|j: int|
                    0 <= j < i ==> cursor_matches(
                        old_model.columns[j],
                        new_view_range,
                        (#[trigger] self.column_view_data@[j])@,
                    ),
            decreases self.columns@.len() - i,
        {
            let mut data = self.column_view_data[i];
            proof {
                assert(old_model.columns[i as int] == self.columns@[i as int]@);
                assert(column_blocks_ok(old_model.columns[i as int]));
                assert(cursor_matches(old_model.columns[i as int], old_model.range, old_model.cursors[i as int]));
            }
            data.shift(&self.columns[i], old_view_range, new_view_range);
            self.column_view_data.set(i, data);
            i = i + 1;
        }
        self.view_range = new_view_range;
        assert(self@.columns == old_model.columns);
        assert forall|j: int| 0 <= j < self@.columns.len() implies cursor_matches(
            #[trigger] self@.columns[j],
            self@.range,
            self@.cursors[j],
        ) by {
            assert(self@.cursors[j] == self.column_view_data@[j]@);
        }
        proof {
            if old_model.range == new_view_range {
                lemma_same_window_same_state(self@, old_model);
            }
        }
    }

    /// This view moves backward only at the cost of a rescan from the first block.
    pub fn allows_seeking_backward(&self) -> (r: bool)
        ensures
            !r,
    {
        false
    }

    pub fn range(&self) -> (r: MIDIViewRange)
        ensures
            r == self@.range,
    {
        self.view_range
    }

    /// The number of columns.
    pub fn column_count(&self) -> (r: usize)
        ensures
            r == self@.columns.len(),
    {
        self.columns.len()
    }

    /// The cursor of column `key`.
    pub fn column_data(&self, key: usize) -> (r: InRamNoteColumnViewData)
        requires
            key < self@.columns.len(),
            self.well_formed(),
        ensures
            r@ == self@.cursors[key as int],
    {
        self.column_view_data[key]
    }

    /// The view of column `key` in the current window.
    pub fn get_column(&self, key: usize) -> (r: InRamNoteColumnView<'_>)
        requires
            self.well_formed(),
            key < self@.columns.len(),
        ensures
            r.well_formed(),
            r.views() == self,
            r.key() == key,
            r.view_range() == self@.range,
    {
        InRamNoteColumnView { view: self, key, view_range: self.view_range }
    }
}

/// One column of the views, bound to a window whose start displaces its notes.
pub struct InRamNoteColumnView<'a> {
    view: &'a InRamNoteViews,
    key: usize,
    view_range: MIDIViewRange,
}

impl<'a> InRamNoteColumnView<'a> {
    pub closed spec fn views(&self) -> &'a InRamNoteViews {
        self.view
    }

    pub closed spec fn key(&self) -> usize {
        self.key
    }

    pub closed spec fn view_range(&self) -> MIDIViewRange {
        self.view_range
    }

    pub open spec fn well_formed(&self) -> bool {
        self.views().well_formed() && self.key() < self.views()@.columns.len()
    }

    /// The notes that the walk yields: those of the cursor's blocks, last first,
    /// displaced against the start of this view's window.
    pub open spec fn displaced(&self) -> Seq<DisplacedMIDINote> {
        let m = self.views()@;
        blocks_rev(
            m.columns[self.key() as int],
            m.cursors[self.key() as int].block_start,
            m.cursors[self.key() as int].block_end,
            self.view_range().start,
            m.colors,
        )
    }

    /// All visible notes, last-starting first, gathered by one walk.
    pub fn displaced_notes(&self) -> (r: Vec<DisplacedMIDINote>)
        requires
            self.well_formed(),
        ensures
            r@ == self.displaced(),
    {
        let mut it = self.iterate_displaced_notes();
        let ghost all = it.remaining();
        let mut out: Vec<DisplacedMIDINote> = Vec::new();
        loop
            invariant
                it.well_formed(),
                out@ + it.remaining() == all,
            ensures
                out@ == all,
            decreases it.remaining().len(),
        {
            let ghost before = it.remaining();
            match it.next() {
                Some(d) => {
                    out.push(d);
                    proof {
                        assert(before == seq![d] + before.drop_first());
                        assert(out@ + it.remaining() =~= all);
                    }
                },
                None => {
                    proof {
                        assert(out@ =~= all);
                    }
                    break;
                },
            }
        }
        out
    }

    /// Sets the window whose start displaces the notes.
    pub fn adjust_view_range(&mut self, range: MIDIViewRange)
        ensures
            final(self).view_range() == range,
            final(self).views() == old(self).views(),
            final(self).key() == old(self).key(),
    {
        self.view_range = range;
    }

    /// A fresh walk over the visible notes, last-starting first.
    pub fn iterate_displaced_notes(&self) -> (r: InRamNoteBlockIter<'a>)
        requires
            self.well_formed(),
        ensures
            r.well_formed(),
            r.remaining() == self.displaced(),
            r.remaining().len() == self.views()@.cursors[self.key() as int].notes_to_end
                - self.views()@.cursors[self.key() as int].notes_to_start,
    {
        let views: &'a InRamNoteViews = self.view;
        let ghost m = views@;
        let k = self.key;
        let column: &'a InRamNoteColumn = &views.columns[k];
        let data = views.column_view_data[k];
        let (first, last) = data.block_range();
        let to_start = data.notes_to_start();
        let to_end = data.notes_to_end();
        proof {
            assert(m.columns[k as int] == column@);
            assert(m.cursors[k as int] == data@);
            assert(column_blocks_ok(m.columns[k as int]));
            assert(cursor_matches(m.columns[k as int], m.range, m.cursors[k as int]));
            lemma_start_before_end(column@, m.range, data@);
            lemma_blocks_rev_len(column@, first as int, last as int, self.view_range.start, m.colors);
            assert(notes_colored(m.columns[k as int], m.colors.len() as int));
        }
        let note_index = if last > first {
            column.block(last - 1).len()
        } else {
            0
        };
        let count = if to_end >= to_start {
            to_end - to_start
        } else {
            0
        };
        InRamNoteBlockIter {
            column,
            colors: &views.default_track_colors,
            window_start: self.view_range.start,
            first_block: first,
            block_index: last,
            note_index,
            remaining_count: count,
        }
    }
}

/// A walk over the notes of a run of blocks, from the last note of the last
/// block back to the first note of the first.
pub struct InRamNoteBlockIter<'a> {
    column: &'a InRamNoteColumn,
    colors: &'a Vec<MIDIColor>,
    window_start: u64,
    first_block: usize,
    block_index: usize,
    note_index: usize,
    remaining_count: usize,
}

impl<'a> InRamNoteBlockIter<'a> {
    /// The notes not yet yielded, in the order they will come.
    pub closed spec fn remaining(&self) -> Seq<DisplacedMIDINote> {
        let blocks = self.column@;
        if self.block_index > self.first_block {
            block_notes_rev(
                blocks[self.block_index - 1],
                self.note_index as int,
                self.window_start,
                self.colors@,
            ) + blocks_rev(
                blocks,
                self.first_block as int,
                self.block_index - 1,
                self.window_start,
                self.colors@,
            )
        } else {
            Seq::empty()
        }
    }

    pub closed spec fn well_formed(&self) -> bool {
        let blocks = self.column@;
        &&& column_blocks_ok(blocks)
        &&& notes_colored(blocks, self.colors@.len() as int)
        &&& self.first_block <= self.block_index <= blocks.len()
        &&& self.block_index > self.first_block ==> self.note_index
            <= blocks[self.block_index - 1].notes.len()
        &&& self.block_index == self.first_block ==> self.note_index == 0
        &&& self.remaining_count == self.remaining().len()
    }

    /// The number of notes still to come.
    pub fn len(&self) -> (r: usize)
        requires
            self.well_formed(),
        ensures
            r == self.remaining().len(),
    {
        self.remaining_count
    }

    /// The next note of the walk, or `None` once all have been yielded.
    pub fn next(&mut self) -> (r: Option<DisplacedMIDINote>)
        requires
            old(self).well_formed(),
        ensures
            final(self).well_formed(),
            match r {
                Some(d) => {
                    &&& old(self).remaining().len() > 0
                    &&& d == old(self).remaining()[0]
                    &&& final(self).remaining() == old(self).remaining().drop_first()
                },
                None => {
                    &&& old(self).remaining().len() == 0
                    &&& final(self).remaining() == old(self).remaining()
                },
            },
    {
        let ghost blocks = self.column@;
        let ghost ws = self.window_start;
        let ghost colors = self.colors@;
        if self.note_index == 0 {
            if self.block_index - self.first_block <= 1 {
                proof {
                    if self.block_index > self.first_block {
                        assert(self.remaining() =~= Seq::empty());
                    }
                }
                return None;
            }
            let ghost before = self.remaining();
            self.block_index = self.block_index - 1;
            self.note_index = self.column.block(self.block_index - 1).len();
            proof {
                assert(blocks[self.block_index - 1].well_formed());
                assert(before =~= self.remaining());
            }
        }
        let ghost before = self.remaining();
        let ghost b = blocks[self.block_index - 1];
        let ghost rest = blocks_rev(blocks, self.first_block as int, self.block_index - 1, ws, colors);
        self.note_index = self.note_index - 1;
        let block = self.column.block(self.block_index - 1);
        let note = block.notes()[self.note_index];
        proof {
            assert(b.notes[self.note_index as int] == note);
            assert(notes_colored(blocks, colors.len() as int));
            assert(blocks[self.block_index - 1].notes[self.note_index as int].track_chan < colors.len());
        }
        let d = DisplacedMIDINote {
            start: note.start as i128 - self.window_start as i128,
            len: note.len,
            color: self.colors[note.track_chan as usize],
        };
        proof {
            let head = block_notes_rev(b, self.note_index + 1, ws, colors);
            let tail = block_notes_rev(b, self.note_index as int, ws, colors);
            assert(before == head + rest);
            assert(head.drop_first() =~= tail);
            assert(before.drop_first() =~= tail + rest);
            assert(before[0] == head[0]);
            assert(self.remaining() == tail + rest);
        }
        self.remaining_count = self.remaining_count - 1;
        Some(d)
    }
}

} // verus!
