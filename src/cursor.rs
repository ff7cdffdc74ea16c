use vstd::prelude::*;
use crate::block::{
    BlockModel, InRamNoteColumn, blocks_sorted, lemma_prefix_monotonic, notes_in_prefix,
};
use crate::range::MIDIViewRange;

verus! {

/// `e` is the first block index whose block starts at or after `t`: the
/// blocks before it may reach into a window that ends at `t`.
pub open spec fn is_end_index(blocks: Seq<BlockModel>, t: int, e: int) -> bool {
    &&& 0 <= e <= blocks.len()
    &&& forall|k: int| 0 <= k < e ==> #[trigger] blocks[k].start < t
    &&& e < blocks.len() ==> blocks[e].start >= t
}

/// `s` is the first block index whose largest end reaches `t`: the blocks
/// before it lie wholly before a window that starts at `t`.
pub open spec fn is_start_index(blocks: Seq<BlockModel>, t: int, s: int) -> bool {
    &&& 0 <= s <= blocks.len()
    &&& forall|k: int| 0 <= k < s ==> #[trigger] blocks[k].max_end < t
    &&& s < blocks.len() ==> blocks[s].max_end >= t
}

/// What a column cursor holds.
pub struct CursorModel {
    pub notes_to_start: int,
    pub notes_to_end: int,
    pub block_start: int,
    pub block_end: int,
}

/// The cursor `c` describes exactly the window `range` over `blocks`.
pub open spec fn cursor_matches(blocks: Seq<BlockModel>, range: MIDIViewRange, c: CursorModel) -> bool {
    &&& is_start_index(blocks, range.start as int, c.block_start)
    &&& is_end_index(blocks, range.end as int, c.block_end)
    &&& c.notes_to_start == notes_in_prefix(blocks, c.block_start)
    &&& c.notes_to_end == notes_in_prefix(blocks, c.block_end)
}

/// The column's blocks are well formed and sorted.
pub open spec fn column_blocks_ok(blocks: Seq<BlockModel>) -> bool {
    &&& forall|i: int| 0 <= i < blocks.len() ==> (#[trigger] blocks[i]).well_formed()
    &&& blocks_sorted(blocks)
    &&& notes_in_prefix(blocks, blocks.len() as int) <= usize::MAX
}

pub open spec fn zero_cursor() -> CursorModel {
    CursorModel { notes_to_start: 0, notes_to_end: 0, block_start: 0, block_end: 0 }
}

/// The zero cursor describes the empty window at time zero.
pub proof fn lemma_zero_cursor(blocks: Seq<BlockModel>)
    requires
        column_blocks_ok(blocks),
    ensures
        cursor_matches(blocks, MIDIViewRange { start: 0, end: 0 }, zero_cursor()),
{
    if blocks.len() > 0 {
        assert(blocks[0].well_formed());
        assert(blocks[0].notes[0].end() <= blocks[0].max_end);
    }
}

/// A window fixes the end index.
pub proof fn lemma_end_index_unique(blocks: Seq<BlockModel>, t: int, e1: int, e2: int)
    requires
        is_end_index(blocks, t, e1),
        is_end_index(blocks, t, e2),
    ensures
        e1 == e2,
{
    if e1 < e2 {
        assert(blocks[e1].start < t);
    } else if e2 < e1 {
        assert(blocks[e2].start < t);
    }
}

/// A window fixes the start index.
pub proof fn lemma_start_index_unique(blocks: Seq<BlockModel>, t: int, s1: int, s2: int)
    requires
        is_start_index(blocks, t, s1),
        is_start_index(blocks, t, s2),
    ensures
        s1 == s2,
{
    if s1 < s2 {
        assert(blocks[s1].max_end < t);
    } else if s2 < s1 {
        assert(blocks[s2].max_end < t);
    }
}

/// A window fixes the whole cursor: two cursors that match one window over
/// one column are equal.
pub proof fn lemma_cursor_unique(
    blocks: Seq<BlockModel>,
    range: MIDIViewRange,
    c1: CursorModel,
    c2: CursorModel,
)
    requires
        cursor_matches(blocks, range, c1),
        cursor_matches(blocks, range, c2),
    ensures
        c1 == c2,
{
    lemma_start_index_unique(blocks, range.start as int, c1.block_start, c2.block_start);
    lemma_end_index_unique(blocks, range.end as int, c1.block_end, c2.block_end);
}

/// Over a well-formed window the blocks before the window are among those
/// that start before its end, so the visible count is never negative.
pub proof fn lemma_start_before_end(blocks: Seq<BlockModel>, range: MIDIViewRange, c: CursorModel)
    requires
        column_blocks_ok(blocks),
        range.well_formed(),
        cursor_matches(blocks, range, c),
    ensures
        c.block_start <= c.block_end,
        c.notes_to_start <= c.notes_to_end,
{
    if c.block_end < c.block_start {
        assert(blocks[c.block_end].max_end < range.start);
        assert(blocks[c.block_end].well_formed());
        assert(blocks[c.block_end].notes[0].end() <= blocks[c.block_end].max_end);
    }
    lemma_prefix_monotonic(blocks, c.block_start, c.block_end);
}

/// Per-column window state: the notes before the window start, the notes up
/// to the window end, and the half-open range of blocks in between.
#[derive(Debug, Clone, Copy, PartialEq, Eq, Structural)]
pub struct InRamNoteColumnViewData {
    notes_to_end: usize,
    notes_to_start: usize,
    block_start: usize,
    block_end: usize,
}

impl View for InRamNoteColumnViewData {
    type V = CursorModel;

    closed spec fn view(&self) -> CursorModel {
        CursorModel {
            notes_to_start: self.notes_to_start as int,
            notes_to_end: self.notes_to_end as int,
            block_start: self.block_start as int,
            block_end: self.block_end as int,
        }
    }
}

impl InRamNoteColumnViewData {
    /// The cursor of the empty window at time zero.
    pub fn new() -> (r: Self)
        ensures
            r@ == zero_cursor(),
    {
        InRamNoteColumnViewData { notes_to_end: 0, notes_to_start: 0, block_start: 0, block_end: 0 }
    }

    pub fn notes_to_start(&self) -> (r: usize)
        ensures
            r == self@.notes_to_start,
    {
        self.notes_to_start
    }

    pub fn notes_to_end(&self) -> (r: usize)
        ensures
            r == self@.notes_to_end,
    {
        self.notes_to_end
    }

    /// The half-open range of blocks that may be visible.
    pub fn block_range(&self) -> (r: (usize, usize))
        ensures
            r.0 == self@.block_start,
            r.1 == self@.block_end,
    {
        (self.block_start, self.block_end)
    }

    /// The cursor of `range` over `column`, found by a scan from the first block.
    pub fn rescan(column: &InRamNoteColumn, range: MIDIViewRange) -> (r: Self)
        requires
            column.well_formed(),
            range.well_formed(),
        ensures
            cursor_matches(column@, range, r@),
    {
        let ghost blocks = column@;
        let n = column.block_count();
        let mut s: usize = 0;
        let mut to_start: usize = 0;
        while s < n && column.block(s).max_end() < range.start
            invariant
                blocks == column@,
                column.well_formed(),
                n == blocks.len(),
                s <= n,
                forall|k: int| 0 <= k < s ==> #[trigger] blocks[k].max_end < range.start,
                to_start == notes_in_prefix(blocks, s as int),
            decreases n - s,
        {
            proof {
                lemma_prefix_monotonic(blocks, s as int + 1, n as int);
            }
            to_start = to_start + column.block(s).len();
            s = s + 1;
        }
        let mut e: usize = 0;
        let mut to_end: usize = 0;
        while e < n && column.block(e).start() < range.end
            invariant
                blocks == column@,
                column.well_formed(),
                n == blocks.len(),
                e <= n,
                forall|k: int| 0 <= k < e ==> #[trigger] blocks[k].start < range.end,
                to_end == notes_in_prefix(blocks, e as int),
            decreases n - e,
        {
            proof {
                lemma_prefix_monotonic(blocks, e as int + 1, n as int);
            }
            to_end = to_end + column.block(e).len();
            e = e + 1;
        }
        InRamNoteColumnViewData {
            notes_to_end: to_end,
            notes_to_start: to_start,
            block_start: s,
            block_end: e,
        }
    }

    /// Moves the cursor from the window `old_range` to `new_range`. A window
    /// end or a start that moves forward continues from where the cursor
    /// stands; an end that moves back steps back block by block; a start that
    /// moves back is found again by a scan from the first block, since the
    /// largest ends of the blocks need not be ordered.
    #[verifier::loop_isolation(false)]
    pub fn shift(&mut self, column: &InRamNoteColumn, old_range: MIDIViewRange, new_range: MIDIViewRange)
        requires
            column.well_formed(),
            old_range.well_formed(),
            new_range.well_formed(),
            cursor_matches(column@, old_range, old(self)@),
        ensures
            cursor_matches(column@, new_range, final(self)@),
    {
        let ghost blocks = column@;
        let n = column.block_count();
        if n == 0 {
            return;
        }
        let mut to_start = self.notes_to_start;
        let mut to_end = self.notes_to_end;
        let mut new_block_start = self.block_start;
        let mut new_block_end = self.block_end;
        if new_range.end > old_range.end {
            while new_block_end < n && column.block(new_block_end).start() < new_range.end
                invariant
                    blocks == column@,
                    column.well_formed(),
                    n == blocks.len(),
                    new_block_end <= n,
                    forall|k: int| 0 <= k < new_block_end ==> #[trigger] blocks[k].start < new_range.end,
                    to_end == notes_in_prefix(blocks, new_block_end as int),
                decreases n - new_block_end,
            {
                proof {
                    lemma_prefix_monotonic(blocks, new_block_end as int + 1, n as int);
                }
                to_end = to_end + column.block(new_block_end).len();
                new_block_end = new_block_end + 1;
            }
        } else if new_range.end < old_range.end {
            while new_block_end > 0 && column.block(new_block_end - 1).start() >= new_range.end
                invariant
                    blocks == column@,
                    column.well_formed(),
                    n == blocks.len(),
                    new_block_end <= n,
                    forall|k: int| 0 <= k < new_block_end ==> #[trigger] blocks[k].start < old_range.end,
                    new_block_end < n ==> blocks[new_block_end as int].start >= new_range.end,
                    to_end == notes_in_prefix(blocks, new_block_end as int),
                decreases new_block_end,
            {
                to_end = to_end - column.block(new_block_end - 1).len();
                new_block_end = new_block_end - 1;
            }
            assert forall|k: int| 0 <= k < new_block_end implies #[trigger] blocks[k].start
                < new_range.end by {
                assert(blocks[k].start <= blocks[new_block_end - 1].start);
            }
        }
        if new_range.start > old_range.start {
            while new_block_start < n && column.block(new_block_start).max_end() < new_range.start
                invariant
                    blocks == column@,
                    column.well_formed(),
                    n == blocks.len(),
                    new_block_start <= n,
                    forall|k: int| 0 <= k < new_block_start ==> #[trigger] blocks[k].max_end < new_range.start,
                    to_start == notes_in_prefix(blocks, new_block_start as int),
                decreases n - new_block_start,
            {
                proof {
                    lemma_prefix_monotonic(blocks, new_block_start as int + 1, n as int);
                }
                to_start = to_start + column.block(new_block_start).len();
                new_block_start = new_block_start + 1;
            }
        } else if new_range.start < old_range.start {
            to_start = 0;
            new_block_start = 0;
            while new_block_start < n && column.block(new_block_start).max_end() < new_range.start
                invariant
                    blocks == column@,
                    column.well_formed(),
                    n == blocks.len(),
                    new_block_start <= n,
                    forall|k: int| 0 <= k < new_block_start ==> #[trigger] blocks[k].max_end < new_range.start,
                    to_start == notes_in_prefix(blocks, new_block_start as int),
                decreases n - new_block_start,
            {
                proof {
                    lemma_prefix_monotonic(blocks, new_block_start as int + 1, n as int);
                }
                to_start = to_start + column.block(new_block_start).len();
                new_block_start = new_block_start + 1;
            }
        }
        self.notes_to_start = to_start;
        self.notes_to_end = to_end;
        self.block_start = new_block_start;
        self.block_end = new_block_end;
    }
}

} // verus!
