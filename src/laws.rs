use vstd::prelude::*;
use crate::block::{BlockModel, notes_in_blocks_before, notes_in_prefix};
use crate::color::MIDIColor;
use crate::cursor::{
    CursorModel, column_blocks_ok, cursor_matches, is_end_index, lemma_cursor_unique,
    lemma_start_before_end,
};
use crate::view::{ViewsModel, block_notes_rev, blocks_rev, displace, lemma_blocks_rev_len};

verus! {

/// The notes up to the end index of a window are exactly the notes of the
/// blocks that start before the window's end.
pub proof fn lemma_end_index_counts(blocks: Seq<BlockModel>, t: int, e: int)
    requires
        column_blocks_ok(blocks),
        is_end_index(blocks, t, e),
    ensures
        notes_in_prefix(blocks, e) == notes_in_blocks_before(blocks, t),
    decreases blocks.len(),
{
    if blocks.len() > 0 {
        let init = blocks.drop_last();
        let n = blocks.len() - 1;
        assert forall|i: int| 0 <= i < init.len() implies (#[trigger] init[i]).well_formed() by {
            assert(init[i] == blocks[i]);
        }
        lemma_prefix_of_init_at(blocks, n);
        crate::block::lemma_prefix_monotonic(blocks, n, n + 1);
        if e == blocks.len() {
            assert(blocks[n].start < t);
            lemma_end_index_counts(init, t, n);
        } else {
            assert(blocks[e].start <= blocks[n].start);
            lemma_end_index_counts(init, t, e);
            lemma_prefix_of_init_at(blocks, e);
        }
    }
}

proof fn lemma_prefix_of_init_at(blocks: Seq<BlockModel>, k: int)
    requires
        0 <= k < blocks.len(),
    ensures
        notes_in_prefix(blocks.drop_last(), k) == notes_in_prefix(blocks, k),
    decreases k,
{
    if k > 0 {
        lemma_prefix_of_init_at(blocks, k - 1);
    }
}

/// Whatever windows came before, the notes counted up to the window end of a
/// column are the notes of its blocks that start before that end.
pub proof fn lemma_notes_to_end_counts(v: ViewsModel, key: int)
    requires
        v.well_formed(),
        0 <= key < v.columns.len(),
    ensures
        v.cursors[key].notes_to_end == notes_in_blocks_before(v.columns[key], v.range.end as int),
{
    assert(column_blocks_ok(v.columns[key]));
    assert(cursor_matches(v.columns[key], v.range, v.cursors[key]));
    lemma_end_index_counts(v.columns[key], v.range.end as int, v.cursors[key].block_end);
}

/// The cursor that the incremental shift leaves for a column is the one that
/// a scan from the first block finds for the same window.
pub proof fn lemma_shift_agrees_with_rescan(v: ViewsModel, key: int, rescanned: CursorModel)
    requires
        v.well_formed(),
        0 <= key < v.columns.len(),
        cursor_matches(v.columns[key], v.range, rescanned),
    ensures
        v.cursors[key] == rescanned,
{
    assert(cursor_matches(v.columns[key], v.range, v.cursors[key]));
    lemma_cursor_unique(v.columns[key], v.range, v.cursors[key], rescanned);
}

/// Two well-formed views over the same columns, palette and window hold the
/// same cursors: shifting to the window already shown changes nothing.
pub proof fn lemma_same_window_same_state(v1: ViewsModel, v2: ViewsModel)
    requires
        v1.well_formed(),
        v2.well_formed(),
        v1.columns == v2.columns,
        v1.colors == v2.colors,
        v1.range == v2.range,
    ensures
        v1 == v2,
{
    assert forall|i: int| 0 <= i < v1.cursors.len() implies v1.cursors[i] == v2.cursors[i] by {
        lemma_shift_agrees_with_rescan(v1, i, v2.cursors[i]);
    }
    assert(v1.cursors =~= v2.cursors);
}

/// The walk over a column yields as many notes as lie between the two counters.
pub proof fn lemma_displaced_len(v: ViewsModel, key: int)
    requires
        v.well_formed(),
        0 <= key < v.columns.len(),
    ensures
        v.displaced(key).len() == v.cursors[key].notes_to_end - v.cursors[key].notes_to_start,
{
    assert(column_blocks_ok(v.columns[key]));
    assert(cursor_matches(v.columns[key], v.range, v.cursors[key]));
    lemma_start_before_end(v.columns[key], v.range, v.cursors[key]);
    lemma_blocks_rev_len(
        v.columns[key],
        v.cursors[key].block_start,
        v.cursors[key].block_end,
        v.range.start,
        v.colors,
    );
}

/// The (block index, note index) positions of the notes of blocks `lo..hi`,
/// in the order of the walk.
pub open spec fn positions_rev(blocks: Seq<BlockModel>, lo: int, hi: int) -> Seq<(int, int)>
    decreases hi - lo,
{
    if hi <= lo {
        Seq::empty()
    } else {
        Seq::new(blocks[hi - 1].notes.len(), |i: int| (hi - 1, blocks[hi - 1].notes.len() - 1 - i))
            + positions_rev(blocks, lo, hi - 1)
    }
}

/// `p` comes after `q` in the order of (block index, note index).
pub open spec fn position_after(p: (int, int), q: (int, int)) -> bool {
    p.0 > q.0 || (p.0 == q.0 && p.1 > q.1)
}

/// The walk over blocks `lo..hi` yields the note at each position of
/// `positions_rev`, and those positions strictly decrease.
pub proof fn lemma_walk_order(
    blocks: Seq<BlockModel>,
    lo: int,
    hi: int,
    window_start: u64,
    colors: Seq<MIDIColor>,
)
    requires
        0 <= lo <= hi <= blocks.len(),
    ensures
        positions_rev(blocks, lo, hi).len() == blocks_rev(blocks, lo, hi, window_start, colors).len(),
        forall|i: int|
            0 <= i < positions_rev(blocks, lo, hi).len() ==> {
                let p = #[trigger] positions_rev(blocks, lo, hi)[i];
                &&& lo <= p.0 < hi
                &&& 0 <= p.1 < blocks[p.0].notes.len()
                &&& blocks_rev(blocks, lo, hi, window_start, colors)[i] == displace(
                    blocks[p.0].notes[p.1],
                    window_start,
                    colors,
                )
            },
        forall|i: int, j: int|
            0 <= i < j < positions_rev(blocks, lo, hi).len() ==> position_after(
                #[trigger] positions_rev(blocks, lo, hi)[i],
                #[trigger] positions_rev(blocks, lo, hi)[j],
            ),
    decreases hi - lo,
{
    if lo < hi {
        lemma_walk_order(blocks, lo, hi - 1, window_start, colors);
        let b = blocks[hi - 1];
        let head = Seq::new(b.notes.len(), |i: int| (hi - 1, b.notes.len() - 1 - i));
        let tail = positions_rev(blocks, lo, hi - 1);
        let ps = positions_rev(blocks, lo, hi);
        let dh = block_notes_rev(b, b.notes.len() as int, window_start, colors);
        let dt = blocks_rev(blocks, lo, hi - 1, window_start, colors);
        let ds = blocks_rev(blocks, lo, hi, window_start, colors);
        assert(ps == head + tail);
        assert(ds == dh + dt);
        assert forall|i: int| 0 <= i < ps.len() implies {
            let p = #[trigger] ps[i];
            &&& lo <= p.0 < hi
            &&& 0 <= p.1 < blocks[p.0].notes.len()
            &&& ds[i] == displace(blocks[p.0].notes[p.1], window_start, colors)
        } by {
            if i < head.len() {
                assert(ps[i] == head[i]);
                assert(ds[i] == dh[i]);
            } else {
                assert(ps[i] == tail[i - head.len()]);
                assert(ds[i] == dt[i - head.len()]);
            }
        }
        assert forall|i: int, j: int| 0 <= i < j < ps.len() implies position_after(
            #[trigger] ps[i],
            #[trigger] ps[j],
        ) by {
            if j < head.len() {
                assert(ps[i] == head[i] && ps[j] == head[j]);
            } else if i < head.len() {
                assert(ps[i] == head[i]);
                assert(ps[j] == tail[j - head.len()]);
            } else {
                assert(ps[i] == tail[i - head.len()]);
                assert(ps[j] == tail[j - head.len()]);
            }
        }
    }
}

/// The walk over a column in the current window yields exactly as many notes
/// as lie between the two counters, in strictly decreasing order of (block
/// index, note index), each from a block of the cursor's range.
pub proof fn lemma_displaced_order(v: ViewsModel, key: int)
    requires
        v.well_formed(),
        0 <= key < v.columns.len(),
    ensures
        v.displaced(key).len() == v.cursors[key].notes_to_end - v.cursors[key].notes_to_start,
        ({
            let c = v.cursors[key];
            let ps = positions_rev(v.columns[key], c.block_start, c.block_end);
            &&& ps.len() == v.displaced(key).len()
            &&& forall|i: int|
                0 <= i < ps.len() ==> {
                    let p = #[trigger] ps[i];
                    &&& c.block_start <= p.0 < c.block_end
                    &&& 0 <= p.1 < v.columns[key][p.0].notes.len()
                    &&& v.displaced(key)[i] == displace(
                        v.columns[key][p.0].notes[p.1],
                        v.range.start,
                        v.colors,
                    )
                }
            &&& forall|i: int, j: int|
                0 <= i < j < ps.len() ==> position_after(#[trigger] ps[i], #[trigger] ps[j])
        }),
{
    lemma_displaced_len(v, key);
    assert(column_blocks_ok(v.columns[key]));
    assert(cursor_matches(v.columns[key], v.range, v.cursors[key]));
    lemma_start_before_end(v.columns[key], v.range, v.cursors[key]);
    lemma_walk_order(
        v.columns[key],
        v.cursors[key].block_start,
        v.cursors[key].block_end,
        v.range.start,
        v.colors,
    );
}

} // verus!
