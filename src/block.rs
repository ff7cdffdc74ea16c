use vstd::prelude::*;

verus! {

/// One note: its start and length in ticks and its `track * 16 + channel` slot.
#[derive(Debug, Clone, Copy, PartialEq, Eq, Structural)]
pub struct MIDINote {
    pub start: u64,
    pub len: u64,
    pub track_chan: u32,
}

impl MIDINote {
    pub open spec fn end(self) -> int {
        self.start + self.len
    }
}

/// Notes in ascending order of start.
pub open spec fn notes_sorted(notes: Seq<MIDINote>) -> bool {
    forall|i: int, j: int| 0 <= i <= j < notes.len() ==> notes[i].start <= notes[j].start
}

/// `m` is the largest end of the notes.
pub open spec fn is_max_end(notes: Seq<MIDINote>, m: int) -> bool {
    &&& forall|i: int| 0 <= i < notes.len() ==> #[trigger] notes[i].end() <= m
    &&& exists|i: int| 0 <= i < notes.len() && notes[i].end() == m
}

/// What a block holds: its cached start and largest end, and its notes.
pub struct BlockModel {
    pub start: int,
    pub max_end: int,
    pub notes: Seq<MIDINote>,
}

impl BlockModel {
    pub open spec fn well_formed(self) -> bool {
        &&& self.notes.len() > 0
        &&& notes_sorted(self.notes)
        &&& self.start == self.notes[0].start
        &&& is_max_end(self.notes, self.max_end)
        &&& self.max_end <= u64::MAX
    }
}

/// A non-empty run of notes sorted by start, with its start and the largest
/// end of its notes cached so that a window test costs one comparison.
pub struct InRamNoteBlock {
    start: u64,
    max_end: u64,
    notes: Vec<MIDINote>,
}

impl View for InRamNoteBlock {
    type V = BlockModel;

    closed spec fn view(&self) -> BlockModel {
        BlockModel { start: self.start as int, max_end: self.max_end as int, notes: self.notes@ }
    }
}

impl InRamNoteBlock {
    pub open spec fn well_formed(&self) -> bool {
        self@.well_formed()
    }

    pub fn new(notes: Vec<MIDINote>) -> (r: Self)
        requires
            notes@.len() > 0,
            notes_sorted(notes@),
            forall|i: int| 0 <= i < notes@.len() ==> #[trigger] notes@[i].end() <= u64::MAX,
        ensures
            r.well_formed(),
            r@.notes == notes@,
    {
        let start = notes[0].start;
        assert(notes@[0].end() <= u64::MAX);
        let mut max_end: u64 = notes[0].start + notes[0].len;
        let ghost mut at: int = 0;
        let mut i: usize = 1;
        while i < notes.len()
            invariant
                1 <= i <= notes@.len(),
                forall|k: int| 0 <= k < notes@.len() ==> #[trigger] notes@[k].end() <= u64::MAX,
                forall|k: int| 0 <= k < i ==> #[trigger] notes@[k].end() <= max_end,
                0 <= at < i,
                notes@[at].end() == max_end,
            decreases notes@.len() - i,
        {
            assert(notes@[i as int].end() <= u64::MAX);
            let end = notes[i].start + notes[i].len;
            if end > max_end {
                max_end = end;
                proof {
                    at = i as int;
                }
            }
            i = i + 1;
        }
        InRamNoteBlock { start, max_end, notes }
    }

    pub fn start(&self) -> (r: u64)
        ensures
            r == self@.start,
    {
        self.start
    }

    pub fn max_end(&self) -> (r: u64)
        ensures
            r == self@.max_end,
    {
        self.max_end
    }

    /// The number of notes in the block.
    pub fn len(&self) -> (r: usize)
        ensures
            r == self@.notes.len(),
    {
        self.notes.len()
    }

    pub fn notes(&self) -> (r: &Vec<MIDINote>)
        ensures
            r@ == self@.notes,
    {
        &self.notes
    }
}

/// Blocks in ascending order of start.
pub open spec fn blocks_sorted(blocks: Seq<BlockModel>) -> bool {
    forall|i: int, j: int| 0 <= i <= j < blocks.len() ==> blocks[i].start <= blocks[j].start
}

/// The number of notes in the first `n` blocks.
pub open spec fn notes_in_prefix(blocks: Seq<BlockModel>, n: int) -> nat
    decreases n,
{
    if n <= 0 {
        0
    } else {
        notes_in_prefix(blocks, n - 1) + blocks[n - 1].notes.len()
    }
}

/// The number of notes in the blocks that start before `t`.
pub open spec fn notes_in_blocks_before(blocks: Seq<BlockModel>, t: int) -> nat
    decreases blocks.len(),
{
    if blocks.len() == 0 {
        0
    } else {
        notes_in_blocks_before(blocks.drop_last(), t) + if blocks.last().start < t {
            blocks.last().notes.len()
        } else {
            0
        }
    }
}

pub proof fn lemma_prefix_monotonic(blocks: Seq<BlockModel>, i: int, j: int)
    requires
        i <= j,
    ensures
        notes_in_prefix(blocks, i) <= notes_in_prefix(blocks, j),
    decreases j - i,
{
    if i < j {
        lemma_prefix_monotonic(blocks, i, j - 1);
    }
}

/// One column of blocks, fixed once built.
pub struct InRamNoteColumn {
    blocks: Vec<InRamNoteBlock>,
}

impl View for InRamNoteColumn {
    type V = Seq<BlockModel>;

    closed spec fn view(&self) -> Seq<BlockModel> {
        self.blocks@.map_values(|b: InRamNoteBlock| b@)
    }
}

impl InRamNoteColumn {
    pub open spec fn well_formed(&self) -> bool {
        &&& forall|i: int| 0 <= i < self@.len() ==> (#[trigger] self@[i]).well_formed()
        &&& blocks_sorted(self@)
        &&& notes_in_prefix(self@, self@.len() as int) <= usize::MAX
    }

    pub fn new(blocks: Vec<InRamNoteBlock>) -> (r: Self)
        requires
            forall|i: int| 0 <= i < blocks@.len() ==> (#[trigger] blocks@[i]).well_formed(),
            blocks_sorted(blocks@.map_values(|b: InRamNoteBlock| b@)),
            notes_in_prefix(
                blocks@.map_values(|b: InRamNoteBlock| b@),
                blocks@.len() as int,
            ) <= usize::MAX,
        ensures
            r.well_formed(),
            r@ == blocks@.map_values(|b: InRamNoteBlock| b@),
    {
        InRamNoteColumn { blocks }
    }

    /// The number of notes in the column.
    pub fn note_count(&self) -> (r: usize)
        requires
            self.well_formed(),
        ensures
            r == notes_in_prefix(self@, self@.len() as int),
    {
        let ghost model = self@;
        let mut count: usize = 0;
        let mut i: usize = 0;
        while i < self.blocks.len()
            invariant
                self.well_formed(),
                model == self@,
                i <= model.len(),
                count == notes_in_prefix(model, i as int),
            decreases model.len() - i,
        {
            proof {
                lemma_prefix_monotonic(model, i as int + 1, model.len() as int);
            }
            count = count + self.blocks[i].len();
            i = i + 1;
        }
        count
    }

    /// The number of blocks in the column.
    pub fn block_count(&self) -> (r: usize)
        ensures
            r == self@.len(),
    {
        self.blocks.len()
    }

    pub fn block(&self, i: usize) -> (r: &InRamNoteBlock)
        requires
            i < self@.len(),
        ensures
            r@ == self@[i as int],
    {
        &self.blocks[i]
    }
}

} // verus!
