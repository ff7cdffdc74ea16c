use std::sync::Arc;
use wasabi::block::{InRamNoteBlock, InRamNoteColumn, MIDINote};
use wasabi::color::MIDIColor;
use wasabi::cursor::InRamNoteColumnViewData;
use wasabi::range::MIDIViewRange;
use wasabi::view::{DisplacedMIDINote, InRamNoteViews};

const SEC: u64 = 1_000_000;

fn hue_colors() -> Vec<MIDIColor> {
    (0..16u8).map(|i| MIDIColor::new(i, 0, 0)).collect()
}

fn block(start: u64, count: usize, len: u64, track_chan: u32) -> InRamNoteBlock {
    let notes = (0..count).map(|_| MIDINote { start, len, track_chan }).collect();
    InRamNoteBlock::new(notes)
}

fn three_block_column() -> InRamNoteColumn {
    InRamNoteColumn::new(vec![
        block(0, 2, SEC / 2, 0),
        block(2 * SEC, 2, SEC / 2, 1),
        block(5 * SEC, 2, SEC / 2, 2),
    ])
}

fn views_of(columns: Vec<InRamNoteColumn>) -> InRamNoteViews {
    InRamNoteViews::new(Arc::new(columns), 1, &hue_colors())
}

#[test]
fn block_caches_start_and_max_end() {
    let b = InRamNoteBlock::new(vec![
        MIDINote { start: 10, len: 50, track_chan: 0 },
        MIDINote { start: 12, len: 5, track_chan: 0 },
        MIDINote { start: 20, len: 10, track_chan: 0 },
    ]);
    assert_eq!(b.start(), 10);
    assert_eq!(b.max_end(), 60);
    assert_eq!(b.len(), 3);
}

#[test]
fn three_blocks_window_one_to_four() {
    let mut views = views_of(vec![three_block_column()]);
    views.shift_view_range(MIDIViewRange::new(SEC, 4 * SEC));
    let data = views.column_data(0);
    assert_eq!(data.block_range(), (1, 2));
    assert_eq!(data.notes_to_start(), 2);
    assert_eq!(data.notes_to_end(), 4);
    let column = views.get_column(0);
    let it = column.iterate_displaced_notes();
    assert_eq!(it.len(), 2);
    let notes = column.displaced_notes();
    assert_eq!(notes.len(), 2);
    for n in &notes {
        assert_eq!(n.start, (2 * SEC) as i128 - SEC as i128);
        assert_eq!(n.len, SEC / 2);
        assert_eq!(n.color, MIDIColor::new(1, 0, 0));
    }
}

#[test]
fn empty_column_shift_is_noop() {
    let mut views = views_of(vec![InRamNoteColumn::new(vec![])]);
    views.shift_view_range(MIDIViewRange::new(SEC, 4 * SEC));
    views.shift_view_range(MIDIViewRange::new(0, SEC));
    let data = views.column_data(0);
    assert_eq!(data.block_range(), (0, 0));
    assert_eq!(data.notes_to_start(), 0);
    assert_eq!(data.notes_to_end(), 0);
    let column = views.get_column(0);
    let mut it = column.iterate_displaced_notes();
    assert_eq!(it.len(), 0);
    assert!(it.next().is_none());
}

#[test]
fn forward_end_counts_notes_started_before_end() {
    let mut views = views_of(vec![three_block_column()]);
    let ends = [SEC, 2 * SEC, 2 * SEC + 1, 5 * SEC, 5 * SEC + 1, 9 * SEC];
    let expected = [2, 2, 4, 4, 6, 6];
    for (end, want) in ends.iter().zip(expected.iter()) {
        views.shift_view_range(MIDIViewRange::new(0, *end));
        assert_eq!(views.column_data(0).notes_to_end(), *want);
    }
}

#[test]
fn backward_seek_matches_rescan() {
    let column = three_block_column();
    let mut views = views_of(vec![three_block_column()]);
    let windows = [
        (6 * SEC, 7 * SEC),
        (SEC, 3 * SEC),
        (3 * SEC, 6 * SEC),
        (0, SEC / 4),
        (5 * SEC + SEC / 2, 8 * SEC),
        (2 * SEC + SEC / 2, 2 * SEC + SEC / 2),
    ];
    for (start, end) in windows {
        let range = MIDIViewRange::new(start, end);
        views.shift_view_range(range);
        assert_eq!(views.column_data(0), InRamNoteColumnViewData::rescan(&column, range));
    }
}

#[test]
fn same_range_twice_keeps_state() {
    let mut views = views_of(vec![three_block_column(), InRamNoteColumn::new(vec![])]);
    let range = MIDIViewRange::new(SEC, 6 * SEC);
    views.shift_view_range(range);
    let first = (views.column_data(0), views.column_data(1));
    views.shift_view_range(range);
    assert_eq!((views.column_data(0), views.column_data(1)), first);
    assert_eq!(views.range(), range);
}

#[test]
fn walk_is_reverse_chronological() {
    let column = InRamNoteColumn::new(vec![
        InRamNoteBlock::new(vec![
            MIDINote { start: 0, len: 10, track_chan: 0 },
            MIDINote { start: 1, len: 10, track_chan: 1 },
        ]),
        InRamNoteBlock::new(vec![
            MIDINote { start: 5, len: 10, track_chan: 2 },
            MIDINote { start: 6, len: 10, track_chan: 3 },
            MIDINote { start: 7, len: 10, track_chan: 4 },
        ]),
    ]);
    let mut views = views_of(vec![column]);
    views.shift_view_range(MIDIViewRange::new(2, 20));
    let column = views.get_column(0);
    let mut it = column.iterate_displaced_notes();
    assert_eq!(it.len(), 5);
    let mut starts = Vec::new();
    let mut colors = Vec::new();
    while let Some(DisplacedMIDINote { start, color, .. }) = it.next() {
        starts.push(start);
        colors.push(color);
    }
    assert_eq!(starts, vec![5, 4, 3, -1, -2]);
    let expected: Vec<MIDIColor> = [4u8, 3, 2, 1, 0].iter().map(|i| MIDIColor::new(*i, 0, 0)).collect();
    assert_eq!(colors, expected);
    assert_eq!(it.len(), 0);
}

#[test]
fn rescan_finds_window_from_scratch() {
    let column = three_block_column();
    assert_eq!(column.block_count(), 3);
    assert_eq!(column.note_count(), 6);
    let data = InRamNoteColumnViewData::rescan(&column, MIDIViewRange::new(2 * SEC + SEC / 4, 5 * SEC));
    assert_eq!(data.block_range(), (1, 2));
    assert_eq!(data.notes_to_start(), 2);
    assert_eq!(data.notes_to_end(), 4);
    let data = InRamNoteColumnViewData::rescan(&column, MIDIViewRange::new(6 * SEC, 7 * SEC));
    assert_eq!(data.block_range(), (3, 3));
    assert_eq!(data.notes_to_start(), 6);
    assert_eq!(data.notes_to_end(), 6);
    let fresh = InRamNoteColumnViewData::new();
    assert_eq!(fresh.block_range(), (0, 0));
    assert_eq!(fresh.notes_to_end() - fresh.notes_to_start(), 0);
}

#[test]
fn end_moving_back_drops_blocks() {
    let mut views = views_of(vec![three_block_column()]);
    views.shift_view_range(MIDIViewRange::new(0, 9 * SEC));
    assert_eq!(views.column_data(0).notes_to_end(), 6);
    views.shift_view_range(MIDIViewRange::new(0, 2 * SEC));
    assert_eq!(views.column_data(0).notes_to_end(), 2);
    assert_eq!(views.column_data(0).block_range(), (0, 1));
    views.shift_view_range(MIDIViewRange::new(0, 0));
    assert_eq!(views.column_data(0).block_range(), (0, 0));
}

#[test]
fn adjusted_range_moves_displacement_only() {
    let mut views = views_of(vec![three_block_column()]);
    views.shift_view_range(MIDIViewRange::new(SEC, 4 * SEC));
    let mut column = views.get_column(0);
    column.adjust_view_range(MIDIViewRange::new(0, 4 * SEC));
    let notes = column.displaced_notes();
    assert_eq!(notes.len(), 2);
    assert_eq!(notes[0].start, (2 * SEC) as i128);
    assert!(!views.allows_seeking_backward());
    assert_eq!(views.column_count(), 1);
}
