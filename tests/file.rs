use wasabi::block::{InRamNoteBlock, InRamNoteColumn, MIDINote};
use wasabi::color::MIDIColor;
use wasabi::file::{InRamMIDIFile, MIDIFileUnion};
use wasabi::range::MIDIViewRange;

fn column(starts: &[u64]) -> InRamNoteColumn {
    InRamNoteColumn::new(
        starts
            .iter()
            .map(|s| InRamNoteBlock::new(vec![MIDINote { start: *s, len: 10, track_chan: 17 }]))
            .collect(),
    )
}

fn hue_colors() -> Vec<MIDIColor> {
    (0..16u8).map(|i| MIDIColor::new(0, i, 0)).collect()
}

#[test]
fn file_counts_notes_and_follows_clock() {
    let mut file = InRamMIDIFile::new(vec![column(&[0, 100, 200]), column(&[50])], 2, &hue_colors(), 300);
    assert_eq!(file.midi_length(), Some(300));
    assert_eq!(file.parsed_up_to(), None);
    assert!(file.allows_seeking_backward());
    assert_eq!(file.stats().total_notes, 4);
    assert_eq!(file.stats().passed_notes, 0);
    file.timer_mut().seek(95, 0);
    let views = file.get_current_column_views(60, 0);
    assert_eq!(views.range(), MIDIViewRange::new(95, 155));
    assert_eq!(views.column_data(0).block_range(), (1, 2));
    assert_eq!(views.column_data(1).block_range(), (1, 1));
    assert!(!views.allows_seeking_backward());
    let notes = views.get_column(0).displaced_notes();
    assert_eq!(notes.len(), 1);
    assert_eq!(notes[0].start, 5);
    assert_eq!(notes[0].color, MIDIColor::new(0, 1, 0));
}

#[test]
fn union_dispatches_to_file() {
    let mut file = MIDIFileUnion::InRam(InRamMIDIFile::new(vec![column(&[0])], 2, &hue_colors(), 42));
    assert_eq!(file.midi_length(), Some(42));
    assert_eq!(file.parsed_up_to(), None);
    assert_eq!(file.stats().total_notes, 1);
    assert!(file.allows_seeking_backward());
    file.timer_mut().play(0);
    assert!(!file.timer().is_paused());
}
