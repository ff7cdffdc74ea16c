use wasabi::color::MIDIColor;

#[test]
fn packs_channels() {
    let c = MIDIColor::new(0x12, 0x34, 0x56);
    assert_eq!(c.as_u32(), 0x123456);
    assert_eq!(c.red(), 0x12);
    assert_eq!(c.green(), 0x34);
    assert_eq!(c.blue(), 0x56);
}

#[test]
fn slot_hues_step_by_337_5_degrees() {
    assert_eq!(MIDIColor::slot_hue(0), 0);
    assert_eq!(MIDIColor::slot_hue(1), 2700);
    assert_eq!(MIDIColor::slot_hue(2), 2520);
    assert_eq!(MIDIColor::slot_hue(16), 0);
    assert_eq!(MIDIColor::slot_hue(17), 2700);
}

#[test]
fn deterministic_palette_repeats_hues() {
    let hues: Vec<MIDIColor> = (0..16u8).map(|i| MIDIColor::new(i, 255 - i, 7)).collect();
    let palette = MIDIColor::new_vec_for_tracks(3, &hues);
    assert_eq!(palette.len(), 48);
    for (i, c) in palette.iter().enumerate() {
        assert_eq!(*c, hues[i % 16]);
    }
    assert!(MIDIColor::new_vec_for_tracks(0, &hues).is_empty());
}

#[test]
fn random_palette_channels_below_255() {
    let palette = MIDIColor::new_random_vec_for_tracks(4);
    assert_eq!(palette.len(), 64);
    for c in &palette {
        assert!(c.red() < 255 && c.green() < 255 && c.blue() < 255);
        assert!(c.as_u32() < 1 << 24);
    }
}
