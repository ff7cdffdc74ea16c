use wasabi::controls::{apply_key, time_label_fields, PlaybackKey};
use wasabi::timer::TimeKeeper;

#[test]
fn arrow_keys_seek_by_one_second() {
    let mut clock = TimeKeeper::new();
    let mut full = false;
    clock.seek(3_500_000, 0);
    apply_key(&mut clock, &mut full, PlaybackKey::SeekForward, 0);
    assert_eq!(clock.get_time(0), 4_500_000);
    apply_key(&mut clock, &mut full, PlaybackKey::SeekBackward, 0);
    apply_key(&mut clock, &mut full, PlaybackKey::SeekBackward, 0);
    assert_eq!(clock.get_time(0), 2_500_000);
    assert!(!full);
}

#[test]
fn seek_back_near_start_clamps_to_zero() {
    let mut clock = TimeKeeper::new();
    let mut full = false;
    clock.seek(400_000, 0);
    apply_key(&mut clock, &mut full, PlaybackKey::SeekBackward, 0);
    assert_eq!(clock.get_time(0), 0);
}

#[test]
fn space_and_f_toggle() {
    let mut clock = TimeKeeper::new();
    let mut full = false;
    apply_key(&mut clock, &mut full, PlaybackKey::TogglePause, 10);
    assert!(!clock.is_paused());
    assert_eq!(clock.get_time(30), 20);
    apply_key(&mut clock, &mut full, PlaybackKey::ToggleFullScreen, 30);
    assert!(full);
    assert!(!clock.is_paused());
    apply_key(&mut clock, &mut full, PlaybackKey::TogglePause, 40);
    assert!(clock.is_paused());
    assert_eq!(clock.get_time(1_000), 30);
}

#[test]
fn label_fields_hold_at_length() {
    assert_eq!(time_label_fields(75_000_000, 3_725_000_000), (1, 15, 2, 5));
    assert_eq!(time_label_fields(4_000_000_000, 3_725_000_000), (2, 5, 2, 5));
    assert_eq!(time_label_fields(0, 0), (0, 0, 0, 0));
}
