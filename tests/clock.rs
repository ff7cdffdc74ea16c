use wasabi::fps::FPS;
use wasabi::stats::MIDIFileStats;
use wasabi::timer::TimeKeeper;

#[test]
fn seek_while_paused_holds_time() {
    let mut clock = TimeKeeper::new();
    assert!(clock.is_paused());
    clock.seek(5_000_000, 100);
    assert_eq!(clock.get_time(100), 5_000_000);
    assert_eq!(clock.get_time(9_000_000), 5_000_000);
}

#[test]
fn negative_seek_clamps_to_zero() {
    let mut clock = TimeKeeper::new();
    clock.seek(-3, 0);
    assert_eq!(clock.get_time(0), 0);
}

#[test]
fn play_then_pause_advances_by_delay() {
    let mut clock = TimeKeeper::new();
    clock.seek(1_000, 0);
    clock.play(10_000);
    assert!(!clock.is_paused());
    assert_eq!(clock.get_time(12_500), 3_500);
    clock.pause(10_000 + 250_000);
    assert!(clock.is_paused());
    assert_eq!(clock.get_time(99_999_999), 251_000);
}

#[test]
fn two_toggles_keep_time() {
    let mut clock = TimeKeeper::new();
    clock.seek(700, 0);
    clock.toggle_pause(40);
    clock.toggle_pause(40);
    assert!(clock.is_paused());
    assert_eq!(clock.get_time(40), 700);
    clock.play(50);
    clock.toggle_pause(90);
    clock.toggle_pause(90);
    assert!(!clock.is_paused());
    assert_eq!(clock.get_time(90), 740);
}

#[test]
fn seek_while_playing_reanchors() {
    let mut clock = TimeKeeper::new();
    clock.play(0);
    clock.seek(2_000, 500);
    assert_eq!(clock.get_time(800), 2_300);
}

#[test]
fn stats_count_passed_notes() {
    let mut stats = MIDIFileStats::new(10);
    assert_eq!(stats.total_notes, 10);
    assert_eq!(stats.passed_notes, 0);
    assert_eq!(stats.add_notes(3), 3);
    assert_eq!(stats.add_notes(4), 7);
    assert_eq!(stats.total_notes, 10);
}

#[test]
fn fps_drops_stale_frames() {
    let mut fps = FPS::new();
    assert_eq!(fps.frame_count(), 0);
    assert_eq!(fps.oldest(), None);
    fps.update(0);
    fps.update(100_000);
    fps.update(400_000);
    assert_eq!(fps.frame_count(), 3);
    fps.update(550_000);
    assert_eq!(fps.frame_count(), 3);
    assert_eq!(fps.oldest(), Some(100_000));
    fps.update(2_000_000);
    assert_eq!(fps.frame_count(), 1);
    assert_eq!(fps.oldest(), Some(2_000_000));
}

#[test]
fn checked_time_reports_overflow() {
    let mut clock = TimeKeeper::new();
    clock.seek(i64::MAX, 0);
    clock.play(0);
    assert_eq!(clock.checked_time(5), Some(i64::MAX as u64 + 5));
    assert_eq!(clock.checked_time(u64::MAX), None);
}
