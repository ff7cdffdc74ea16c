use vstd::prelude::*;
use crate::timer::{ClockModel, TimeKeeper};

verus! {

/// How far, in ticks, one arrow key seeks.
pub const SEEK_STEP: u64 = 1000000;

/// Ticks per second.
pub const TICKS_PER_SECOND: u64 = 1000000;

/// What a pressed key asks of playback.
#[derive(Debug, Clone, Copy, PartialEq, Eq, Structural)]
pub enum PlaybackKey {
    SeekForward,
    SeekBackward,
    TogglePause,
    ToggleFullScreen,
}

/// The clock after `key` is pressed at the wall-clock reading `now`.
pub open spec fn clock_after_key(c: ClockModel, key: PlaybackKey, now: int) -> ClockModel {
    match key {
        PlaybackKey::SeekForward => c.seek(c.time_at(now) + SEEK_STEP, now),
        PlaybackKey::SeekBackward => c.seek(c.time_at(now) - SEEK_STEP, now),
        PlaybackKey::TogglePause => c.toggle_pause(now),
        PlaybackKey::ToggleFullScreen => c,
    }
}

/// Applies a pressed key to the clock and the full-screen flag.
pub fn apply_key(clock: &mut TimeKeeper, full_screen: &mut bool, key: PlaybackKey, now: u64)
    requires
        old(clock)@.time_at(now as int) + SEEK_STEP <= i64::MAX,
    ensures
        final(clock)@ == clock_after_key(old(clock)@, key, now as int),
        *final(full_screen) == if key == PlaybackKey::ToggleFullScreen {
            !*old(full_screen)
        } else {
            *old(full_screen)
        },
{
    match key {
        PlaybackKey::SeekForward => {
            let time = clock.get_time(now) as i64;
            clock.seek(time + SEEK_STEP as i64, now);
        },
        PlaybackKey::SeekBackward => {
            let time = clock.get_time(now) as i64;
            clock.seek(time - SEEK_STEP as i64, now);
        },
        PlaybackKey::TogglePause => {
            clock.toggle_pause(now);
        },
        PlaybackKey::ToggleFullScreen => {
            *full_screen = !*full_screen;
        },
    }
}

/// The fields of the `mm:ss / mm:ss` playback label: the minutes and seconds
/// of the time (held at the length once past it), then those of the length.
pub fn time_label_fields(time: u64, length: u64) -> (r: (u64, u64, u64, u64))
    ensures
        ({
            let secs = if time > length {
                length / TICKS_PER_SECOND
            } else {
                time / TICKS_PER_SECOND
            };
            let length_secs = length / TICKS_PER_SECOND;
            r == ((secs / 60) % 60, secs % 60, (length_secs / 60) % 60, length_secs % 60)
        }),
{
    let time_secs = time / TICKS_PER_SECOND;
    let length_secs = length / TICKS_PER_SECOND;
    let shown = if time > length {
        length_secs
    } else {
        time_secs
    };
    ((shown / 60) % 60, shown % 60, (length_secs / 60) % 60, length_secs % 60)
}

} // verus!
