use vstd::prelude::*;

verus! {

/// What a clock holds: the virtual time at its anchor, and the wall-clock
/// reading it was anchored at while playing (`None` while paused).
pub struct ClockModel {
    pub time: int,
    pub anchor: Option<int>,
}

impl ClockModel {
    pub open spec fn is_paused(self) -> bool {
        self.anchor is None
    }

    /// The virtual time at the wall-clock reading `now`.
    pub open spec fn time_at(self, now: int) -> int {
        match self.anchor {
            Some(a) => self.time + if now >= a {
                now - a
            } else {
                0
            },
            None => self.time,
        }
    }

    pub open spec fn play(self, now: int) -> ClockModel {
        if self.is_paused() {
            ClockModel { time: self.time, anchor: Some(now) }
        } else {
            self
        }
    }

    pub open spec fn pause(self, now: int) -> ClockModel {
        ClockModel { time: self.time_at(now), anchor: None }
    }

    pub open spec fn toggle_pause(self, now: int) -> ClockModel {
        if self.is_paused() {
            self.play(now)
        } else {
            self.pause(now)
        }
    }

    /// A seek to `t`, a negative target taken as zero; a playing clock is
    /// anchored anew at `now`.
    pub open spec fn seek(self, t: int, now: int) -> ClockModel {
        ClockModel {
            time: if t < 0 {
                0
            } else {
                t
            },
            anchor: if self.is_paused() {
                None
            } else {
                Some(now)
            },
        }
    }
}

/// A seek while paused holds the clock at the target, whenever it is read.
pub proof fn lemma_seek_while_paused(c: ClockModel, t: int, now: int, later: int)
    requires
        c.is_paused(),
        t >= 0,
    ensures
        c.seek(t, now).time_at(later) == t,
        c.seek(t, now).is_paused(),
{
}

/// Playing from a pause and pausing again `d` ticks later advances the clock by `d`.
pub proof fn lemma_play_then_pause(c: ClockModel, now: int, d: int, later: int)
    requires
        c.is_paused(),
        d >= 0,
    ensures
        c.play(now).pause(now + d).time_at(later) == c.time_at(now) + d,
        c.play(now).pause(now + d).is_paused(),
{
}

/// Two toggles at one instant give back the virtual time and the state.
pub proof fn lemma_toggle_twice(c: ClockModel, now: int)
    ensures
        c.toggle_pause(now).toggle_pause(now).time_at(now) == c.time_at(now),
        c.toggle_pause(now).toggle_pause(now).is_paused() == c.is_paused(),
{
}

/// The playback clock. Wall-clock readings are handed in by the caller as
/// `now`, in ticks, and are expected not to go backwards.
pub struct TimeKeeper {
    time: u64,
    anchor: Option<u64>,
}

impl View for TimeKeeper {
    type V = ClockModel;

    closed spec fn view(&self) -> ClockModel {
        ClockModel {
            time: self.time as int,
            anchor: match self.anchor {
                Some(a) => Some(a as int),
                None => None,
            },
        }
    }
}

impl TimeKeeper {
    /// A paused clock at time zero.
    pub fn new() -> (r: Self)
        ensures
            r@ == (ClockModel { time: 0, anchor: None }),
    {
        TimeKeeper { time: 0, anchor: None }
    }

    pub fn is_paused(&self) -> (r: bool)
        ensures
            r == self@.is_paused(),
    {
        self.anchor.is_none()
    }

    /// The virtual time at the wall-clock reading `now`.
    pub fn get_time(&self, now: u64) -> (r: u64)
        requires
            self@.time_at(now as int) <= u64::MAX,
        ensures
            r == self@.time_at(now as int),
    {
        match self.anchor {
            Some(a) => {
                if now >= a {
                    self.time + (now - a)
                } else {
                    self.time
                }
            },
            None => self.time,
        }
    }

    /// The virtual time at `now`, or `None` where it does not fit in a `u64`.
    pub fn checked_time(&self, now: u64) -> (r: Option<u64>)
        ensures
            self@.time_at(now as int) <= u64::MAX ==> r == Some(self@.time_at(now as int) as u64),
            self@.time_at(now as int) > u64::MAX ==> r is None,
    {
        match self.anchor {
            Some(a) => {
                if now >= a {
                    self.time.checked_add(now - a)
                } else {
                    Some(self.time)
                }
            },
            None => Some(self.time),
        }
    }

    pub fn play(&mut self, now: u64)
        ensures
            final(self)@ == old(self)@.play(now as int),
    {
        if self.anchor.is_none() {
            self.anchor = Some(now);
        }
    }

    pub fn pause(&mut self, now: u64)
        requires
            old(self)@.time_at(now as int) <= u64::MAX,
        ensures
            final(self)@ == old(self)@.pause(now as int),
    {
        self.time = self.get_time(now);
        self.anchor = None;
    }

    pub fn toggle_pause(&mut self, now: u64)
        requires
            old(self)@.time_at(now as int) <= u64::MAX,
        ensures
            final(self)@ == old(self)@.toggle_pause(now as int),
    {
        if self.anchor.is_none() {
            self.play(now);
        } else {
            self.pause(now);
        }
    }

    /// Sets the virtual time to `t`, or to zero where `t` is negative.
    pub fn seek(&mut self, t: i64, now: u64)
        ensures
            final(self)@ == old(self)@.seek(t as int, now as int),
    {
        self.time = if t < 0 {
            0
        } else {
            t as u64
        };
        if self.anchor.is_some() {
            self.anchor = Some(now);
        }
    }
}

} // verus!
