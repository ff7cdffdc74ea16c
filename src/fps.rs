use vstd::prelude::*;
use std::collections::VecDeque;

verus! {

/// The span, in ticks, over which frames are counted.
pub const FPS_WINDOW: u64 = 500000;

/// A frame time is stale at `now` once it lies more than the window before it.
pub open spec fn is_stale(frame: u64, now: u64) -> bool {
    now as int - frame as int > FPS_WINDOW as int
}

/// `kept` is `frames` with a run of stale frames at its front removed.
pub open spec fn drops_stale_prefix(frames: Seq<u64>, now: u64, kept: Seq<u64>) -> bool {
    exists|k: int|
        0 <= k <= frames.len() && kept == #[trigger] frames.subrange(k, frames.len() as int) && (
        forall|i: int| 0 <= i < k ==> is_stale(#[trigger] frames[i], now))
}

/// Frame times of the recent past, oldest first.
pub struct FPS(VecDeque<u64>);

impl FPS {
    pub closed spec fn frames(&self) -> Seq<u64> {
        self.0@
    }

    pub fn new() -> (r: Self)
        ensures
            r.frames() == Seq::<u64>::empty(),
    {
        FPS(VecDeque::new())
    }

    /// Records a frame at `now`, then drops the stale frames at the front.
    pub fn update(&mut self, now: u64)
        ensures
            drops_stale_prefix(old(self).frames().push(now), now, final(self).frames()),
            final(self).frames().len() > 0,
            !is_stale(final(self).frames()[0], now),
    {
        let ghost pushed = self.0@.push(now);
        self.0.push_back(now);
        let ghost mut k: int = 0;
        while self.0.len() > 0 && now >= self.0[0] && now - self.0[0] > FPS_WINDOW
            invariant
                pushed.last() == now,
                0 <= k < pushed.len(),
                self.0@ == pushed.subrange(k, pushed.len() as int),
                forall|i: int| 0 <= i < k ==> is_stale(#[trigger] pushed[i], now),
            decreases self.0@.len(),
        {
            proof {
                assert(pushed[k] == self.0@[0]);
            }
            self.0.pop_front();
            proof {
                k = k + 1;
                assert(self.0@ =~= pushed.subrange(k, pushed.len() as int));
                if k == pushed.len() {
                    assert(false);
                }
            }
        }
        proof {
            assert(self.0@.len() > 0);
            assert(self.0@[0] == pushed[k]);
        }
    }

    /// The number of frames counted.
    pub fn frame_count(&self) -> (r: usize)
        ensures
            r == self.frames().len(),
    {
        self.0.len()
    }

    /// The time of the oldest frame counted.
    pub fn oldest(&self) -> (r: Option<u64>)
        ensures
            self.frames().len() == 0 ==> r is None,
            self.frames().len() > 0 ==> r == Some(self.frames()[0]),
    {
        if self.0.len() == 0 {
            None
        } else {
            Some(self.0[0])
        }
    }
}

} // verus!
