//! Timers that let an action through: a window that grants one use, and a
//! rate limit.
//!
//! Time is a count of milliseconds from an origin that the caller picks and
//! keeps; the timers only ever look at differences.

use vstd::prelude::*;

verus! {

/// Milliseconds from `since` to `now`; 0 where `now` lies before `since`.
pub open spec fn spec_elapsed(since: u64, now: u64) -> int {
    if now >= since {
        now - since
    } else {
        0
    }
}

/// Milliseconds from `since` to `now`; 0 where `now` lies before `since`.
pub fn elapsed(since: u64, now: u64) -> (ms: u64)
    ensures
        ms == spec_elapsed(since, now),
{
    if now >= since {
        now - since
    } else {
        0
    }
}

/// A window in time that grants one use: armed at an instant, open for a
/// span after it, and spent by the first use.
#[derive(Clone, Copy, Debug, PartialEq, Eq, Structural)]
pub struct ArmedWindow {
    pub armed: bool,
    pub since: u64,
}

impl ArmedWindow {
    /// Whether the window is armed and `now` lies inside it: more than
    /// `opens` and less than `closes` milliseconds after it was armed.
    pub open spec fn spec_is_armed(self, now: u64, opens: u64, closes: u64) -> bool {
        self.armed && opens < spec_elapsed(self.since, now) < closes
    }

    /// A window that is not armed.
    pub fn idle(now: u64) -> (window: ArmedWindow)
        ensures
            window == (ArmedWindow { armed: false, since: now }),
    {
        ArmedWindow { armed: false, since: now }
    }

    /// Arms the window at `now`.
    pub fn arm(&mut self, now: u64)
        ensures
            *final(self) == (ArmedWindow { armed: true, since: now }),
    {
        self.armed = true;
        self.since = now;
    }

    /// Whether the window is armed and `now` lies inside it.
    pub fn is_armed(&self, now: u64, opens: u64, closes: u64) -> (open: bool)
        ensures
            open == self.spec_is_armed(now, opens, closes),
    {
        if self.armed {
            let ms = elapsed(self.since, now);
            opens < ms && ms < closes
        } else {
            false
        }
    }

    /// Spends the window: it stays shut until it is armed again.
    pub fn consume(&mut self)
        ensures
            *final(self) == (ArmedWindow { armed: false, since: old(self).since }),
    {
        self.armed = false;
    }
}

/// A rate limit: it lets an action through only when more than a period has
/// passed since the last one.
#[derive(Clone, Copy, Debug, PartialEq, Eq, Structural)]
pub struct Cooldown {
    pub last: u64,
}

impl Cooldown {
    /// Whether more than `period` milliseconds have passed since the last
    /// action.
    pub open spec fn spec_is_ready(self, now: u64, period: u64) -> bool {
        spec_elapsed(self.last, now) > period
    }

    /// A cooldown that counts from `now`.
    pub fn started(now: u64) -> (cooldown: Cooldown)
        ensures
            cooldown == (Cooldown { last: now }),
    {
        Cooldown { last: now }
    }

    /// Whether an action may pass at `now`.
    pub fn is_ready(&self, now: u64, period: u64) -> (ready: bool)
        ensures
            ready == self.spec_is_ready(now, period),
    {
        elapsed(self.last, now) > period
    }

    /// Lets an action through if the cooldown is ready, and then counts
    /// from `now`; otherwise changes nothing.
    pub fn try_fire(&mut self, now: u64, period: u64) -> (fired: bool)
        ensures
            fired == old(self).spec_is_ready(now, period),
            *final(self) == (if fired {
                Cooldown { last: now }
            } else {
                *old(self)
            }),
    {
        if self.is_ready(now, period) {
            self.last = now;
            true
        } else {
            false
        }
    }
}

} // verus!
