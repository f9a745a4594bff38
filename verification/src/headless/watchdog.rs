//! When a silent or an endless session is given up.
//!
//! Two timers run side by side: the idle window starts anew with every activity,
//! the hard deadline is fixed from the start. Points in time are nanoseconds on
//! a clock of the caller's that never goes back.

use vstd::prelude::*;

verus! {

/// The timers of a session.
#[derive(Debug, Clone, Copy, PartialEq, Eq)]
pub struct Watchdog {
    pub idle_window: u128,
    pub last_activity: u128,
    pub hard_deadline: Option<u128>,
}

/// What a look at the clock shows.
#[derive(Debug, Clone, Copy, PartialEq, Eq)]
pub enum WatchdogTick {
    Continue,
    IdleExpired,
    HardExpired,
}

impl Watchdog {
    /// Whether the end of the idle window is a point in time that can be told.
    pub open spec fn well_formed(self) -> bool {
        self.last_activity + self.idle_window <= u128::MAX
    }

    /// When the idle window ends.
    pub open spec fn idle_deadline(self) -> int {
        self.last_activity + self.idle_window
    }

    /// When the first of the two timers runs out.
    pub open spec fn first_deadline(self) -> int {
        match self.hard_deadline {
            Some(hard) => if hard < self.idle_deadline() {
                hard as int
            } else {
                self.idle_deadline()
            },
            None => self.idle_deadline(),
        }
    }

    /// What the timers show at a point in time. The hard deadline goes first.
    pub open spec fn shows(self, now: u128) -> WatchdogTick {
        if self.hard_deadline matches Some(hard) && now >= hard {
            WatchdogTick::HardExpired
        } else if now >= self.idle_deadline() {
            WatchdogTick::IdleExpired
        } else {
            WatchdogTick::Continue
        }
    }

    /// Starts the timers: an idle window and, if wanted, a limit on the whole.
    pub fn new(now: u128, idle: u128, hard: Option<u128>) -> (r: Watchdog)
        requires
            now + idle <= u128::MAX,
            hard matches Some(h) ==> now + h <= u128::MAX,
        ensures
            r.well_formed(),
            r.idle_window == idle,
            r.last_activity == now,
            match hard {
                Some(h) => r.hard_deadline is Some && r.hard_deadline->0 == now + h,
                None => r.hard_deadline is None,
            },
    {
        let hard_deadline = match hard {
            Some(h) => Some(now + h),
            None => None,
        };
        Watchdog { idle_window: idle, last_activity: now, hard_deadline }
    }

    /// Starts the idle window anew.
    pub fn note_activity(&mut self, now: u128)
        requires
            now + old(self).idle_window <= u128::MAX,
        ensures
            final(self).well_formed(),
            *final(self) == (Watchdog { last_activity: now, ..*old(self) }),
    {
        self.last_activity = now;
    }

    /// When to look at the clock next: as the first of the two timers runs out.
    pub fn next_deadline(&self) -> (r: u128)
        requires
            self.well_formed(),
        ensures
            r == self.first_deadline(),
    {
        let idle_at: u128 = self.last_activity + self.idle_window;
        match self.hard_deadline {
            Some(hard) => if hard < idle_at {
                hard
            } else {
                idle_at
            },
            None => idle_at,
        }
    }

    /// What the timers show at a point in time.
    pub fn tick(&self, now: u128) -> (r: WatchdogTick)
        requires
            self.well_formed(),
        ensures
            r == self.shows(now),
    {
        if let Some(hard) = self.hard_deadline {
            if now >= hard {
                return WatchdogTick::HardExpired;
            }
        }
        if now >= self.last_activity + self.idle_window {
            return WatchdogTick::IdleExpired;
        }
        WatchdogTick::Continue
    }
}

/// A timer has run out exactly from the first deadline on.
pub proof fn expires_at_the_first_deadline(dog: Watchdog, now: u128)
    requires
        dog.well_formed(),
    ensures
        now >= dog.first_deadline() <==> dog.shows(now) != WatchdogTick::Continue,
{
}

/// Activity starts the idle window anew.
pub proof fn activity_resets_the_idle_window(dog: Watchdog, at: u128, now: u128)
    requires
        dog.well_formed(),
        at + dog.idle_window <= u128::MAX,
        at <= now < at + dog.idle_window,
    ensures
        (Watchdog { last_activity: at, ..dog }).shows(now) != WatchdogTick::IdleExpired,
{
}

/// No activity moves the hard deadline.
pub proof fn activity_leaves_the_hard_deadline(dog: Watchdog, at: u128, now: u128)
    requires
        dog.hard_deadline matches Some(hard) && now >= hard,
    ensures
        (Watchdog { last_activity: at, ..dog }).shows(now) == WatchdogTick::HardExpired,
{
}

/// The hard deadline has run out exactly from its point in time on, whatever the idle window
/// shows; the idle window has run out exactly where that has not, and as much time as the window
/// is long has gone by since the last activity.
pub proof fn timers_run_out_on_time(dog: Watchdog, now: u128)
    requires
        dog.well_formed(),
    ensures
        dog.shows(now) == WatchdogTick::HardExpired <==> (dog.hard_deadline matches Some(hard)
            && hard <= now),
        dog.shows(now) == WatchdogTick::IdleExpired <==> !(dog.hard_deadline matches Some(hard)
            && hard <= now) && now - dog.last_activity >= dog.idle_window,
        dog.first_deadline() <= dog.last_activity + dog.idle_window,
        dog.hard_deadline matches Some(hard) ==> dog.first_deadline() <= hard,
        dog.first_deadline() == dog.last_activity + dog.idle_window || Some(
            dog.first_deadline(),
        ) == match dog.hard_deadline {
            Some(hard) => Some(hard as int),
            None => None,
        },
{
}

} // verus!
