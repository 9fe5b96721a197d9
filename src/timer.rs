use vstd::prelude::*;
use crate::random::random_in;

verus! {

/// A countdown measured in milliseconds. Once it reaches its duration it
/// stays finished until it is reset or re-armed; a periodic event re-arms it
/// each time it fires (see `fire`).
#[derive(Clone, Copy, Debug, PartialEq, Eq, Structural)]
pub struct Countdown {
    pub duration_ms: u64,
    pub elapsed_ms: u64,
    pub finished: bool,
    pub just_finished: bool,
}

/// What one tick of a one-shot timer that has not finished yields: the new
/// elapsed time and whether it has now finished.
pub open spec fn one_shot_tick(duration: int, elapsed: int, delta: int) -> (int, bool) {
    if elapsed + delta >= duration {
        (duration, true)
    } else {
        (elapsed + delta, false)
    }
}

/// Relies on bevy's `Timer::tick` for a one-shot timer that has not finished:
/// the elapsed time grows by `delta`, and once it reaches the duration the
/// timer finishes with its elapsed time clamped to the duration.
#[verifier::external_body]
fn bevy_one_shot_tick(duration_ms: u64, elapsed_ms: u64, delta_ms: u64) -> (r: (u64, bool))
    requires
        elapsed_ms <= duration_ms,
    ensures
        (r.0 as int, r.1) == one_shot_tick(duration_ms as int, elapsed_ms as int, delta_ms as int),
{
    let mut timer = bevy::core::Timer::new(std::time::Duration::from_millis(duration_ms), false);
    timer.set_elapsed(std::time::Duration::from_millis(elapsed_ms));
    timer.tick(std::time::Duration::from_millis(delta_ms));
    (timer.elapsed().as_millis() as u64, timer.finished())
}

impl Countdown {
    /// The elapsed time never passes the duration, and a finished countdown
    /// sits exactly at its duration.
    pub open spec fn wf(self) -> bool {
        &&& self.elapsed_ms <= self.duration_ms
        &&& self.just_finished ==> self.finished
        &&& self.finished ==> self.elapsed_ms == self.duration_ms
    }

    /// The countdown after `delta` more milliseconds.
    pub open spec fn ticked(self, delta: int) -> Countdown {
        if self.finished {
            Countdown { just_finished: false, ..self }
        } else {
            let (e, f) = one_shot_tick(self.duration_ms as int, self.elapsed_ms as int, delta);
            Countdown { elapsed_ms: e as u64, finished: f, just_finished: f, ..self }
        }
    }

    /// A fresh countdown of `duration_ms` milliseconds.
    pub fn new(duration_ms: u64) -> (r: Countdown)
        ensures
            r.wf(),
            r == (Countdown { duration_ms, elapsed_ms: 0, finished: false, just_finished: false }),
    {
        Countdown { duration_ms, elapsed_ms: 0, finished: false, just_finished: false }
    }

    /// Advances the countdown by `delta_ms` milliseconds.
    pub fn tick(&mut self, delta_ms: u64)
        requires
            old(self).wf(),
        ensures
            final(self).wf(),
            *final(self) == old(self).ticked(delta_ms as int),
    {
        if self.finished {
            self.just_finished = false;
        } else {
            let (e, f) = bevy_one_shot_tick(self.duration_ms, self.elapsed_ms, delta_ms);
            self.elapsed_ms = e;
            self.finished = f;
            self.just_finished = f;
        }
    }

    /// Whether the countdown has reached its duration.
    pub fn finished(&self) -> (r: bool)
        ensures
            r == self.finished,
    {
        self.finished
    }

    /// Whether the last tick reached the duration.
    pub fn just_finished(&self) -> (r: bool)
        ensures
            r == self.just_finished,
    {
        self.just_finished
    }

    /// Starts the countdown over, keeping its duration.
    pub fn reset(&mut self)
        requires
            old(self).wf(),
        ensures
            final(self).wf(),
            *final(self) == (Countdown {
                elapsed_ms: 0,
                finished: false,
                just_finished: false,
                ..*old(self)
            }),
    {
        self.elapsed_ms = 0;
        self.finished = false;
        self.just_finished = false;
    }

    /// Gives the countdown a new duration and starts it over.
    pub fn rearm(&mut self, duration_ms: u64)
        requires
            old(self).wf(),
        ensures
            final(self).wf(),
            *final(self) == (Countdown {
                duration_ms,
                elapsed_ms: 0,
                finished: false,
                just_finished: false,
                ..*old(self)
            }),
    {
        self.duration_ms = duration_ms;
        self.elapsed_ms = 0;
        self.finished = false;
        self.just_finished = false;
    }
}

impl Countdown {
    /// The countdown started over with its duration kept.
    pub open spec fn restarted(self) -> Countdown {
        Countdown { elapsed_ms: 0, finished: false, just_finished: false, ..self }
    }

    /// Advances the countdown by `delta_ms`; when that makes it finish, it
    /// starts over and the call reports that it fired.
    pub fn fire(&mut self, delta_ms: u64) -> (fired: bool)
        requires
            old(self).wf(),
        ensures
            final(self).wf(),
            fired == old(self).ticked(delta_ms as int).finished,
            *final(self) == if fired {
                old(self).ticked(delta_ms as int).restarted()
            } else {
                old(self).ticked(delta_ms as int)
            },
    {
        self.tick(delta_ms);
        if self.finished() {
            self.reset();
            true
        } else {
            false
        }
    }

    /// Advances the countdown by `delta_ms`; when it finishes it is re-armed
    /// for a drawn number of whole seconds from one to six, which is returned.
    pub fn reroll(&mut self, delta_ms: u64) -> (next_secs: Option<u64>)
        requires
            old(self).wf(),
        ensures
            final(self).wf(),
            match next_secs {
                Some(s) => {
                    &&& old(self).ticked(delta_ms as int).finished
                    &&& 1 <= s < 7
                    &&& *final(self) == (Countdown { duration_ms: (s * 1000) as u64, ..old(self).ticked(delta_ms as int).restarted() })
                },
                None => {
                    &&& !old(self).ticked(delta_ms as int).finished
                    &&& *final(self) == old(self).ticked(delta_ms as int)
                },
            },
    {
        self.tick(delta_ms);
        if !self.finished() {
            return None;
        }
        let secs = random_in(1, 7) as u64;
        self.rearm(secs * 1000);
        Some(secs)
    }
}

} // verus!
