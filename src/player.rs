use vstd::prelude::*;
use crate::time::{Accumulator, AccumulatorView};

verus! {

/// Time between two shots while the trigger is held, in milliseconds.
pub const SHOT_INTERVAL_MS: u32 = 100;

/// The player's own state beyond movement.
pub struct Player {
    /// Shot timer, running while the trigger is held.
    pub shot_acc: Option<Accumulator>,
}

impl Player {
    pub fn new() -> (r: Player)
        ensures
            r.shot_acc.is_none(),
    {
        Player { shot_acc: None }
    }

    /// Applies the trigger state of this tick: pressing it starts a shot
    /// timer that fires at once and then every `SHOT_INTERVAL_MS`; releasing
    /// it stops the timer; holding it keeps the running one.
    pub fn apply_trigger(&mut self, primary: bool)
        ensures
            primary && old(self).shot_acc.is_none() ==> match final(self).shot_acc {
                Some(a) => a@ == (AccumulatorView {
                    acc: 1_000_000 * SHOT_INTERVAL_MS,
                    interval: 1_000_000 * SHOT_INTERVAL_MS,
                }),
                None => false,
            },
            primary && old(self).shot_acc.is_some() ==> final(self).shot_acc == old(self).shot_acc,
            !primary ==> final(self).shot_acc.is_none(),
    {
        if primary && self.shot_acc.is_none() {
            self.shot_acc = Some(Accumulator::ready_from_millis(SHOT_INTERVAL_MS));
        } else if !primary && self.shot_acc.is_some() {
            self.shot_acc = None;
        }
    }

    /// Runs the shot timer for one tick of `step_ns` and returns how many
    /// shots fall due in it; none while the trigger is released.
    pub fn shots_due(&mut self, step_ns: u64) -> (r: u64)
        requires
            match old(self).shot_acc {
                Some(a) => a@.interval > 0 && a@.acc + step_ns <= u64::MAX,
                None => true,
            },
        ensures
            match old(self).shot_acc {
                None => r == 0 && final(self).shot_acc.is_none(),
                Some(a) => match final(self).shot_acc {
                    Some(b) => {
                        &&& r == (a@.acc + step_ns) / a@.interval
                        &&& b@.acc == (a@.acc + step_ns) % a@.interval
                        &&& b@.interval == a@.interval
                    },
                    None => false,
                },
            },
    {
        match &mut self.shot_acc {
            Some(acc) => {
                let due = acc.advance(step_ns);
                due.end
            },
            None => 0,
        }
    }
}

} // verus!
