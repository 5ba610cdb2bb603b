//! The extractor agent: spawned at the station, it travels to an assigned
//! resource spot, collects it on arrival, and carries it back to the station,
//! where the coordinator releases the target and may reassign the agent.
//!
//! Outbound movement is throttled to at most one step per `move_delay`
//! milliseconds; the return trip is unthrottled, an asymmetry of the original
//! movement rules that is kept deliberately.

use vstd::prelude::*;
use crate::motion::{spec_step_toward, step_toward};

verus! {

/// The cooldown between outbound steps, in milliseconds.
pub const DEFAULT_MOVE_DELAY_MS: u64 = 500;

/// The extractor's progression: no target yet (or target released), pursuing
/// an assigned resource spot, or carrying a collected one home.
#[derive(Clone, Copy, PartialEq, Eq, Debug)]
pub enum ExtractorState {
    Unassigned,
    Pursuing { target: (usize, usize) },
    Collected { target: (usize, usize) },
}

#[derive(Clone, Copy, Debug)]
pub struct ExtractorRobot {
    pub position: (usize, usize),
    pub state: ExtractorState,
    /// Milliseconds until the next outbound step is allowed.
    pub move_timer: u64,
    /// Cooldown re-armed after each gated step, in milliseconds.
    pub move_delay: u64,
}

impl ExtractorRobot {
    /// The coordinate this extractor is bound to, if any.
    pub open spec fn spec_target(self) -> Option<(usize, usize)> {
        match self.state {
            ExtractorState::Unassigned => None,
            ExtractorState::Pursuing { target } => Some(target),
            ExtractorState::Collected { target } => Some(target),
        }
    }

    /// The value of one signum step toward `tgt`: the position advances one
    /// Chebyshev step, and a pursuing extractor that lands exactly on its own
    /// target becomes collected.
    pub open spec fn spec_move_towards(self, tgt: (usize, usize)) -> ExtractorRobot {
        let np = spec_step_toward(self.position, tgt);
        match self.state {
            ExtractorState::Pursuing { target } => if np == target {
                ExtractorRobot { position: np, state: ExtractorState::Collected { target }, ..self }
            } else {
                ExtractorRobot { position: np, ..self }
            },
            _ => ExtractorRobot { position: np, ..self },
        }
    }

    /// The value of one timed tick: the cooldown decreases by `dt` (clamped
    /// at zero), and when it reaches zero while a target is assigned and not
    /// yet collected, the extractor takes one step toward the target and the
    /// cooldown is re-armed to `move_delay`.
    pub open spec fn spec_update(self, dt: u64) -> ExtractorRobot {
        let t1 = if self.move_timer > dt { (self.move_timer - dt) as u64 } else { 0u64 };
        match self.state {
            ExtractorState::Pursuing { target } => if t1 == 0 {
                ExtractorRobot {
                    move_timer: self.move_delay,
                    ..self.spec_move_towards(target)
                }
            } else {
                ExtractorRobot { move_timer: t1, ..self }
            },
            _ => ExtractorRobot { move_timer: t1, ..self },
        }
    }

    /// A fresh extractor, stationed at `position` with no target and an open
    /// movement gate.
    pub fn new(position: (usize, usize)) -> (r: ExtractorRobot)
        ensures
            r.position == position,
            r.state == ExtractorState::Unassigned,
            r.move_timer == 0,
            r.move_delay == DEFAULT_MOVE_DELAY_MS,
    {
        ExtractorRobot {
            position,
            state: ExtractorState::Unassigned,
            move_timer: 0,
            move_delay: DEFAULT_MOVE_DELAY_MS,
        }
    }

    /// One timed tick, exactly [`ExtractorRobot::spec_update`]. An extractor
    /// never reports itself collected unless, at the moment the flag is set,
    /// its position equals its assigned target.
    pub fn update(&mut self, dt: u64)
        ensures
            *final(self) == old(self).spec_update(dt),
            final(self).state matches ExtractorState::Collected { target }
                ==> (old(self).state is Collected || final(self).position == target),
    {
        if self.move_timer > dt {
            self.move_timer = self.move_timer - dt;
        } else {
            self.move_timer = 0;
        }
        if self.move_timer == 0 {
            let target_opt = match self.state {
                ExtractorState::Pursuing { target } => Some(target),
                _ => None,
            };
            if let Some(target) = target_opt {
                self.move_towards_target(target);
                self.move_timer = self.move_delay;
            }
        }
    }

    /// One signum step toward `target`, exactly
    /// [`ExtractorRobot::spec_move_towards`]; becoming collected happens only
    /// with the position exactly on the assigned target.
    pub fn move_towards_target(&mut self, target: (usize, usize))
        ensures
            *final(self) == old(self).spec_move_towards(target),
            final(self).state matches ExtractorState::Collected { target: t }
                ==> (old(self).state is Collected || final(self).position == t),
    {
        let np = step_toward(self.position, target);
        self.position = np;
        match self.state {
            ExtractorState::Pursuing { target: t } => {
                if np.0 == t.0 && np.1 == t.1 {
                    self.state = ExtractorState::Collected { target: t };
                }
            },
            _ => {},
        }
    }

    /// One unthrottled step back toward the station.
    pub fn return_to_station(&mut self, station_position: &(usize, usize))
        ensures
            *final(self) == old(self).spec_move_towards(*station_position),
    {
        self.move_towards_target(*station_position);
    }
}

} // verus!
