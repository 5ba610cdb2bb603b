//! The explorer agent: a robot that random-walks the grid, dissipating fog
//! around every cell it reaches, and later returns to the station.

use vstd::prelude::*;
use crate::grid::GridWorld;
use crate::motion::{chebyshev, spec_step_toward, step_toward};
use crate::rng::random_unit_offset;

verus! {

/// An explorer is either still exploring or heading back to the station.
/// The transition is one-way; the coordinator flips every explorer at once
/// when the grid is fully explored.
#[derive(Clone, Copy, PartialEq, Eq, Structural, Debug)]
pub enum Phase {
    Exploring,
    Returning,
}

#[derive(Clone, Copy, Debug)]
pub struct Robot {
    pub position: (usize, usize),
    pub phase: Phase,
}

/// A coordinate moved by an offset in {-1, 0, 1} and clamped to `[0, dim - 1]`.
pub open spec fn clamp_add(c: usize, d: int, dim: usize) -> usize {
    let v = c + d;
    if v < 0 {
        0
    } else if v > dim - 1 {
        (dim - 1) as usize
    } else {
        v as usize
    }
}

/// What one committed or rejected exploration step with offsets `(dx, dy)`
/// does: the candidate cell is the clamped offset position; if it is passable
/// the robot moves there and the fog clears over its 3x3 neighborhood,
/// otherwise nothing changes at all.
pub open spec fn explore_step(
    pre: Robot,
    pre_grid: GridWorld,
    post: Robot,
    post_grid: GridWorld,
    dx: int,
    dy: int,
) -> bool {
    let cand = (clamp_add(pre.position.0, dx, pre_grid.width),
                clamp_add(pre.position.1, dy, pre_grid.height));
    if pre_grid.spec_passable(cand) {
        &&& post.position == cand
        &&& forall|x: int, y: int| 0 <= x < pre_grid.width && 0 <= y < pre_grid.height ==>
                #[trigger] post_grid.fog_at(x, y)
                    == (pre_grid.fog_at(x, y)
                        && !(cand.0 - 1 <= x <= cand.0 + 1 && cand.1 - 1 <= y <= cand.1 + 1))
    } else {
        &&& post.position == pre.position
        &&& post_grid.fog@ == pre_grid.fog@
    }
}

impl Robot {
    pub fn new(position: (usize, usize)) -> (r: Robot)
        ensures
            r.position == position,
            r.phase == Phase::Exploring,
    {
        Robot { position, phase: Phase::Exploring }
    }

    /// One exploration tick: draw offsets `dx, dy` uniformly from {-1, 0, 1},
    /// clamp the candidate position to the grid, and commit the move only if
    /// the candidate cell is passable, clearing the fog around it; a blocked
    /// attempt is silently absorbed and leaves everything unchanged. A robot
    /// already in the returning phase does nothing.
    pub fn explore(&mut self, grid: &mut GridWorld)
        requires
            old(grid).wf(),
            old(grid).in_bounds(old(self).position),
        ensures
            final(grid).wf(),
            final(grid).width == old(grid).width,
            final(grid).height == old(grid).height,
            final(grid).obstacles@ == old(grid).obstacles@,
            final(grid).resource_spots@ == old(grid).resource_spots@,
            final(self).phase == old(self).phase,
            final(grid).in_bounds(final(self).position),
            // the position after a step is never on an obstacle unless the
            // robot did not move at all
            final(self).position == old(self).position
                || final(grid).spec_passable(final(self).position),
            // fog only ever dissipates
            forall|x: int, y: int| 0 <= x < old(grid).width && 0 <= y < old(grid).height ==>
                ((#[trigger] old(grid).fog_at(x, y)) == false ==> final(grid).fog_at(x, y) == false),
            old(self).phase == Phase::Returning
                ==> *final(self) == *old(self) && final(grid).fog@ == old(grid).fog@,
            old(self).phase == Phase::Exploring
                ==> exists|dx: int, dy: int|
                    -1 <= dx <= 1 && -1 <= dy <= 1
                    && #[trigger] explore_step(*old(self), *old(grid), *final(self), *final(grid), dx, dy),
    {
        if self.phase == Phase::Returning {
            return;
        }
        let dx = random_unit_offset();
        let dy = random_unit_offset();
        let nx = clamp_offset(self.position.0, dx, grid.width);
        let ny = clamp_offset(self.position.1, dy, grid.height);
        if grid.is_passable((nx, ny)) {
            self.position = (nx, ny);
            grid.reveal_around((nx, ny));
        }
        proof {
            assert(explore_step(*old(self), *old(grid), *self, *grid, dx as int, dy as int));
        }
    }

    /// One unthrottled step toward the station, by the sign of the delta on
    /// each axis; a robot already at the station stays put. No obstacle check
    /// is applied: the return path is assumed already traversed.
    pub fn return_to_station(&mut self, station_position: &(usize, usize))
        ensures
            final(self).phase == old(self).phase,
            old(self).position == *station_position ==> final(self).position == old(self).position,
            old(self).position != *station_position ==> {
                &&& final(self).position == spec_step_toward(old(self).position, *station_position)
                &&& chebyshev(final(self).position, *station_position)
                    == chebyshev(old(self).position, *station_position) - 1
            },
            // each axis stays between its start and the station's axis
            old(self).position.0 <= station_position.0
                ==> old(self).position.0 <= final(self).position.0 <= station_position.0,
            station_position.0 <= old(self).position.0
                ==> station_position.0 <= final(self).position.0 <= old(self).position.0,
            old(self).position.1 <= station_position.1
                ==> old(self).position.1 <= final(self).position.1 <= station_position.1,
            station_position.1 <= old(self).position.1
                ==> station_position.1 <= final(self).position.1 <= old(self).position.1,
    {
        if !(self.position.0 == station_position.0 && self.position.1 == station_position.1) {
            self.position = step_toward(self.position, *station_position);
        }
    }
}

/// The clamped candidate coordinate for an offset in {-1, 0, 1}.
fn clamp_offset(c: usize, d: i8, dim: usize) -> (r: usize)
    requires
        1 <= dim,
        c < dim,
        -1 <= d <= 1,
    ensures
        r == clamp_add(c, d as int, dim),
        r < dim,
{
    if d < 0 {
        if c == 0 { 0 } else { c - 1 }
    } else if d > 0 {
        if c + 1 < dim { c + 1 } else { dim - 1 }
    } else {
        c
    }
}

} // verus!
