//! The simulation coordinator: owns the grid world, the explorers, the
//! station, and the extractors, and advances the whole system one discrete
//! tick at a time.
//!
//! Phases run one way: while `Exploring`, every explorer steps and then the
//! global coverage is reevaluated; full coverage flips every explorer into
//! the returning phase at once. While `ReturningHome`, explorers step toward
//! the station; once all are colocated with it, extractors are deployed (one
//! per resource spot present at that instant, exactly once per run) and the
//! phase becomes `Extracting`, in which each extractor is ticked and the
//! assignment/collection protocol runs.

use vstd::prelude::*;
use crate::explorer::{Phase, Robot};
use crate::extractor::{ExtractorRobot, ExtractorState, DEFAULT_MOVE_DELAY_MS};
use crate::grid::{GridWorld, MAX_CELLS};
use crate::grid::{is_subsequence, retain_ne, revealed_around};
use crate::grid::{lemma_drop_last_subsequence, lemma_retain_ne_subsequence,
    lemma_subsequence_refl, lemma_subsequence_trans};
use crate::motion::spec_step_toward;

verus! {

/// The fixed rendezvous and drop-off point for all agents.
#[derive(Clone, Copy, PartialEq, Eq, Debug)]
pub struct Station {
    pub position: (usize, usize),
}

/// The coordinator's phase; transitions only ever move forward.
#[derive(Clone, Copy, PartialEq, Eq, Structural, Debug)]
pub enum SimPhase {
    Exploring,
    ReturningHome,
    Extracting,
}

/// Order of the phases along the one-way progression.
pub open spec fn phase_order(p: SimPhase) -> int {
    match p {
        SimPhase::Exploring => 0,
        SimPhase::ReturningHome => 1,
        SimPhase::Extracting => 2,
    }
}

/// The deterministic value of one extractor's protocol turn, given the
/// resource list as it stands at that turn: the timed tick first; then a
/// carrier steps back toward the station and, on arrival, is released while
/// its target leaves the list (every duplicate with it); an idle extractor is
/// assigned the spot at the end of the list, which is popped, or stays idle
/// exactly when the list is empty.
pub open spec fn extract_step(
    ex: ExtractorRobot,
    spots: Seq<(usize, usize)>,
    station: (usize, usize),
    dt: u64,
) -> (ExtractorRobot, Seq<(usize, usize)>) {
    let mid = ex.spec_update(dt);
    match mid.state {
        ExtractorState::Collected { target } => {
            let ret = mid.spec_move_towards(station);
            if ret.position == station {
                (
                    ExtractorRobot { state: ExtractorState::Unassigned, ..ret },
                    retain_ne(spots, target),
                )
            } else {
                (ret, spots)
            }
        },
        ExtractorState::Unassigned => {
            if spots.len() > 0 {
                (
                    ExtractorRobot {
                        state: (ExtractorState::Pursuing { target: spots.last() }),
                        ..mid
                    },
                    spots.drop_last(),
                )
            } else {
                (mid, spots)
            }
        },
        ExtractorState::Pursuing { .. } => (mid, spots),
    }
}

/// The first `n` extractors advanced in agent order, threading the shared
/// resource list through each turn.
pub open spec fn extract_pass(
    exs: Seq<ExtractorRobot>,
    spots: Seq<(usize, usize)>,
    station: (usize, usize),
    dt: u64,
    n: int,
) -> (Seq<ExtractorRobot>, Seq<(usize, usize)>)
    decreases n,
{
    if n <= 0 {
        (exs, spots)
    } else {
        let prev = extract_pass(exs, spots, station, dt, n - 1);
        let step = extract_step(prev.0[n - 1], prev.1, station, dt);
        (prev.0.update(n - 1, step.0), step.1)
    }
}

/// Some drawn offsets in {-1, 0, 1} took this explorer and this grid to that
/// explorer and that grid, by one exploration step.
pub open spec fn some_explore_step(
    pre: Robot,
    pre_grid: GridWorld,
    post: Robot,
    post_grid: GridWorld,
) -> bool {
    exists|dx: int, dy: int|
        -1 <= dx <= 1 && -1 <= dy <= 1
        && #[trigger] crate::explorer::explore_step(pre, pre_grid, post, post_grid, dx, dy)
}

/// The chain of grids `mids` witnesses one exploring tick from `pre` to
/// `post`: it starts at the old grid and ends at the new one, and each
/// explorer in agent order makes one drawn exploration step between its two
/// neighboring grids (a passable candidate is committed and revealed; any
/// other draw is absorbed with nothing changed).
pub open spec fn exploring_pass_with(pre: GameState, post: GameState, mids: Seq<GridWorld>) -> bool {
    &&& mids.len() == pre.robots@.len() + 1
    &&& mids[0] == pre.grid
    &&& mids[pre.robots@.len() as int] == post.grid
    &&& post.robots@.len() == pre.robots@.len()
    &&& forall|i: int| 0 <= i < pre.robots@.len()
        ==> #[trigger] some_explore_step(pre.robots@[i], mids[i], post.robots@[i], mids[i + 1])
}

/// One exploring tick, as far as the random draws allow it to be pinned:
/// some chain of grids witnesses every explorer's drawn step in agent order.
pub open spec fn exploring_pass(pre: GameState, post: GameState) -> bool {
    exists|mids: Seq<GridWorld>| #[trigger] exploring_pass_with(pre, post, mids)
}

/// One full extraction tick, exactly: every extractor takes its protocol turn
/// in agent order, and the resource list ends as the turns leave it.
pub open spec fn extraction_tick(pre: GameState, post: GameState, dt: u64) -> bool {
    let pass = extract_pass(
        pre.extractors@,
        pre.grid.resource_spots@,
        pre.station.position,
        dt,
        pre.extractors@.len() as int,
    );
    &&& post.extractors@ == pass.0
    &&& post.grid.resource_spots@ == pass.1
}

pub struct GameState {
    pub grid: GridWorld,
    pub robots: Vec<Robot>,
    pub station: Station,
    pub extractors: Vec<ExtractorRobot>,
    /// Whether extractor deployment has already occurred; deployment happens
    /// exactly once, on the transition into the extracting phase.
    pub deployment_done: bool,
    pub phase: SimPhase,
}

impl GameState {
    pub open spec fn wf(self) -> bool {
        &&& self.grid.wf()
        &&& self.grid.in_bounds(self.station.position)
        &&& (forall|i: int| 0 <= i < self.robots@.len()
                ==> self.grid.in_bounds((#[trigger] self.robots@[i]).position))
        &&& (forall|i: int| 0 <= i < self.extractors@.len()
                ==> self.grid.in_bounds((#[trigger] self.extractors@[i]).position))
        &&& (forall|i: int| 0 <= i < self.extractors@.len()
                ==> match (#[trigger] self.extractors@[i]).spec_target() {
                    Some(t) => self.grid.in_bounds(t),
                    None => true,
                })
        &&& (self.deployment_done <==> self.phase is Extracting)
        &&& (!(self.phase is Extracting) ==> self.extractors@.len() == 0)
        &&& (self.phase is Exploring
                ==> forall|i: int| 0 <= i < self.robots@.len()
                    ==> (#[trigger] self.robots@[i]).phase is Exploring)
        &&& (!(self.phase is Exploring)
                ==> forall|i: int| 0 <= i < self.robots@.len()
                    ==> (#[trigger] self.robots@[i]).phase is Returning)
        &&& (self.phase is Extracting
                ==> forall|i: int| 0 <= i < self.robots@.len()
                    ==> (#[trigger] self.robots@[i]).position == self.station.position)
    }

    /// A fresh simulation over a world generated from `seed`: explorers at
    /// the given in-bounds starting positions, the station at its in-bounds
    /// coordinate, no extractors, and exploration about to begin.
    pub fn new(
        seed: u64,
        width: usize,
        height: usize,
        robot_starts: Vec<(usize, usize)>,
        station_position: (usize, usize),
    ) -> (r: GameState)
        requires
            (width as int) * (height as int) <= MAX_CELLS as int,
            station_position.0 < width && station_position.1 < height,
            forall|i: int| 0 <= i < robot_starts@.len()
                ==> (#[trigger] robot_starts@[i]).0 < width && robot_starts@[i].1 < height,
        ensures
            r.wf(),
            r.grid.width == width,
            r.grid.height == height,
            r.grid.is_generated(seed),
            r.station.position == station_position,
            r.robots@.len() == robot_starts@.len(),
            forall|i: int| 0 <= i < robot_starts@.len()
                ==> (#[trigger] r.robots@[i]).position == robot_starts@[i]
                    && r.robots@[i].phase is Exploring,
            r.extractors@.len() == 0,
            !r.deployment_done,
            r.phase is Exploring,
    {
        let grid = match GridWorld::generate(seed, width, height) {
            Ok(g) => g,
            Err(_) => {
                proof {
                    assert(false);
                }
                vstd::pervasive::unreached()
            },
        };
        let mut robots: Vec<Robot> = Vec::new();
        let mut i: usize = 0;
        while i < robot_starts.len()
            invariant
                i <= robot_starts@.len(),
                robots@.len() == i,
                forall|j: int| 0 <= j < i
                    ==> (#[trigger] robots@[j]).position == robot_starts@[j]
                        && robots@[j].phase is Exploring,
            decreases robot_starts@.len() - i,
        {
            robots.push(Robot::new(robot_starts[i]));
            i = i + 1;
        }
        GameState {
            grid,
            robots,
            station: Station { position: station_position },
            extractors: Vec::new(),
            deployment_done: false,
            phase: SimPhase::Exploring,
        }
    }

    /// Spawns one extractor per resource spot present in the grid world at
    /// this instant, each at the station's position with that spot
    /// pre-assigned as its target. Nothing else changes.
    pub fn deploy_extractors(&mut self)
        requires
            old(self).wf(),
            old(self).phase is Extracting,
        ensures
            final(self).wf(),
            final(self).grid == old(self).grid,
            final(self).robots@ == old(self).robots@,
            final(self).station == old(self).station,
            final(self).phase == old(self).phase,
            final(self).deployment_done == old(self).deployment_done,
            final(self).extractors@.len()
                == old(self).extractors@.len() + old(self).grid.resource_spots@.len(),
            forall|k: int| 0 <= k < old(self).extractors@.len()
                ==> #[trigger] final(self).extractors@[k] == old(self).extractors@[k],
            forall|k: int| 0 <= k < old(self).grid.resource_spots@.len() ==> {
                let e = #[trigger] final(self).extractors@[old(self).extractors@.len() + k];
                &&& e.position == old(self).station.position
                &&& e.state == (ExtractorState::Pursuing {
                    target: old(self).grid.resource_spots@[k],
                })
                &&& e.move_timer == 0
                &&& e.move_delay == DEFAULT_MOVE_DELAY_MS
            },
    {
        let n = self.grid.resource_spots.len();
        let mut i: usize = 0;
        while i < n
            invariant
                i <= n,
                n == self.grid.resource_spots@.len(),
                self.grid == old(self).grid,
                self.robots@ == old(self).robots@,
                self.station == old(self).station,
                self.phase == old(self).phase,
                self.deployment_done == old(self).deployment_done,
                self.extractors@.len() == old(self).extractors@.len() + i,
                forall|k: int| 0 <= k < old(self).extractors@.len()
                    ==> #[trigger] self.extractors@[k] == old(self).extractors@[k],
                forall|k: int| 0 <= k < i ==> {
                    let e = #[trigger] self.extractors@[old(self).extractors@.len() + k];
                    &&& e.position == old(self).station.position
                    &&& e.state == (ExtractorState::Pursuing {
                        target: old(self).grid.resource_spots@[k],
                    })
                    &&& e.move_timer == 0
                    &&& e.move_delay == DEFAULT_MOVE_DELAY_MS
                },
            decreases n - i,
        {
            let spot = self.grid.resource_spots[i];
            let mut ex = ExtractorRobot::new(self.station.position);
            ex.state = ExtractorState::Pursuing { target: spot };
            self.extractors.push(ex);
            i = i + 1;
        }
        proof {
            let old_len = old(self).extractors@.len() as int;
            assert forall|j: int| 0 <= j < self.extractors@.len()
                implies self.grid.in_bounds((#[trigger] self.extractors@[j]).position)
                    && (match self.extractors@[j].spec_target() {
                        Some(t) => self.grid.in_bounds(t),
                        None => true,
                    }) by {
                if j < old_len {
                    assert(self.extractors@[j] == old(self).extractors@[j]);
                } else {
                    let k = j - old_len;
                    assert(self.extractors@[old_len + k] == self.extractors@[j]);
                    assert(self.grid.in_bounds(old(self).grid.resource_spots@[k]));
                }
            }
        }
    }

    /// One extraction tick for every extractor, in agent order: each is
    /// advanced one timed tick; one that carries a collected target steps
    /// back toward the station and, on arrival, the target is removed from
    /// the world (every duplicate with it) and released; one with no target
    /// is assigned a remaining resource spot, if any.
    pub fn update_extractors(&mut self, dt: u64)
        requires
            old(self).wf(),
            old(self).phase is Extracting,
        ensures
            final(self).wf(),
            final(self).grid.width == old(self).grid.width,
            final(self).grid.height == old(self).grid.height,
            final(self).grid.obstacles@ == old(self).grid.obstacles@,
            final(self).grid.fog@ == old(self).grid.fog@,
            final(self).robots@ == old(self).robots@,
            final(self).station == old(self).station,
            final(self).phase == old(self).phase,
            final(self).deployment_done == old(self).deployment_done,
            final(self).extractors@.len() == old(self).extractors@.len(),
            // the whole tick, exactly: each extractor takes its protocol turn
            // in agent order (so an idle extractor is assigned the spot popped
            // from the end of the list whenever one remains at its turn)
            extraction_tick(*old(self), *final(self), dt),
            // the surviving resource spots keep their relative order
            is_subsequence(final(self).grid.resource_spots@, old(self).grid.resource_spots@),
            // resource spots only ever leave the world
            forall|q: (usize, usize)| final(self).grid.resource_spots@.contains(q)
                ==> old(self).grid.resource_spots@.contains(q),
            // corollaries of the tick clause, stated directly: a carried
            // target is delivered — after the return step, arrival at the
            // station removes the target from the world and releases it
            forall|i: int| 0 <= i < old(self).extractors@.len()
                ==> ((#[trigger] old(self).extractors@[i]).spec_update(dt).state is Collected ==> {
                    let mid = old(self).extractors@[i].spec_update(dt);
                    let ret = mid.spec_move_towards(old(self).station.position);
                    &&& (ret.position == old(self).station.position ==> {
                        &&& !final(self).grid.resource_spots@.contains(mid.spec_target()->0)
                        &&& final(self).extractors@[i].state is Unassigned
                        &&& final(self).extractors@[i].position == old(self).station.position
                    })
                    &&& (ret.position != old(self).station.position
                        ==> final(self).extractors@[i] == ret)
                }),
            // a pursuing extractor is exactly its timed tick
            forall|i: int| 0 <= i < old(self).extractors@.len()
                ==> ((#[trigger] old(self).extractors@[i]).spec_update(dt).state is Pursuing
                    ==> final(self).extractors@[i] == old(self).extractors@[i].spec_update(dt)),
            // an idle extractor stays put and is assigned only a spot that
            // was in the world this tick (which spot, and that assignment
            // happens whenever one remains at its turn, is pinned by the
            // extraction-tick clause above)
            forall|i: int| 0 <= i < old(self).extractors@.len()
                ==> ((#[trigger] old(self).extractors@[i]).spec_update(dt).state is Unassigned ==> {
                    let mid = old(self).extractors@[i].spec_update(dt);
                    let fin = final(self).extractors@[i];
                    &&& fin.position == mid.position
                    &&& fin.move_timer == mid.move_timer
                    &&& fin.move_delay == mid.move_delay
                    &&& (fin.state == mid.state
                        || (fin.state matches ExtractorState::Pursuing { target }
                            && old(self).grid.resource_spots@.contains(target)))
                }),
    {
        let st = self.station.position;
        let n = self.extractors.len();
        proof {
            lemma_subsequence_refl(self.grid.resource_spots@);
        }
        let mut i: usize = 0;
        while i < n
            invariant
                i <= n,
                n == old(self).extractors@.len(),
                self.extractors@.len() == n,
                self.grid.wf(),
                self.grid.width == old(self).grid.width,
                self.grid.height == old(self).grid.height,
                self.grid.obstacles@ == old(self).grid.obstacles@,
                self.grid.fog@ == old(self).grid.fog@,
                self.robots@ == old(self).robots@,
                self.station == old(self).station,
                st == old(self).station.position,
                self.phase == old(self).phase,
                self.deployment_done == old(self).deployment_done,
                self.extractors@ == extract_pass(
                    old(self).extractors@,
                    old(self).grid.resource_spots@,
                    old(self).station.position,
                    dt,
                    i as int,
                ).0,
                self.grid.resource_spots@ == extract_pass(
                    old(self).extractors@,
                    old(self).grid.resource_spots@,
                    old(self).station.position,
                    dt,
                    i as int,
                ).1,
                is_subsequence(self.grid.resource_spots@, old(self).grid.resource_spots@),
                forall|q: (usize, usize)| self.grid.resource_spots@.contains(q)
                    ==> old(self).grid.resource_spots@.contains(q),
                forall|j: int| i <= j < n
                    ==> #[trigger] self.extractors@[j] == old(self).extractors@[j],
                forall|j: int| 0 <= j < self.extractors@.len()
                    ==> self.grid.in_bounds((#[trigger] self.extractors@[j]).position),
                forall|j: int| 0 <= j < self.extractors@.len()
                    ==> match (#[trigger] self.extractors@[j]).spec_target() {
                        Some(t) => self.grid.in_bounds(t),
                        None => true,
                    },
                forall|j: int| 0 <= j < i
                    ==> ((#[trigger] old(self).extractors@[j]).spec_update(dt).state is Collected ==> {
                        let mid = old(self).extractors@[j].spec_update(dt);
                        let ret = mid.spec_move_towards(old(self).station.position);
                        &&& (ret.position == old(self).station.position ==> {
                            &&& !self.grid.resource_spots@.contains(mid.spec_target()->0)
                            &&& self.extractors@[j].state is Unassigned
                            &&& self.extractors@[j].position == old(self).station.position
                        })
                        &&& (ret.position != old(self).station.position
                            ==> self.extractors@[j] == ret)
                    }),
                forall|j: int| 0 <= j < i
                    ==> ((#[trigger] old(self).extractors@[j]).spec_update(dt).state is Pursuing
                        ==> self.extractors@[j] == old(self).extractors@[j].spec_update(dt)),
                forall|j: int| 0 <= j < i
                    ==> ((#[trigger] old(self).extractors@[j]).spec_update(dt).state is Unassigned ==> {
                        let mid = old(self).extractors@[j].spec_update(dt);
                        let fin = self.extractors@[j];
                        &&& fin.position == mid.position
                        &&& fin.move_timer == mid.move_timer
                        &&& fin.move_delay == mid.move_delay
                        &&& (fin.state == mid.state
                            || (fin.state matches ExtractorState::Pursuing { target }
                                && old(self).grid.resource_spots@.contains(target)))
                    }),
            decreases n - i,
        {
            let ghost pre = *self;
            let mut ex = self.extractors[i];
            ex.update(dt);
            match ex.state {
                ExtractorState::Collected { target } => {
                    ex.return_to_station(&st);
                    if ex.position.0 == st.0 && ex.position.1 == st.1 {
                        self.grid.remove_resource_at(target);
                        ex.state = ExtractorState::Unassigned;
                        proof {
                            lemma_retain_ne_subsequence(pre.grid.resource_spots@, target);
                            lemma_subsequence_trans(
                                self.grid.resource_spots@,
                                pre.grid.resource_spots@,
                                old(self).grid.resource_spots@,
                            );
                        }
                    }
                },
                ExtractorState::Unassigned => {
                    match self.grid.take_any_resource() {
                        Some(spot) => {
                            proof {
                                let s = pre.grid.resource_spots@;
                                assert(s[s.len() - 1] == spot);
                                assert(s.contains(spot));
                                assert forall|q: (usize, usize)|
                                    self.grid.resource_spots@.contains(q)
                                    implies s.contains(q) by {
                                    let k = choose|k: int| 0 <= k
                                        < self.grid.resource_spots@.len()
                                        && self.grid.resource_spots@[k] == q;
                                    assert(s[k] == q);
                                }
                            }
                            proof {
                                lemma_drop_last_subsequence(pre.grid.resource_spots@);
                                lemma_subsequence_trans(
                                    self.grid.resource_spots@,
                                    pre.grid.resource_spots@,
                                    old(self).grid.resource_spots@,
                                );
                            }
                            ex.state = ExtractorState::Pursuing { target: spot };
                        },
                        None => {},
                    }
                },
                ExtractorState::Pursuing { .. } => {},
            }
            self.extractors[i] = ex;
            proof {
                let exs0 = old(self).extractors@;
                let sp0 = old(self).grid.resource_spots@;
                let stn = old(self).station.position;
                let prev = extract_pass(exs0, sp0, stn, dt, i as int);
                let stepv = extract_step(prev.0[i as int], prev.1, stn, dt);
                assert(prev.0[i as int] == pre.extractors@[i as int]);
                assert(ex == stepv.0);
                assert(self.grid.resource_spots@ == stepv.1);
                assert(extract_pass(exs0, sp0, stn, dt, i + 1).0
                    == prev.0.update(i as int, stepv.0));
                assert(self.extractors@ == prev.0.update(i as int, stepv.0));
            }
            i = i + 1;
        }
    }

    /// Advances the simulation one tick, with `dt` milliseconds of elapsed
    /// time for extractor cooldowns. While exploring, every explorer steps
    /// and then global coverage is reevaluated: full coverage flips every
    /// explorer into the returning phase at once. While returning home,
    /// explorers not yet at the station step toward it; the tick in which all
    /// are colocated deploys the extractors, exactly once per run. After
    /// that, each tick runs the extraction protocol.
    pub fn update(&mut self, dt: u64)
        requires
            old(self).wf(),
        ensures
            final(self).wf(),
            final(self).grid.width == old(self).grid.width,
            final(self).grid.height == old(self).grid.height,
            final(self).grid.obstacles@ == old(self).grid.obstacles@,
            final(self).station == old(self).station,
            final(self).robots@.len() == old(self).robots@.len(),
            // fog only dissipates, never re-covers
            forall|x: int, y: int| 0 <= x < old(self).grid.width && 0 <= y < old(self).grid.height
                ==> ((#[trigger] old(self).grid.fog_at(x, y)) == false
                    ==> final(self).grid.fog_at(x, y) == false),
            // coverage never decreases over ticks and stays within [0, 100]
            0 <= old(self).grid.spec_explored_percentage(),
            old(self).grid.spec_explored_percentage()
                <= final(self).grid.spec_explored_percentage(),
            final(self).grid.spec_explored_percentage() <= 100,
            // phases only ever move forward, for the run and for each explorer
            phase_order(old(self).phase) <= phase_order(final(self).phase),
            forall|i: int| 0 <= i < old(self).robots@.len()
                ==> ((#[trigger] old(self).robots@[i]).phase is Returning
                    ==> final(self).robots@[i].phase is Returning),
            // resource spots only ever leave the world
            forall|q: (usize, usize)| final(self).grid.resource_spots@.contains(q)
                ==> old(self).grid.resource_spots@.contains(q),
            // deployment happens at most once per run
            old(self).deployment_done ==> final(self).deployment_done
                && final(self).extractors@.len() == old(self).extractors@.len(),
            // and when it happens, it puts exactly one extractor per resource
            // spot present at that instant, each at the station and pursuing
            // its spot
            (!old(self).deployment_done && final(self).deployment_done) ==> {
                &&& old(self).phase is ReturningHome
                &&& final(self).phase is Extracting
                &&& final(self).grid.resource_spots@ == old(self).grid.resource_spots@
                &&& final(self).extractors@.len() == old(self).grid.resource_spots@.len()
                &&& forall|k: int| 0 <= k < old(self).grid.resource_spots@.len() ==> {
                    let e = #[trigger] final(self).extractors@[k];
                    &&& e.position == old(self).station.position
                    &&& e.state == (ExtractorState::Pursuing {
                        target: old(self).grid.resource_spots@[k],
                    })
                }
            },
            // the phase machine, exactly: exploring flips into returning the
            // moment coverage is complete; a step only ever lands on a
            // passable cell or stays put
            old(self).phase is Exploring ==> {
                &&& (final(self).phase is ReturningHome
                    <==> final(self).grid.spec_explored_percentage() == 100)
                &&& (final(self).phase is Exploring || final(self).phase is ReturningHome)
                &&& final(self).extractors@ == old(self).extractors@
                &&& final(self).grid.resource_spots@ == old(self).grid.resource_spots@
                &&& forall|i: int| 0 <= i < old(self).robots@.len()
                    ==> ((#[trigger] final(self).robots@[i]).position
                            == old(self).robots@[i].position
                        || final(self).grid.spec_passable(final(self).robots@[i].position))
                &&& forall|i: int| 0 <= i < old(self).robots@.len()
                    ==> ((#[trigger] final(self).robots@[i]).position
                            != old(self).robots@[i].position
                        ==> revealed_around(final(self).grid, final(self).robots@[i].position))
                &&& exploring_pass(*old(self), *final(self))
            },
            // returning hands over to extraction exactly when every explorer
            // is at the station; otherwise each explorer not yet there takes
            // one step toward it
            old(self).phase is ReturningHome ==> {
                let home = forall|j: int| 0 <= j < old(self).robots@.len()
                    ==> (#[trigger] old(self).robots@[j]).position == old(self).station.position;
                &&& final(self).grid == old(self).grid
                &&& (home ==> final(self).phase is Extracting
                    && final(self).robots@ == old(self).robots@)
                &&& (!home ==> {
                    &&& final(self).phase is ReturningHome
                    &&& final(self).extractors@ == old(self).extractors@
                    &&& final(self).grid == old(self).grid
                    &&& forall|i: int| 0 <= i < old(self).robots@.len()
                        ==> (#[trigger] final(self).robots@[i]).position
                            == (if old(self).robots@[i].position == old(self).station.position {
                                old(self).robots@[i].position
                            } else {
                                spec_step_toward(
                                    old(self).robots@[i].position,
                                    old(self).station.position,
                                )
                            })
                })
            },
            // extraction is terminal, and a tick of it is exactly one
            // protocol turn for every extractor; the fog is untouched there
            old(self).phase is Extracting ==> {
                &&& final(self).phase is Extracting
                &&& extraction_tick(*old(self), *final(self), dt)
                &&& final(self).grid.fog@ == old(self).grid.fog@
            },
    {
        match self.phase {
            SimPhase::Exploring => {
                let n = self.robots.len();
                let ghost mut mids: Seq<GridWorld> = seq![old(self).grid];
                let mut i: usize = 0;
                while i < n
                    invariant
                        i <= n,
                        n == self.robots@.len(),
                        old(self).phase is Exploring,
                        forall|j: int| i <= j < n
                            ==> #[trigger] self.robots@[j] == old(self).robots@[j],
                        mids.len() == i + 1,
                        mids[0] == old(self).grid,
                        mids[i as int] == self.grid,
                        forall|j: int| 0 <= j < i
                            ==> #[trigger] some_explore_step(
                                old(self).robots@[j], mids[j], self.robots@[j], mids[j + 1]),
                        self.grid.wf(),
                        self.grid.width == old(self).grid.width,
                        self.grid.height == old(self).grid.height,
                        self.grid.obstacles@ == old(self).grid.obstacles@,
                        self.grid.resource_spots@ == old(self).grid.resource_spots@,
                        self.station == old(self).station,
                        self.extractors@ == old(self).extractors@,
                        self.phase == old(self).phase,
                        self.deployment_done == old(self).deployment_done,
                        self.robots@.len() == old(self).robots@.len(),
                        forall|j: int| 0 <= j < n
                            ==> (#[trigger] self.robots@[j]).phase == old(self).robots@[j].phase,
                        forall|j: int| 0 <= j < n
                            ==> self.grid.in_bounds((#[trigger] self.robots@[j]).position),
                        forall|j: int| 0 <= j < n
                            ==> ((#[trigger] self.robots@[j]).position
                                    == old(self).robots@[j].position
                                || self.grid.spec_passable(self.robots@[j].position)),
                        forall|j: int| 0 <= j < i
                            ==> ((#[trigger] self.robots@[j]).position
                                    != old(self).robots@[j].position
                                ==> revealed_around(self.grid, self.robots@[j].position)),
                        forall|x: int, y: int|
                            0 <= x < old(self).grid.width && 0 <= y < old(self).grid.height
                            ==> ((#[trigger] old(self).grid.fog_at(x, y)) == false
                                ==> self.grid.fog_at(x, y) == false),
                    decreases n - i,
                {
                    let ghost pre_rb = self.robots@[i as int];
                    let ghost pre_grid = self.grid;
                    let mut rb = self.robots[i];
                    rb.explore(&mut self.grid);
                    proof {
                        // a robot that moved landed on a passable candidate,
                        // and the fog around that cell was cleared
                        if rb.position != pre_rb.position {
                            assert(old(self).robots@[i as int].phase is Exploring);
                            assert(pre_rb.phase == Phase::Exploring);
                            let (dx, dy) = choose|dx: int, dy: int|
                                -1 <= dx <= 1 && -1 <= dy <= 1
                                && #[trigger] crate::explorer::explore_step(
                                    pre_rb, pre_grid, rb, self.grid, dx, dy);
                            let cand = (
                                crate::explorer::clamp_add(pre_rb.position.0, dx, pre_grid.width),
                                crate::explorer::clamp_add(pre_rb.position.1, dy, pre_grid.height),
                            );
                            assert(pre_grid.spec_passable(cand));
                            assert forall|x: int, y: int|
                                0 <= x < self.grid.width && 0 <= y < self.grid.height
                                && rb.position.0 - 1 <= x <= rb.position.0 + 1
                                && rb.position.1 - 1 <= y <= rb.position.1 + 1
                                implies (#[trigger] self.grid.fog_at(x, y)) == false by {
                                assert(self.grid.fog_at(x, y)
                                    == (pre_grid.fog_at(x, y)
                                        && !(cand.0 - 1 <= x <= cand.0 + 1
                                            && cand.1 - 1 <= y <= cand.1 + 1)));
                            }
                            assert(revealed_around(self.grid, rb.position));
                        }
                        // what an earlier robot revealed stays revealed
                        assert forall|j: int|
                            0 <= j < i
                            && (#[trigger] self.robots@[j]).position
                                != old(self).robots@[j].position
                            implies revealed_around(self.grid, self.robots@[j].position) by {
                            let p = self.robots@[j].position;
                            assert forall|x: int, y: int|
                                0 <= x < self.grid.width && 0 <= y < self.grid.height
                                && p.0 - 1 <= x <= p.0 + 1 && p.1 - 1 <= y <= p.1 + 1
                                implies (#[trigger] self.grid.fog_at(x, y)) == false by {
                                assert(pre_grid.fog_at(x, y) == false);
                            }
                        }
                    }
                    self.robots[i] = rb;
                    proof {
                        mids = mids.push(self.grid);
                        assert(mids[i as int] == pre_grid);
                        assert(mids[i as int + 1] == self.grid);
                        assert(self.robots@[i as int] == rb);
                        assert(some_explore_step(
                            old(self).robots@[i as int],
                            mids[i as int],
                            self.robots@[i as int],
                            mids[i as int + 1],
                        ));
                    }
                    i = i + 1;
                }
                let pct = self.grid.explored_percentage();
                let ghost mid = *self;
                proof {
                    assert(forall|j: int| 0 <= j < n
                        ==> #[trigger] some_explore_step(
                            old(self).robots@[j], mids[j], mid.robots@[j], mids[j + 1]));
                }
                if pct >= 100 {
                    let m = self.robots.len();
                    let mut j: usize = 0;
                    while j < m
                        invariant
                            j <= m,
                            m == self.robots@.len(),
                            self.grid == mid.grid,
                            self.grid.wf(),
                            self.grid.width == old(self).grid.width,
                            self.grid.height == old(self).grid.height,
                            self.grid.obstacles@ == old(self).grid.obstacles@,
                            self.grid.resource_spots@ == old(self).grid.resource_spots@,
                            forall|x: int, y: int|
                                0 <= x < old(self).grid.width && 0 <= y < old(self).grid.height
                                ==> ((#[trigger] old(self).grid.fog_at(x, y)) == false
                                    ==> self.grid.fog_at(x, y) == false),
                            self.station == old(self).station,
                            self.extractors@ == old(self).extractors@,
                            self.phase == old(self).phase,
                            self.deployment_done == old(self).deployment_done,
                            self.robots@.len() == old(self).robots@.len(),
                            forall|k: int| 0 <= k < j
                                ==> (#[trigger] self.robots@[k]).phase is Returning,
                            forall|k: int| 0 <= k < m
                                ==> self.grid.in_bounds((#[trigger] self.robots@[k]).position),
                            forall|k: int| 0 <= k < m
                                ==> ((#[trigger] self.robots@[k]).position
                                        == old(self).robots@[k].position
                                    || self.grid.spec_passable(self.robots@[k].position)),
                            forall|k: int| 0 <= k < m
                                ==> ((#[trigger] self.robots@[k]).position
                                        != old(self).robots@[k].position
                                    ==> revealed_around(self.grid, self.robots@[k].position)),
                            forall|k: int| 0 <= k < m
                                ==> (#[trigger] self.robots@[k]).position
                                    == mid.robots@[k].position,
                        decreases m - j,
                    {
                        let mut rb = self.robots[j];
                        rb.phase = Phase::Returning;
                        self.robots[j] = rb;
                        j = j + 1;
                    }
                    self.phase = SimPhase::ReturningHome;
                    proof {
                        assert forall|j: int| 0 <= j < n
                            implies #[trigger] some_explore_step(
                                old(self).robots@[j], mids[j], self.robots@[j], mids[j + 1]) by {
                            assert(some_explore_step(
                                old(self).robots@[j], mids[j], mid.robots@[j], mids[j + 1]));
                            let (dx, dy) = choose|dx: int, dy: int|
                                -1 <= dx <= 1 && -1 <= dy <= 1
                                && #[trigger] crate::explorer::explore_step(
                                    old(self).robots@[j], mids[j], mid.robots@[j],
                                    mids[j + 1], dx, dy);
                            assert(self.robots@[j].position == mid.robots@[j].position);
                            assert(crate::explorer::explore_step(
                                old(self).robots@[j], mids[j], self.robots@[j],
                                mids[j + 1], dx, dy));
                        }
                    }
                }
                proof {
                    assert(exploring_pass_with(*old(self), *self, mids));
                    crate::grid::lemma_explored_percentage_monotone(old(self).grid, self.grid);
                }
            },
            SimPhase::ReturningHome => {
                let st = self.station.position;
                let n = self.robots.len();
                let mut all_home = true;
                let mut i: usize = 0;
                while i < n
                    invariant
                        i <= n,
                        n == self.robots@.len(),
                        all_home <==> (forall|j: int| 0 <= j < i
                            ==> (#[trigger] self.robots@[j]).position == st),
                        st == self.station.position,
                    decreases n - i,
                {
                    let p = self.robots[i].position;
                    if !(p.0 == st.0 && p.1 == st.1) {
                        all_home = false;
                    }
                    i = i + 1;
                }
                if all_home {
                    self.deployment_done = true;
                    self.phase = SimPhase::Extracting;
                    let ghost pre = *self;
                    self.deploy_extractors();
                    proof {
                        assert(pre.extractors@.len() == 0);
                        assert forall|k: int| 0 <= k < old(self).grid.resource_spots@.len()
                            implies {
                                let e = #[trigger] self.extractors@[k];
                                &&& e.position == old(self).station.position
                                &&& e.state == (ExtractorState::Pursuing {
                                    target: old(self).grid.resource_spots@[k],
                                })
                            } by {
                            assert(self.extractors@[pre.extractors@.len() + k].position
                                == pre.station.position);
                            assert(pre.extractors@.len() + k == k);
                        }
                    }
                } else {
                    let mut k: usize = 0;
                    while k < n
                        invariant
                            k <= n,
                            n == self.robots@.len(),
                            self.grid == old(self).grid,
                            self.station == old(self).station,
                            self.extractors@ == old(self).extractors@,
                            self.phase == old(self).phase,
                            self.deployment_done == old(self).deployment_done,
                            self.robots@.len() == old(self).robots@.len(),
                            st == old(self).station.position,
                            forall|j: int| 0 <= j < n
                                ==> (#[trigger] self.robots@[j]).phase is Returning,
                            forall|j: int| 0 <= j < n
                                ==> self.grid.in_bounds((#[trigger] self.robots@[j]).position),
                            forall|j: int| k <= j < n
                                ==> #[trigger] self.robots@[j] == old(self).robots@[j],
                            forall|j: int| 0 <= j < k
                                ==> (#[trigger] self.robots@[j]).position
                                    == (if old(self).robots@[j].position == st {
                                        old(self).robots@[j].position
                                    } else {
                                        spec_step_toward(old(self).robots@[j].position, st)
                                    }),
                        decreases n - k,
                    {
                        let p = self.robots[k].position;
                        if !(p.0 == st.0 && p.1 == st.1) {
                            let mut rb = self.robots[k];
                            rb.return_to_station(&st);
                            self.robots[k] = rb;
                        }
                        k = k + 1;
                    }
                }
                proof {
                    crate::grid::lemma_explored_percentage_monotone(old(self).grid, self.grid);
                }
            },
            SimPhase::Extracting => {
                self.update_extractors(dt);
                proof {
                    crate::grid::lemma_explored_percentage_monotone(old(self).grid, self.grid);
                }
            },
        }
    }
}

} // verus!
