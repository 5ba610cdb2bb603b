use gridsim::explorer::Phase;
use gridsim::extractor::ExtractorState;
use gridsim::sim::{GameState, SimPhase};

#[test]
fn coverage_is_monotone_and_bounded() {
    let mut gs = GameState::new(99, 8, 6, vec![(0, 0), (7, 5)], (4, 3));
    let mut last = gs.grid.explored_percentage();
    let mut fog = gs.grid.fog.clone();
    for _ in 0..2000 {
        gs.update(100);
        let pct = gs.grid.explored_percentage();
        assert!(pct >= last && pct <= 100);
        last = pct;
        // fog never re-covers a cell
        for y in 0..gs.grid.height {
            for x in 0..gs.grid.width {
                if !fog[y][x] {
                    assert!(!gs.grid.fog[y][x]);
                }
            }
        }
        fog = gs.grid.fog.clone();
    }
}

#[test]
fn deployment_happens_exactly_once() {
    let mut gs = GameState::new(21, 12, 9, vec![(6, 4)], (6, 4));
    // put the run just before the deployment trigger: the explorer is already
    // at the station and the returning phase is under way
    gs.phase = SimPhase::ReturningHome;
    for r in &mut gs.robots {
        r.phase = Phase::Returning;
    }
    let spots = gs.grid.resource_spots.clone();
    gs.update(500);
    assert!(gs.deployment_done);
    assert_eq!(gs.phase, SimPhase::Extracting);
    assert_eq!(gs.extractors.len(), spots.len());
    for (k, ex) in gs.extractors.iter().enumerate() {
        assert_eq!(ex.position, (6, 4));
        assert_eq!(ex.state, ExtractorState::Pursuing { target: spots[k] });
    }
    // no further deployment on later ticks
    gs.update(500);
    gs.update(500);
    assert_eq!(gs.extractors.len(), spots.len());
    assert!(gs.deployment_done);
}

#[test]
fn delivery_removes_the_target_from_the_world() {
    let mut gs = GameState::new(31, 10, 10, vec![(3, 3)], (3, 3));
    gs.phase = SimPhase::Extracting;
    gs.deployment_done = true;
    for r in &mut gs.robots {
        r.phase = Phase::Returning;
    }
    let target = *gs.grid.resource_spots.first().unwrap();
    let spots_before = gs.grid.resource_spots.clone();
    let mut ex = gridsim::extractor::ExtractorRobot::new((3, 3));
    ex.state = ExtractorState::Collected { target };
    gs.extractors.push(ex);
    assert!(gs.grid.resource_spots.contains(&target));
    gs.update(500);
    // the carried target no longer appears in the resource-spot list, and the
    // extractor released it; the survivors keep their relative order
    assert!(!gs.grid.resource_spots.contains(&target));
    let expected: Vec<(usize, usize)> = spots_before
        .iter()
        .cloned()
        .filter(|p| *p != target)
        .collect();
    assert_eq!(gs.grid.resource_spots, expected);
    assert_eq!(gs.extractors[0].position, (3, 3));
    // it was immediately reassigned on a later tick, or stays unassigned if
    // nothing is left; on this tick it has just released the target
    assert_eq!(gs.extractors[0].state, ExtractorState::Unassigned);
}

#[test]
fn idle_extractor_is_assigned_a_remaining_spot() {
    let mut gs = GameState::new(77, 10, 10, vec![(5, 5)], (5, 5));
    gs.phase = SimPhase::Extracting;
    gs.deployment_done = true;
    for r in &mut gs.robots {
        r.phase = Phase::Returning;
    }
    let last = *gs.grid.resource_spots.last().unwrap();
    let spots_before = gs.grid.resource_spots.clone();
    let n = spots_before.len();
    gs.extractors.push(gridsim::extractor::ExtractorRobot::new((5, 5)));
    gs.update(500);
    assert_eq!(gs.extractors[0].state, ExtractorState::Pursuing { target: last });
    // exactly the popped end element left; the rest keep their order
    assert_eq!(gs.grid.resource_spots, spots_before[..n - 1].to_vec());
}

#[test]
fn full_run_seed_1234_explores_returns_deploys_and_extracts() {
    let mut gs = GameState::new(1234, 20, 15, vec![(5, 5), (15, 5)], (10, 10));
    assert_eq!(gs.grid.resource_spots.len(), 10);

    // exploration reaches full coverage and flips every explorer at once
    let mut ticks = 0u64;
    while gs.phase == SimPhase::Exploring {
        gs.update(100);
        ticks += 1;
        assert!(ticks < 3_000_000, "exploration did not complete");
    }
    assert_eq!(gs.grid.explored_percentage(), 100);
    assert!(gs.robots.iter().all(|r| r.phase == Phase::Returning));
    assert!(gs.extractors.is_empty());

    // all explorers walk home, then extractors deploy, one per spot
    let spots_at_return = gs.grid.resource_spots.clone();
    while gs.phase == SimPhase::ReturningHome {
        gs.update(100);
        ticks += 1;
        assert!(ticks < 3_100_000, "return did not complete");
    }
    assert!(gs.robots.iter().all(|r| r.position == (10, 10)));
    assert!(gs.deployment_done);
    assert_eq!(gs.extractors.len(), spots_at_return.len());

    // extraction drains the world: every resource spot is eventually
    // delivered (or superseded by a duplicate removal) and every extractor
    // ends released at the station
    let mut extract_ticks = 0u64;
    while !gs.grid.resource_spots.is_empty()
        || gs
            .extractors
            .iter()
            .any(|e| !matches!(e.state, ExtractorState::Unassigned))
    {
        gs.update(500);
        extract_ticks += 1;
        assert!(extract_ticks < 100_000, "extraction did not complete");
    }
    assert!(gs.grid.resource_spots.is_empty());
    for e in &gs.extractors {
        assert_eq!(e.position, (10, 10));
    }
}
