use gridsim::explorer::{Phase, Robot};
use gridsim::extractor::{ExtractorRobot, ExtractorState, DEFAULT_MOVE_DELAY_MS};
use gridsim::grid::GridWorld;

fn find_passable(g: &GridWorld) -> (usize, usize) {
    for y in 0..g.height {
        for x in 0..g.width {
            if g.is_passable((x, y)) {
                return (x, y);
            }
        }
    }
    panic!("no passable cell");
}

#[test]
fn explorer_steps_stay_in_bounds_and_off_obstacles() {
    let mut g = GridWorld::generate(5, 8, 8).unwrap();
    let start = find_passable(&g);
    let mut r = Robot::new(start);
    let mut visited = vec![start];
    for _ in 0..400 {
        r.explore(&mut g);
        let (x, y) = r.position;
        assert!(x < g.width && y < g.height);
        assert!(g.is_passable((x, y)));
        if !visited.contains(&r.position) {
            visited.push(r.position);
        }
    }
    // the random walk actually walks: a draw stream stuck at (0, 0) would
    // keep the robot in place for all 400 steps
    assert!(visited.len() >= 2);
}

#[test]
fn explorer_in_returning_phase_does_not_explore() {
    let mut g = GridWorld::generate(5, 8, 8).unwrap();
    let start = find_passable(&g);
    let mut r = Robot::new(start);
    r.phase = Phase::Returning;
    let fog_before = g.fog.clone();
    for _ in 0..50 {
        r.explore(&mut g);
    }
    assert_eq!(r.position, start);
    assert_eq!(g.fog, fog_before);
}

#[test]
fn return_to_station_takes_diagonal_steps() {
    let mut r = Robot::new((0, 0));
    let station = (3, 1);
    r.return_to_station(&station);
    assert_eq!(r.position, (1, 1));
    r.return_to_station(&station);
    assert_eq!(r.position, (2, 1));
    r.return_to_station(&station);
    assert_eq!(r.position, (3, 1));
    r.return_to_station(&station);
    assert_eq!(r.position, (3, 1));
}

#[test]
fn extractor_gate_opens_once_in_three_small_ticks() {
    // move_delay 0.5 s, ticked three times with dt = 0.2 s: exactly one step
    let mut ex = ExtractorRobot::new((0, 0));
    assert_eq!(ex.move_delay, DEFAULT_MOVE_DELAY_MS);
    ex.state = ExtractorState::Pursuing { target: (5, 5) };
    let mut steps = 0;
    for _ in 0..3 {
        let before = ex.position;
        ex.update(200);
        if ex.position != before {
            steps += 1;
        }
    }
    assert_eq!(steps, 1);
    assert_eq!(ex.position, (1, 1));
}

#[test]
fn extractor_two_straight_steps_to_collect() {
    // station at (10, 10), extractor at (10, 12), target (10, 10)
    let mut ex = ExtractorRobot::new((10, 12));
    ex.state = ExtractorState::Pursuing { target: (10, 10) };
    ex.update(500);
    assert_eq!(ex.position, (10, 11));
    assert!(!matches!(ex.state, ExtractorState::Collected { .. }));
    ex.update(500);
    assert_eq!(ex.position, (10, 10));
    assert_eq!(ex.state, ExtractorState::Collected { target: (10, 10) });
}

#[test]
fn extractor_collects_only_on_its_target() {
    let mut ex = ExtractorRobot::new((0, 0));
    ex.state = ExtractorState::Pursuing { target: (7, 3) };
    let mut was_collected = false;
    for _ in 0..20 {
        ex.update(DEFAULT_MOVE_DELAY_MS);
        if let ExtractorState::Collected { target } = ex.state {
            if !was_collected {
                // at the moment the flag is set, the position is the target
                assert_eq!(ex.position, target);
                was_collected = true;
            }
        }
    }
    assert!(was_collected);
}

#[test]
fn extractor_without_target_never_moves() {
    let mut ex = ExtractorRobot::new((4, 4));
    for _ in 0..10 {
        ex.update(1000);
        assert_eq!(ex.position, (4, 4));
        assert_eq!(ex.state, ExtractorState::Unassigned);
    }
}

#[test]
fn extractor_returns_to_station_unthrottled() {
    let mut ex = ExtractorRobot::new((2, 2));
    ex.state = ExtractorState::Collected { target: (2, 2) };
    let station = (0, 0);
    // the return trip is not gated by the cooldown
    ex.move_timer = DEFAULT_MOVE_DELAY_MS;
    ex.return_to_station(&station);
    assert_eq!(ex.position, (1, 1));
    ex.return_to_station(&station);
    assert_eq!(ex.position, (0, 0));
    assert!(matches!(ex.state, ExtractorState::Collected { .. }));
}
