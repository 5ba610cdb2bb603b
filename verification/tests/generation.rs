use gridsim::grid::{GridWorld, WorldError, RESOURCE_SPOT_COUNT};

#[test]
fn generate_is_deterministic() {
    let a = GridWorld::generate(42, 16, 12).unwrap();
    let b = GridWorld::generate(42, 16, 12).unwrap();
    assert_eq!(a.width, b.width);
    assert_eq!(a.height, b.height);
    assert_eq!(a.obstacles, b.obstacles);
    assert_eq!(a.resource_spots, b.resource_spots);
    assert_eq!(a.fog, b.fog);
}

#[test]
fn generate_rejects_zero_width() {
    assert_eq!(GridWorld::generate(1, 0, 5).unwrap_err(), WorldError::EmptyGrid);
}

#[test]
fn generate_rejects_zero_height() {
    assert_eq!(GridWorld::generate(1, 5, 0).unwrap_err(), WorldError::EmptyGrid);
}

#[test]
fn generate_spots_and_fog() {
    let g = GridWorld::generate(7, 9, 9).unwrap();
    assert_eq!(g.resource_spots.len(), RESOURCE_SPOT_COUNT);
    for &(x, y) in &g.resource_spots {
        assert!(x < 9 && y < 9);
    }
    for row in &g.fog {
        assert_eq!(row.len(), 9);
        for &cell in row {
            assert!(cell);
        }
    }
    assert_eq!(g.explored_percentage(), 0);
}

#[test]
fn seed_1234_has_expected_density_and_spots() {
    let g = GridWorld::generate(1234, 20, 15).unwrap();
    assert_eq!(g.resource_spots.len(), 10);
    let obstacles: usize = g
        .obstacles
        .iter()
        .map(|row| row.iter().filter(|&&c| c).count())
        .sum();
    // about 30% of 300 cells
    assert!(obstacles >= 60 && obstacles <= 120, "obstacle count {obstacles}");
}

#[test]
fn remove_resource_at_removes_all_duplicates() {
    let mut g = GridWorld::generate(3, 6, 6).unwrap();
    let spot = g.resource_spots[0];
    g.resource_spots.push(spot);
    g.resource_spots.push(spot);
    g.remove_resource_at(spot);
    assert!(!g.resource_spots.contains(&spot));
}

#[test]
fn take_any_resource_pops_from_the_end() {
    let mut g = GridWorld::generate(3, 6, 6).unwrap();
    let before = g.resource_spots.clone();
    let taken = g.take_any_resource().unwrap();
    assert_eq!(taken, *before.last().unwrap());
    assert_eq!(g.resource_spots, before[..before.len() - 1].to_vec());
    while g.take_any_resource().is_some() {}
    assert!(g.resource_spots.is_empty());
    assert!(g.take_any_resource().is_none());
}

#[test]
fn is_passable_rejects_out_of_bounds_and_obstacles() {
    let g = GridWorld::generate(11, 8, 5).unwrap();
    assert!(!g.is_passable((8, 0)));
    assert!(!g.is_passable((0, 5)));
    for y in 0..5 {
        for x in 0..8 {
            assert_eq!(g.is_passable((x, y)), !g.obstacles[y][x]);
        }
    }
}

#[test]
fn reveal_around_clears_clipped_neighborhood() {
    let mut g = GridWorld::generate(5, 7, 7).unwrap();
    g.reveal_around((0, 0));
    for y in 0..7 {
        for x in 0..7 {
            let near = x <= 1 && y <= 1;
            assert_eq!(g.fog[y][x], !near);
        }
    }
    g.reveal_around((3, 4));
    for y in 0..7usize {
        for x in 0..7usize {
            let near_a = x <= 1 && y <= 1;
            let near_b = (2..=4).contains(&x) && (3..=5).contains(&y);
            assert_eq!(g.fog[y][x], !(near_a || near_b));
        }
    }
}

#[test]
fn explored_percentage_is_exact() {
    let mut g = GridWorld::generate(9, 10, 10).unwrap();
    // clear a 3x3 block: 9 cells of 100
    g.reveal_around((1, 1));
    assert_eq!(g.explored_percentage(), 9);
    // percentage only reaches 100 when everything is cleared
    for y in 0..10 {
        for x in 0..10 {
            g.reveal_around((x, y));
        }
    }
    assert_eq!(g.explored_percentage(), 100);
}
