use boids::boid::Boid;
use boids::geometry::Vec2;
use boids::orchestrator::{BoidOrchestrator, Compass};

/// Reports the quadrant of a velocity, enough to tell headings apart.
struct Quadrant;

impl Compass for Quadrant {
    fn heading(&self, v: Vec2) -> i64 {
        match (v.x >= 0, v.y >= 0) {
            (true, true) => 0,
            (false, true) => 1,
            (false, false) => 2,
            (true, false) => 3,
        }
    }
}

fn flock(
    n: usize,
    pc: i64,
    avoid: i64,
    range: i64,
    matching: i64,
    border: i64,
) -> BoidOrchestrator {
    let positions = vec![Vec2::new(50_000, 50_000); n];
    BoidOrchestrator::new(100, 100, positions, pc, avoid, range, matching, border, &Quadrant)
}

fn velocity(f: &BoidOrchestrator, id: usize) -> (i64, i64) {
    (f.get_velocity_x(id).unwrap(), f.get_velocity_y(id).unwrap())
}

#[test]
fn construct_places_boids_at_rest_with_ids_in_order() {
    let positions = vec![Vec2::new(1_000, 2_000), Vec2::new(3_000, 4_000)];
    let f = BoidOrchestrator::new(10, 10, positions, 1000, 1000, 1000, 1000, 1000, &Quadrant);
    assert_eq!(f.length(), 6);
    assert_eq!(f.items(), &vec![1_000, 2_000, 0, 3_000, 4_000, 0]);
    assert_eq!(
        f.get_boid(1),
        Some(Boid::new(Vec2::new(3_000, 4_000), Vec2::new(0, 0), 1))
    );
}

#[test]
fn separation_pushes_close_pair_apart() {
    let mut f = flock(2, 1000, 1000, 10_000, 1000, 1000);
    assert!(f.place_boid(0, Vec2::new(10_000, 10_000), Vec2::new(0, 0), &Quadrant));
    assert!(f.place_boid(1, Vec2::new(12_000, 10_000), Vec2::new(0, 0), &Quadrant));
    f.tick(1000, &Quadrant);
    assert!(f.get_velocity_x(0).unwrap() < 0);
    assert!(f.get_velocity_x(1).unwrap() > 0);
}

#[test]
fn pair_step_gives_exact_values() {
    let mut f = flock(2, 1000, 1000, 10_000, 1000, 1000);
    f.place_boid(0, Vec2::new(10_000, 10_000), Vec2::new(0, 0), &Quadrant);
    f.place_boid(1, Vec2::new(12_000, 10_000), Vec2::new(0, 0), &Quadrant);
    assert_eq!(f.get_velocity_to_percived_center_x(0), Some(20));
    assert_eq!(f.get_velocity_to_percived_center_y(0), Some(0));
    assert_eq!(f.get_avoidance_velocity_x(0), Some(-2_000));
    assert_eq!(f.get_avoidance_velocity_y(0), Some(0));
    assert_eq!(f.get_match_percived_velocity_x(0), Some(0));
    f.tick(1000, &Quadrant);
    assert_eq!(velocity(&f, 0), (-1_980, 0));
    assert_eq!(velocity(&f, 1), (1_980, 0));
    assert_eq!(f.items(), &vec![8_020, 10_000, 1, 13_980, 10_000, 0]);
}

#[test]
fn separation_ignores_boids_at_or_beyond_radius() {
    let f0 = {
        let mut f = flock(2, 0, 1000, 2_000, 0, 0);
        f.place_boid(0, Vec2::new(10_000, 10_000), Vec2::new(0, 0), &Quadrant);
        f.place_boid(1, Vec2::new(12_000, 10_000), Vec2::new(0, 0), &Quadrant);
        f
    };
    assert_eq!(f0.get_avoidance_velocity_x(0), Some(0));
}

#[test]
fn alignment_matches_average_velocity_of_others() {
    let mut f = flock(3, 0, 0, 10_000, 1000, 0);
    f.place_boid(0, Vec2::new(0, 0), Vec2::new(0, 0), &Quadrant);
    f.place_boid(1, Vec2::new(20_000, 0), Vec2::new(4_000, 0), &Quadrant);
    f.place_boid(2, Vec2::new(40_000, 0), Vec2::new(4_000, 0), &Quadrant);
    assert_eq!(f.get_match_percived_velocity_x(0), Some(500));
    f.tick(1000, &Quadrant);
    assert_eq!(f.get_velocity_x(0), Some(500));
}

#[test]
fn speed_stays_within_limit_over_many_steps() {
    let positions = vec![
        Vec2::new(0, 0),
        Vec2::new(500, 700),
        Vec2::new(90_000, 10_000),
        Vec2::new(-40_000, 130_000),
        Vec2::new(50_000, 50_000),
    ];
    let mut f =
        BoidOrchestrator::new(100, 100, positions, 50_000, 80_000, 30_000, 20_000, 90_000, &Quadrant);
    for _ in 0..200 {
        f.tick(16, &Quadrant);
        for id in 0..5 {
            let (x, y) = velocity(&f, id);
            assert!(x * x + y * y <= 25_000 * 25_000);
        }
    }
}

#[test]
fn speed_limit_rescales_to_limit() {
    let mut f = flock(1, 0, 0, 0, 0, 5_000);
    f.place_boid(0, Vec2::new(-1_000, 50_000), Vec2::new(0, 0), &Quadrant);
    f.tick(1000, &Quadrant);
    assert_eq!(velocity(&f, 0), (25_000, 0));
    f.place_boid(0, Vec2::new(-1_000, -1_000), Vec2::new(0, 0), &Quadrant);
    f.tick(1000, &Quadrant);
    assert_eq!(velocity(&f, 0), (17_677, 17_677));
}

#[test]
fn border_pushes_lone_boid_back_inside() {
    let mut f = flock(1, 0, 0, 10_000, 0, 1_500);
    f.place_boid(0, Vec2::new(-3_000, 50_000), Vec2::new(0, 0), &Quadrant);
    f.tick(1000, &Quadrant);
    assert_eq!(velocity(&f, 0), (15_000, 0));
    f.place_boid(0, Vec2::new(50_000, 100_001), Vec2::new(2_000, 0), &Quadrant);
    f.tick(1000, &Quadrant);
    assert_eq!(velocity(&f, 0), (2_000, -15_000));
    f.place_boid(0, Vec2::new(100_000, 100_000), Vec2::new(0, 0), &Quadrant);
    f.tick(1000, &Quadrant);
    assert_eq!(velocity(&f, 0), (0, 0));
}

#[test]
fn lone_boid_has_no_cohesion_or_alignment() {
    let mut f = flock(1, 1000, 1000, 10_000, 1000, 1000);
    for _ in 0..3 {
        assert_eq!(f.get_velocity_to_percived_center_x(0), Some(0));
        assert_eq!(f.get_velocity_to_percived_center_y(0), Some(0));
        assert_eq!(f.get_match_percived_velocity_x(0), Some(0));
        assert_eq!(f.get_match_percived_velocity_y(0), Some(0));
        f.tick(1000, &Quadrant);
    }
}

#[test]
fn add_then_remove_restores_state() {
    let mut f = flock(3, 1000, 1000, 10_000, 1000, 1000);
    f.place_boid(1, Vec2::new(7_000, 9_000), Vec2::new(-300, 100), &Quadrant);
    f.tick(500, &Quadrant);
    let before = f.items().clone();
    assert!(f.add_boid(Vec2::new(1_234, 5_678), &Quadrant));
    assert_eq!(f.length(), 12);
    assert_eq!(f.get_boid(3).unwrap().position, Vec2::new(1_234, 5_678));
    f.remove_last_boid();
    assert_eq!(f.items(), &before);
    assert_eq!(f.length(), 9);
}

#[test]
fn buffer_length_tracks_boid_count() {
    let mut f = flock(2, 1000, 1000, 10_000, 1000, 1000);
    assert_eq!(f.length(), 6);
    f.add_boid(Vec2::new(0, 0), &Quadrant);
    f.tick(100, &Quadrant);
    assert_eq!(f.length(), 9);
    f.remove_last_boid();
    f.remove_last_boid();
    f.remove_last_boid();
    assert_eq!(f.length(), 0);
    f.remove_last_boid();
    assert_eq!(f.length(), 0);
    assert!(f.items().is_empty());
    f.tick(100, &Quadrant);
    assert_eq!(f.length(), 0);
}

#[test]
fn ids_are_not_reused_after_removal() {
    let mut f = flock(2, 0, 0, 0, 0, 0);
    f.remove_last_boid();
    assert!(f.add_boid(Vec2::new(1, 1), &Quadrant));
    assert!(f.get_boid(1).is_none());
    assert_eq!(f.get_boid(2).unwrap().position, Vec2::new(1, 1));
}

#[test]
fn unknown_id_is_not_found() {
    let mut f = flock(2, 1000, 1000, 10_000, 1000, 1000);
    assert_eq!(f.get_velocity_x(7), None);
    assert_eq!(f.get_velocity_y(7), None);
    assert_eq!(f.get_avoidance_velocity_y(7), None);
    assert_eq!(f.get_match_percived_velocity_y(2), None);
    assert_eq!(f.get_velocity_to_percived_center_x(2), None);
    assert!(f.get_boid(2).is_none());
    assert!(!f.place_boid(9, Vec2::new(0, 0), Vec2::new(0, 0), &Quadrant));
}

#[test]
fn place_rejects_velocity_over_limit() {
    let mut f = flock(1, 0, 0, 0, 0, 0);
    assert!(!f.place_boid(0, Vec2::new(0, 0), Vec2::new(20_000, 20_000), &Quadrant));
    assert_eq!(f.get_boid(0).unwrap().position, Vec2::new(50_000, 50_000));
    assert!(f.place_boid(0, Vec2::new(0, 0), Vec2::new(15_000, 20_000), &Quadrant));
}

#[test]
fn full_flock_refuses_more_boids() {
    let positions = vec![Vec2::new(0, 0); 65_536];
    let mut f = BoidOrchestrator::new(10, 10, positions, 0, 0, 0, 0, 0, &Quadrant);
    assert!(!f.add_boid(Vec2::new(0, 0), &Quadrant));
    assert_eq!(f.length(), 3 * 65_536);
}

#[test]
fn position_moves_by_velocity_times_dt() {
    let mut f = flock(1, 0, 0, 0, 0, 0);
    f.place_boid(0, Vec2::new(1_000, 1_000), Vec2::new(3_000, -2_000), &Quadrant);
    f.tick(1_500, &Quadrant);
    assert_eq!(f.get_boid(0).unwrap().position, Vec2::new(5_500, -2_000));
    assert_eq!(f.items(), &vec![5_500, -2_000, 3]);
}
