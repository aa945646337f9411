use brains::humans::Human;
use brains::sim::World;
use brains::types::Position;
use brains::world::Element;

use rand::rngs::StdRng;
use rand::SeedableRng;

#[test]
fn place_region_fills_exactly_the_clamped_rectangle() {
    let mut w = World::new(5, 5, 1);
    w.environment.place_region(
        Position { x: 1, y: 1 },
        Position { x: 3, y: 4 },
        Element::Grass(1000),
    );
    for x in 0..5usize {
        for y in 0..5usize {
            let e = w.environment.get_element(x, y);
            if (1..3).contains(&x) && (1..4).contains(&y) {
                assert_eq!(e, Element::Grass(1000));
            } else {
                assert_eq!(e, Element::Empty);
            }
        }
    }
}

#[test]
fn place_region_clamps_out_of_range_corners() {
    let mut w = World::new(4, 4, 1);
    w.environment.place_region(
        Position { x: -10, y: 2 },
        Position { x: 100, y: 100 },
        Element::House(500),
    );
    for x in 0..4usize {
        for y in 0..4usize {
            let e = w.environment.get_element(x, y);
            if y >= 2 {
                assert_eq!(e, Element::House(500));
            } else {
                assert_eq!(e, Element::Empty);
            }
        }
    }
}

#[test]
fn place_region_keeps_prior_values_elsewhere() {
    let mut w = World::new(4, 4, 1);
    w.environment.place_region(
        Position { x: 0, y: 0 },
        Position { x: 2, y: 2 },
        Element::Tree(1000),
    );
    w.environment.place_region(
        Position { x: 1, y: 1 },
        Position { x: 3, y: 3 },
        Element::Water(1000),
    );
    assert_eq!(w.environment.get_element(0, 0), Element::Tree(1000));
    assert_eq!(w.environment.get_element(0, 1), Element::Tree(1000));
    assert_eq!(w.environment.get_element(1, 1), Element::Water(1000));
    assert_eq!(w.environment.get_element(2, 2), Element::Water(1000));
    assert_eq!(w.environment.get_element(3, 3), Element::Empty);
}

#[test]
fn add_lake_and_forest_record_midpoints_inside_the_region() {
    let mut w = World::new(20, 20, 10);
    w.add_forest(Position { x: 12, y: 1 }, Position { x: 18, y: 4 });
    w.add_lake(Position { x: 1, y: 15 }, Position { x: 3, y: 19 });
    assert_eq!(w.environment.forests.len(), 1);
    assert_eq!(w.environment.lakes.len(), 1);
    let f = w.environment.forests[0];
    assert!(12 <= f.x && f.x < 18 && 1 <= f.y && f.y < 4);
    let l = w.environment.lakes[0];
    assert!(1 <= l.x && l.x < 3 && 15 <= l.y && l.y < 19);
    assert_eq!(w.environment.get_element(13, 2), Element::Tree(1000));
    assert_eq!(w.environment.get_element(2, 17), Element::Water(1000));
}

#[test]
fn distances_take_the_minimum_over_landmarks() {
    let mut w = World::new(12, 12, 1);
    w.add_lake(Position { x: 0, y: 0 }, Position { x: 1, y: 1 });
    w.add_lake(Position { x: 10, y: 10 }, Position { x: 11, y: 11 });
    let lake_a = w.environment.lakes[0];
    let lake_b = w.environment.lakes[1];
    assert_eq!((lake_a.x, lake_a.y), (0, 0));
    assert_eq!((lake_b.x, lake_b.y), (10, 10));
    let p = Position { x: 2, y: 1 };
    assert_eq!(w.environment.distance_to_lake(&p), 3);
    let c = w.environment.closest_lake(&p);
    assert_eq!((c.x, c.y), (0, 0));
}

#[test]
fn closest_landmark_ties_go_to_the_first_recorded() {
    let mut w = World::new(10, 10, 1);
    w.add_forest(Position { x: 0, y: 4 }, Position { x: 1, y: 5 });
    w.add_forest(Position { x: 4, y: 0 }, Position { x: 5, y: 1 });
    // Both landmarks are at Manhattan distance 4 from (2, 2).
    let p = Position { x: 2, y: 2 };
    assert_eq!(w.environment.distance_to_forest(&p), 4);
    let c = w.environment.closest_forest(&p);
    assert_eq!((c.x, c.y), (0, 4));
}

#[test]
fn manhattan_distance_adds_both_axes() {
    let a = Position::new(3, -2);
    let b = Position::new(-1, 5);
    assert_eq!(a.manhattan_dist(&b), 11);
    assert_eq!(b.manhattan_dist(&a), 11);
    assert_eq!(a.manhattan_dist(&a), 0);
    let s = a.add(b);
    assert_eq!((s.x, s.y), (2, 3));
    let d = a.sub(b);
    assert_eq!((d.x, d.y), (4, -7));
}

#[test]
fn decay_tick_clamps_needs_and_kills_at_the_floor() {
    let mut h = Human::new(0, 0);
    h.simulation_step_time();
    assert_eq!(h.hunger.value, 99);
    assert_eq!(h.thirst.value, 99);
    assert_eq!(h.energy.value, 99);
    assert_eq!(h.money.value, 0);
    assert_eq!(h.age, 1);
    assert!(h.alive);

    let mut t = Human::new(0, 0);
    t.thirst.value = 1;
    t.simulation_step_time();
    assert_eq!(t.thirst.value, 0);
    assert!(!t.alive);

    let mut g = Human::new(0, 0);
    g.hunger.value = 1;
    g.simulation_step_time();
    assert_eq!(g.hunger.value, 0);
    assert!(!g.alive);
}

#[test]
fn needs_stay_in_their_bounds_through_many_ticks() {
    let mut h = Human::new(0, 0);
    for _ in 0..300 {
        h.simulation_step_time();
        for n in [h.hunger, h.thirst, h.energy, h.money] {
            assert!(n.min_value <= n.value && n.value <= n.max_value);
        }
    }
    assert!(!h.alive);
}

#[test]
fn reset_restores_needs_and_spawns_inside_bounds() {
    let mut w = World::new(6, 9, 1);
    w.add_forest(Position { x: 0, y: 0 }, Position { x: 1, y: 1 });
    w.add_lake(Position { x: 5, y: 8 }, Position { x: 6, y: 9 });
    let mut rng = StdRng::seed_from_u64(42);
    let mut h = Human::new(0, 0);
    for _ in 0..50 {
        h.simulation_step_time();
        h.simulation_step_time();
        let s = h.reset(&w.environment, &mut rng);
        assert!(h.alive);
        assert_eq!(h.age, 0);
        assert_eq!(h.hunger.value, 100);
        assert_eq!(h.thirst.value, 100);
        assert_eq!(h.energy.value, 100);
        assert_eq!(h.money.value, 0);
        assert!(0 <= h.position.x && h.position.x < 6);
        assert!(0 <= h.position.y && h.position.y < 9);
        assert!(s.key < brains::encoder::nb_states(&w.environment));
    }
}
