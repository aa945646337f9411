use brains::actions::{Drink, REWARD_EFFECT};
use brains::encoder::{encode, nb_states, State};
use brains::humans::Human;
use brains::policy::Policy;
use brains::sim::World;
use brains::types::Position;
use brains::world::Element;

use rand::rngs::StdRng;
use rand::SeedableRng;

#[test]
fn the_largest_grid_still_pairs_encode_with_nb_states() {
    let mut w = World::new(1024, 1024, 1);
    w.add_forest(Position { x: 0, y: 0 }, Position { x: 2, y: 2 });
    w.add_lake(Position { x: 1022, y: 1022 }, Position { x: 1024, y: 1024 });
    let n = nb_states(&w.environment);
    assert_eq!(n, 1024 * 1024 * 768);
    let corner = Human::new(1023, 1023);
    let s = encode(&corner, &w.environment);
    assert!(s.key < n);
    assert_eq!(w.environment.get_element(1023, 1023), Element::Water(1000));
    assert_eq!(w.environment.get_element(512, 512), Element::Empty);
}

#[test]
fn a_one_cell_world_works_end_to_end() {
    let mut w = World::new(1, 1, 1);
    w.add_forest(Position { x: 0, y: 0 }, Position { x: 1, y: 1 });
    w.add_lake(Position { x: 0, y: 0 }, Position { x: 1, y: 1 });
    assert_eq!(nb_states(&w.environment), 768);
    let mut h = Human::new(0, 0);
    h.thirst.value = 70;
    let s = encode(&h, &w.environment);
    assert!(s.key < 768);
    assert_eq!(Drink::execute(&mut h, &w.environment, 30), REWARD_EFFECT);
    assert_eq!(h.thirst.value, 100);
}

#[test]
fn set_value_and_get_value_round_trip() {
    let mut p = Policy::new();
    let mut rng = StdRng::seed_from_u64(17);
    p.init(5, 7, &mut rng);
    let s = State { key: 4 };
    p.set_value(&s, 6, -987654321);
    assert_eq!(p.get_value(&s, 6), -987654321);
    p.set_value(&s, 6, 31);
    assert_eq!(p.get_value(&s, 6), 31);
}
