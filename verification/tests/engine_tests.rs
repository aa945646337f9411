use brains::actions::{
    Drink, Eat, Move, REWARD_DIRECTED, REWARD_EFFECT, REWARD_LANDED, REWARD_MISUSE,
    REWARD_NEUTRAL, REWARD_WALL,
};
use brains::behaviour::QLBehaviour;
use brains::humans::Human;
use brains::sim::World;
use brains::types::Position;

use rand::rngs::StdRng;
use rand::SeedableRng;

#[test]
fn drink_on_the_lake_raises_thirst_and_pays_the_effective_band() {
    // A 10x10 grid with one lake at rows 0-2, cols 0-2 and no forest.
    let mut w = World::new(10, 10, 1);
    w.add_lake(Position { x: 0, y: 0 }, Position { x: 3, y: 3 });
    let mut h = Human::new(1, 1);
    h.thirst.value = 10;
    let r = Drink::execute(&mut h, &w.environment, 30);
    assert_eq!(h.thirst.value, 40);
    assert_eq!(r, REWARD_EFFECT);
    // A second, oversized drink clamps at the ceiling.
    let r2 = Drink::execute(&mut h, &w.environment, 100);
    assert_eq!(h.thirst.value, 100);
    assert_eq!(r2, REWARD_EFFECT);
}

#[test]
fn drink_off_the_lake_changes_nothing_and_pays_the_penalty() {
    let mut w = World::new(10, 10, 1);
    w.add_lake(Position { x: 0, y: 0 }, Position { x: 3, y: 3 });
    // One cell away from the lake (row 3 is outside the filled rectangle).
    let mut h = Human::new(3, 1);
    h.thirst.value = 10;
    let r = Drink::execute(&mut h, &w.environment, 30);
    assert_eq!(h.thirst.value, 10);
    assert_eq!(r, REWARD_MISUSE);
}

#[test]
fn eat_is_symmetric_on_trees_and_hunger() {
    let mut w = World::new(8, 8, 1);
    w.add_forest(Position { x: 5, y: 5 }, Position { x: 8, y: 8 });
    let mut h = Human::new(6, 6);
    h.hunger.value = 50;
    assert_eq!(Eat::execute(&mut h, &w.environment, 30), REWARD_EFFECT);
    assert_eq!(h.hunger.value, 80);
    let mut far = Human::new(0, 0);
    far.hunger.value = 50;
    assert_eq!(Eat::execute(&mut far, &w.environment, 30), REWARD_MISUSE);
    assert_eq!(far.hunger.value, 50);
}

#[test]
fn move_rewards_follow_the_shaping_bands() {
    let mut w = World::new(10, 10, 1);
    w.add_lake(Position { x: 0, y: 0 }, Position { x: 2, y: 2 });
    w.add_forest(Position { x: 8, y: 8 }, Position { x: 10, y: 10 });

    // Bumping the wall clamps and pays the wall penalty.
    let mut h = Human::new(0, 5);
    let r = Move::execute(&mut h, &w.environment, Position { x: -1, y: 0 });
    assert_eq!((h.position.x, h.position.y), (0, 5));
    assert_eq!(r, REWARD_WALL);

    // Thirsty and landing on water: the landing bonus.
    let mut t = Human::new(2, 1);
    t.thirst.value = 50;
    let r = Move::execute(&mut t, &w.environment, Position { x: -1, y: 0 });
    assert_eq!((t.position.x, t.position.y), (1, 1));
    assert_eq!(r, REWARD_LANDED);

    // Thirsty and stepping toward the lake: the directed reward.
    let mut d = Human::new(6, 1);
    d.thirst.value = 50;
    let r = Move::execute(&mut d, &w.environment, Position { x: -1, y: 0 });
    assert_eq!((d.position.x, d.position.y), (5, 1));
    assert_eq!(r, REWARD_DIRECTED);

    // Thirsty and stepping away from it: neutral.
    let mut n = Human::new(6, 1);
    n.thirst.value = 50;
    let r = Move::execute(&mut n, &w.environment, Position { x: 1, y: 0 });
    assert_eq!((n.position.x, n.position.y), (7, 1));
    assert_eq!(r, REWARD_NEUTRAL);

    // Sated on both counts: neutral.
    let mut s = Human::new(5, 5);
    let r = Move::execute(&mut s, &w.environment, Position { x: 1, y: 0 });
    assert_eq!(r, REWARD_NEUTRAL);

    // Only hunger urgent: the forest drives the shaping.
    let mut g = Human::new(5, 5);
    g.hunger.value = 50;
    let r = Move::execute(&mut g, &w.environment, Position { x: 1, y: 1 });
    assert_eq!(r, REWARD_DIRECTED);
}

#[test]
fn simulate_action_combines_action_reward_decay_and_termination() {
    let mut w = World::new(10, 10, 1);
    w.add_lake(Position { x: 0, y: 0 }, Position { x: 3, y: 3 });
    w.add_forest(Position { x: 8, y: 8 }, Position { x: 10, y: 10 });
    let mut h = Human::new(1, 1);
    h.thirst.value = 10;
    // Drink on the lake: +1000, then the decay tick; state reward is the
    // hunger band (99 -> 1) + thirst band (39 -> -30) + on-water bonus (1).
    let (s, r, done) = h.simulate_action(&w.environment, 4);
    assert_eq!(h.thirst.value, 39);
    assert_eq!(h.age, 1);
    assert_eq!(r, 1000 + 1 - 30 + 1);
    assert!(!done);
    assert!(s.key < brains::encoder::nb_states(&w.environment));

    // Dying on the step: the action reward plus the death penalty.
    let mut dying = Human::new(5, 5);
    dying.thirst.value = 1;
    let (_, r, done) = dying.simulate_action(&w.environment, 6);
    assert!(done);
    assert!(!dying.alive);
    assert_eq!(r, -1000);
}

#[test]
fn step_time_advances_only_the_living() {
    let mut w = World::new(6, 6, 1);
    w.add_lake(Position { x: 0, y: 0 }, Position { x: 2, y: 2 });
    w.add_forest(Position { x: 4, y: 4 }, Position { x: 6, y: 6 });
    let mut b = QLBehaviour::new();
    let mut trainer = Human::new(0, 0);
    let mut rng = StdRng::seed_from_u64(11);
    b.train(&mut trainer, &w.environment, &mut rng, 3, 200, 600, 800);

    w.add_human(Human::new(1, 1));
    let mut dead = Human::new(2, 2);
    dead.alive = false;
    w.add_human(dead);
    w.step_time(&b.policy);
    assert_eq!(w.humans.len(), 2);
    assert_eq!(w.humans[0].age, 1);
    assert_eq!(w.humans[1].age, 0);
    assert!(!w.humans[1].alive);
}

#[test]
fn greedy_step_applies_the_predicted_action() {
    let mut w = World::new(6, 6, 1);
    w.add_lake(Position { x: 0, y: 0 }, Position { x: 2, y: 2 });
    w.add_forest(Position { x: 4, y: 4 }, Position { x: 6, y: 6 });
    let mut b = QLBehaviour::new();
    let mut trainer = Human::new(0, 0);
    let mut rng = StdRng::seed_from_u64(12);
    b.train(&mut trainer, &w.environment, &mut rng, 3, 200, 600, 800);
    let mut h = Human::new(3, 3);
    let a = b.predict_action(&h, &w.environment);
    assert!(a < 7);
    b.step(&mut h, &w.environment);
    assert_eq!(h.age, 1);
}

#[test]
fn training_on_an_all_water_grid_beats_the_untrained_table() {
    // A trivial 2x2 grid that is entirely water: a forest region is placed
    // first (for its landmark) and then flooded by a lake over the whole
    // grid.
    let mut w = World::new(2, 2, 1);
    w.add_forest(Position { x: 0, y: 0 }, Position { x: 2, y: 2 });
    w.add_lake(Position { x: 0, y: 0 }, Position { x: 2, y: 2 });
    for x in 0..2usize {
        for y in 0..2usize {
            assert!(matches!(
                w.environment.get_element(x, y),
                brains::world::Element::Water(_)
            ));
        }
    }

    let mut agent = Human::new(0, 0);

    // The same init seed gives both tables identical random noise; the
    // second one then trains for 50 episodes.
    let mut untrained = QLBehaviour::new();
    let mut rng0 = StdRng::seed_from_u64(21);
    untrained.train(&mut agent, &w.environment, &mut rng0, 0, 200, 600, 800);
    let mut eval0 = StdRng::seed_from_u64(99);
    let s0 = untrained.evaluate(&mut agent, &w.environment, &mut eval0, 20);

    let mut trained = QLBehaviour::new();
    let mut rng1 = StdRng::seed_from_u64(21);
    trained.train(&mut agent, &w.environment, &mut rng1, 50, 200, 600, 800);
    let mut eval1 = StdRng::seed_from_u64(99);
    let s1 = trained.evaluate(&mut agent, &w.environment, &mut eval1, 20);

    assert_eq!(s0.episodes, 20);
    assert_eq!(s1.episodes, 20);
    assert!(s0.total_steps > 0 && s1.total_steps > 0);
    // Average per-step reward must strictly improve, compared exactly by
    // cross-multiplication.
    let lhs = (s1.total_reward as i128) * (s0.total_steps as i128);
    let rhs = (s0.total_reward as i128) * (s1.total_steps as i128);
    assert!(lhs > rhs, "untrained {s0:?} vs trained {s1:?}");
}
