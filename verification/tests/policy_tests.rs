use brains::encoder::{encode, nb_states, State};
use brains::humans::Human;
use brains::policy::Policy;
use brains::sim::World;
use brains::types::Position;

use rand::rngs::StdRng;
use rand::SeedableRng;

fn small_world() -> World {
    let mut w = World::new(4, 4, 1);
    w.add_forest(Position { x: 0, y: 0 }, Position { x: 1, y: 1 });
    w.add_lake(Position { x: 3, y: 3 }, Position { x: 4, y: 4 });
    w
}

#[test]
fn encode_produces_the_exact_mixed_radix_key() {
    let w = small_world();
    // Forest landmark (0,0), lake landmark (3,3). Agent at (1,2), needs full.
    let h = Human::new(1, 2);
    let s = encode(&h, &w.environment);
    // position index 1*4+2 = 6; thirst and hunger buckets 0; lake direction
    // (dx=2,dy=1, dominant positive x) 0; forest direction (dx=-1,dy=-2,
    // dominant negative y) 3; occupied cell empty 2.
    // ((((6*4+0)*4+0)*4+0)*4+3)*3+2 = 4619.
    assert_eq!(s.key, 4619);
}

#[test]
fn encode_stays_below_nb_states_for_every_cell_and_need_level() {
    let w = small_world();
    let n = nb_states(&w.environment);
    assert_eq!(n, 4 * 4 * 768);
    for x in 0..4 {
        for y in 0..4 {
            for v in [0, 10, 15, 25, 51, 80, 81, 100] {
                let mut h = Human::new(x, y);
                h.thirst.value = v;
                h.hunger.value = 100 - v;
                let s = encode(&h, &w.environment);
                assert!(s.key < n);
            }
        }
    }
}

#[test]
fn init_fills_the_declared_shape_with_small_noise() {
    let mut p = Policy::new();
    let mut rng = StdRng::seed_from_u64(3);
    p.init(11, 7, &mut rng);
    assert_eq!(p.qtable.len(), 11);
    for s in 0..11usize {
        assert_eq!(p.qtable[s].len(), 7);
        for a in 0..7usize {
            let v = p.get_value(&State { key: s }, a);
            assert!((-1000..=1000).contains(&v));
        }
    }
}

#[test]
fn predict_action_returns_the_first_index_of_the_row_maximum() {
    let mut p = Policy::new();
    let mut rng = StdRng::seed_from_u64(4);
    p.init(3, 7, &mut rng);
    let s = State { key: 1 };
    let row = [-3i64, 40, 12, 40, -100, 0, 39];
    for (a, v) in row.iter().enumerate() {
        p.set_value(&s, a, *v);
    }
    // Reference comparison against a naive max scan.
    let mut best = 0usize;
    for (a, v) in row.iter().enumerate() {
        if *v > row[best] {
            best = a;
        }
    }
    assert_eq!(p.predict_action(&s), best);
    assert_eq!(p.predict_action(&s), 1);

    let descending = [9i64, 8, 7, 6, 5, 4, 3];
    let s2 = State { key: 2 };
    for (a, v) in descending.iter().enumerate() {
        p.set_value(&s2, a, *v);
    }
    assert_eq!(p.predict_action(&s2), 0);
}

#[test]
fn update_with_zero_rate_changes_nothing() {
    let mut p = Policy::new();
    let mut rng = StdRng::seed_from_u64(5);
    p.init(3, 7, &mut rng);
    let s = State { key: 0 };
    let next = State { key: 2 };
    p.set_value(&s, 1, 7);
    p.update(&s, 1, 123, &next, 0, 500);
    assert_eq!(p.get_value(&s, 1), 7);
}

#[test]
fn update_with_full_rate_moves_exactly_to_the_target() {
    let mut p = Policy::new();
    let mut rng = StdRng::seed_from_u64(6);
    p.init(3, 7, &mut rng);
    let s = State { key: 0 };
    let next = State { key: 2 };
    let next_row = [-5i64, 10, 3, 0, 0, 0, 0];
    for (a, v) in next_row.iter().enumerate() {
        p.set_value(&next, a, *v);
    }
    p.set_value(&s, 1, 7);
    // Q[s][1] <- r + gamma*max = 123 + (500*10)/1000 = 128.
    p.update(&s, 1, 123, &next, 1000, 500);
    assert_eq!(p.get_value(&s, 1), 128);
}

#[test]
fn full_rate_update_truncates_the_discount_product_toward_zero() {
    let mut p = Policy::new();
    let mut rng = StdRng::seed_from_u64(7);
    p.init(3, 7, &mut rng);
    let s = State { key: 1 };
    let next = State { key: 0 };
    for a in 0..7usize {
        p.set_value(&next, a, -3 - a as i64);
    }
    // max of the next row is -3; 999*(-3)/1000 truncates to -2.
    p.update(&s, 0, -7, &next, 1000, 999);
    assert_eq!(p.get_value(&s, 0), -9);
}

#[test]
fn training_with_zero_rate_is_a_no_op_on_the_table() {
    let w = small_world();
    let n = nb_states(&w.environment);
    let mut p = Policy::new();
    let mut rng = StdRng::seed_from_u64(31);
    p.init(n, 7, &mut rng);
    let before: Vec<Vec<i64>> = (0..n)
        .map(|s| (0..7).map(|a| p.get_value(&State { key: s }, a)).collect())
        .collect();
    let mut agent = Human::new(0, 0);
    p.train(&mut agent, &w.environment, &mut rng, 3, 0, 600, 800);
    for s in 0..n {
        for a in 0..7usize {
            assert_eq!(p.get_value(&State { key: s }, a), before[s][a]);
        }
    }
}

#[test]
fn training_and_evaluation_leave_the_agent_terminal() {
    let w = small_world();
    let mut p = Policy::new();
    let mut rng = StdRng::seed_from_u64(32);
    p.init(nb_states(&w.environment), 7, &mut rng);
    let mut agent = Human::new(0, 0);
    p.train(&mut agent, &w.environment, &mut rng, 2, 200, 600, 800);
    assert!(!agent.alive || agent.age > 10000);
    let stats = p.evaluate(&mut agent, &w.environment, &mut rng, 5);
    assert!(!agent.alive || agent.age > 10000);
    assert_eq!(stats.episodes, 5);
    assert!(stats.total_steps >= 5);
    assert!(stats.total_steps <= 5 * 10001);
}

#[test]
fn update_touches_only_the_given_entry() {
    let mut p = Policy::new();
    let mut rng = StdRng::seed_from_u64(8);
    p.init(4, 7, &mut rng);
    let before: Vec<Vec<i64>> = (0..4)
        .map(|s| (0..7).map(|a| p.get_value(&State { key: s }, a)).collect())
        .collect();
    p.update(&State { key: 3 }, 2, 55, &State { key: 1 }, 200, 600);
    for s in 0..4usize {
        for a in 0..7usize {
            let v = p.get_value(&State { key: s }, a);
            if s == 3 && a == 2 {
                let max1 = (0..7).map(|x| before[1][x]).max().unwrap();
                let gm = {
                    let prod = 600 * max1;
                    if prod >= 0 { prod / 1000 } else { -((-prod) / 1000) }
                };
                let t = 800 * before[3][2] + 200 * (55 + gm);
                let expect = if t >= 0 { t / 1000 } else { -((-t) / 1000) };
                assert_eq!(v, expect);
            } else {
                assert_eq!(v, before[s][a]);
            }
        }
    }
}
