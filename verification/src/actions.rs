//! The three primitive actions (move, drink, eat) and their shaped rewards.
//!
//! Reward bands, from best to worst: actually satisfying a need
//! (`REWARD_EFFECT`), landing on a resource matching the most urgent need
//! (`REWARD_LANDED`), moving toward the nearest relevant landmark while a
//! need is urgent (`REWARD_DIRECTED`), a neutral move (`REWARD_NEUTRAL`),
//! and misusing an action or bumping a wall (`REWARD_MISUSE`,
//! `REWARD_WALL`).

use vstd::prelude::*;

use crate::humans::{Human, Need};
use crate::types::Position;
use crate::world::{closest_of, Element, Environment};

verus! {

/// Reward for a drink/eat that actually raises the need.
pub const REWARD_EFFECT: i64 = 1000;

/// Reward for a move landing on a resource matching the most urgent need.
pub const REWARD_LANDED: i64 = 800;

/// Reward for a move that heads toward the nearest relevant landmark.
pub const REWARD_DIRECTED: i64 = 500;

/// Reward for a move with nothing to note.
pub const REWARD_NEUTRAL: i64 = 0;

/// Penalty for drinking off water or eating off a tree.
pub const REWARD_MISUSE: i64 = -10;

/// Penalty for a move that had to be clamped at the world edge.
pub const REWARD_WALL: i64 = -10;

/// A need is urgent below this value; it also bounds the urgency priority:
/// thirst is checked before hunger.
pub const URGENCY_THRESHOLD: i32 = 80;

/// `n` raised by `amount`, clamped at its ceiling.
pub open spec fn need_raised(n: Need, amount: int) -> Need {
    Need {
        value: if n.value + amount > n.max_value {
            n.max_value
        } else {
            (n.value + amount) as i32
        },
        ..n
    }
}

/// The agent and reward after drinking `amount` in `env`: on a water cell
/// thirst rises (clamped) for the effective reward; anywhere else nothing
/// changes and the misuse penalty is returned.
pub open spec fn drink_spec(h: Human, env: Environment, amount: int) -> (Human, int) {
    if env.cell(h.position.x as int, h.position.y as int).is_water() {
        (Human { thirst: need_raised(h.thirst, amount), ..h }, REWARD_EFFECT as int)
    } else {
        (h, REWARD_MISUSE as int)
    }
}

/// The agent and reward after eating `amount` in `env`: symmetric to
/// `drink_spec`, keyed on tree cells and hunger.
pub open spec fn eat_spec(h: Human, env: Environment, amount: int) -> (Human, int) {
    if env.cell(h.position.x as int, h.position.y as int).is_tree() {
        (Human { hunger: need_raised(h.hunger, amount), ..h }, REWARD_EFFECT as int)
    } else {
        (h, REWARD_MISUSE as int)
    }
}

/// Whether `p + delta` leaves the grid of `env`.
pub open spec fn move_leaves_grid(env: Environment, p: Position, delta: Position) -> bool {
    !(0 <= p.x + delta.x < env.height() && 0 <= p.y + delta.y < env.width())
}

/// `p + delta`, clamped per axis into the grid of `env`.
pub open spec fn move_dest(env: Environment, p: Position, delta: Position) -> Position {
    Position {
        x: crate::world::clamp_to(p.x + delta.x, env.height() - 1) as i32,
        y: crate::world::clamp_to(p.y + delta.y, env.width() - 1) as i32,
    }
}

/// Sign-agreement test: the step `delta` points toward `lm` as seen from
/// `p` along at least one axis.
pub open spec fn approaches(lm: Position, p: Position, delta: Position) -> bool {
    ||| (lm.x - p.x) * delta.x > 0
    ||| (lm.y - p.y) * delta.y > 0
}

/// The reward of moving by `delta`: the wall penalty if the step had to be
/// clamped; else, with thirst urgent, the landing bonus on water or the
/// directed/neutral reward relative to the nearest lake; else the same for
/// hunger and forests; else neutral.
pub open spec fn move_reward(h: Human, env: Environment, delta: Position) -> int {
    let dest = move_dest(env, h.position, delta);
    if move_leaves_grid(env, h.position, delta) {
        REWARD_WALL as int
    } else if h.thirst.value < URGENCY_THRESHOLD {
        if env.cell(dest.x as int, dest.y as int).is_water() {
            REWARD_LANDED as int
        } else if approaches(closest_of(env.lakes@, dest), dest, delta) {
            REWARD_DIRECTED as int
        } else {
            REWARD_NEUTRAL as int
        }
    } else if h.hunger.value < URGENCY_THRESHOLD {
        if env.cell(dest.x as int, dest.y as int).is_tree() {
            REWARD_LANDED as int
        } else if approaches(closest_of(env.forests@, dest), dest, delta) {
            REWARD_DIRECTED as int
        } else {
            REWARD_NEUTRAL as int
        }
    } else {
        REWARD_NEUTRAL as int
    }
}

/// The agent and reward after moving by `delta`.
pub open spec fn move_spec(h: Human, env: Environment, delta: Position) -> (Human, int) {
    (Human { position: move_dest(env, h.position, delta), ..h }, move_reward(h, env, delta))
}

/// How much one drink raises thirst.
pub const DRINK_AMOUNT: i32 = 30;

/// How much one meal raises hunger.
pub const EAT_AMOUNT: i32 = 30;

/// The agent and reward after the action with index `action`: the four unit
/// moves, drink, eat; any other index is a no-op with no reward.
pub open spec fn apply_action_spec(h: Human, env: Environment, action: int) -> (Human, int) {
    if action == 0 {
        move_spec(h, env, Position { x: 1, y: 0 })
    } else if action == 1 {
        move_spec(h, env, Position { x: -1i32, y: 0 })
    } else if action == 2 {
        move_spec(h, env, Position { x: 0, y: 1 })
    } else if action == 3 {
        move_spec(h, env, Position { x: 0, y: -1i32 })
    } else if action == 4 {
        drink_spec(h, env, DRINK_AMOUNT as int)
    } else if action == 5 {
        eat_spec(h, env, EAT_AMOUNT as int)
    } else {
        (h, 0)
    }
}

/// Every action reward lies between the misuse penalty and the effective
/// reward.
pub proof fn apply_action_is_bounded(h: Human, env: Environment, action: int)
    ensures
        REWARD_MISUSE as int <= apply_action_spec(h, env, action).1 <= REWARD_EFFECT as int,
{
}

/// The reward bands keep their required ordering: effective need
/// satisfaction beats a directed approach, which beats a neutral move,
/// which beats misuse, which is no better than a wall bump.
pub proof fn lemma_reward_ordering()
    ensures
        REWARD_EFFECT > REWARD_LANDED > REWARD_DIRECTED > REWARD_NEUTRAL > REWARD_MISUSE,
        REWARD_MISUSE >= REWARD_WALL,
{
}

/// No action drives a need out of its bounds: one decay tick, the indexed
/// actions, and each primitive action (for any nonnegative amount and any
/// step) all preserve well-formedness of the agent's needs.
pub proof fn lemma_needs_stay_in_bounds(
    h: Human,
    env: Environment,
    action: int,
    amount: int,
    delta: Position,
)
    requires
        h.wf(),
        0 <= amount,
    ensures
        crate::humans::decayed(h).wf(),
        apply_action_spec(h, env, action).0.wf(),
        drink_spec(h, env, amount).0.wf(),
        eat_spec(h, env, amount).0.wf(),
        move_spec(h, env, delta).0.wf(),
{
}

/// Whether one step of `step` starting this far (`diff`) from a landmark
/// axis heads toward it: the signs agree and neither factor is zero.
fn toward(diff: i32, step: i32) -> (b: bool)
    requires
        -2048 <= diff <= 2048,
        -1000000 <= step <= 1000000,
    ensures
        b == (diff * step > 0),
{
    proof {
        assert((diff as int) * (step as int) <= 2048 * 1000000 && (diff as int) * (step as int)
            >= -2048 * 1000000) by (nonlinear_arith)
            requires
                -2048 <= diff as int <= 2048,
                -1000000 <= step as int <= 1000000,
        ;
    }
    let p: i64 = (diff as i64) * (step as i64);
    p > 0
}

/// Drinking from the cell the agent stands on.
pub struct Drink;

/// Eating from the cell the agent stands on.
pub struct Eat;

/// Moving by a relative offset, clamped at the world edge.
pub struct Move;

impl Drink {
    /// Raises thirst by `amount` (clamped) when standing on water; a misuse
    /// penalty and no change anywhere else.
    pub fn execute(human: &mut Human, env: &Environment, amount: i32) -> (r: i64)
        requires
            env.wf(),
            old(human).wf(),
            old(human).in_bounds(*env),
            amount >= 0,
        ensures
            *final(human) == drink_spec(*old(human), *env, amount as int).0,
            r == drink_spec(*old(human), *env, amount as int).1,
            final(human).wf(),
            final(human).in_bounds(*env),
    {
        match env.get_element(human.position.x as usize, human.position.y as usize) {
            Element::Water(_) => {
                let room = human.thirst.max_value - human.thirst.value;
                if amount >= room {
                    human.thirst.value = human.thirst.max_value;
                } else {
                    human.thirst.value = human.thirst.value + amount;
                }
                REWARD_EFFECT
            },
            _ => REWARD_MISUSE,
        }
    }
}

impl Eat {
    /// Raises hunger by `amount` (clamped) when standing on a tree; a misuse
    /// penalty and no change anywhere else.
    pub fn execute(human: &mut Human, env: &Environment, amount: i32) -> (r: i64)
        requires
            env.wf(),
            old(human).wf(),
            old(human).in_bounds(*env),
            amount >= 0,
        ensures
            *final(human) == eat_spec(*old(human), *env, amount as int).0,
            r == eat_spec(*old(human), *env, amount as int).1,
            final(human).wf(),
            final(human).in_bounds(*env),
    {
        match env.get_element(human.position.x as usize, human.position.y as usize) {
            Element::Tree(_) => {
                let room = human.hunger.max_value - human.hunger.value;
                if amount >= room {
                    human.hunger.value = human.hunger.max_value;
                } else {
                    human.hunger.value = human.hunger.value + amount;
                }
                REWARD_EFFECT
            },
            _ => REWARD_MISUSE,
        }
    }
}

impl Move {
    /// Moves the agent by `delta`, clamped at the world edge, and returns
    /// the shaped reward of `move_reward`.
    pub fn execute(human: &mut Human, env: &Environment, delta: Position) -> (r: i64)
        requires
            env.wf(),
            env.has_landmarks(),
            old(human).wf(),
            old(human).in_bounds(*env),
            -1000000 <= delta.x <= 1000000,
            -1000000 <= delta.y <= 1000000,
        ensures
            *final(human) == move_spec(*old(human), *env, delta).0,
            r == move_spec(*old(human), *env, delta).1,
            final(human).wf(),
            final(human).in_bounds(*env),
    {
        let height = env.world_limits.0;
        let width = env.world_limits.1;
        let nx = human.position.x + delta.x;
        let ny = human.position.y + delta.y;
        let out = nx < 0 || nx >= height as i32 || ny < 0 || ny >= width as i32;
        human.position.x = if nx < 0 {
            0
        } else if nx >= height as i32 {
            height as i32 - 1
        } else {
            nx
        };
        human.position.y = if ny < 0 {
            0
        } else if ny >= width as i32 {
            width as i32 - 1
        } else {
            ny
        };
        if out {
            return REWARD_WALL;
        }
        if human.thirst.value < URGENCY_THRESHOLD {
            match env.get_element(human.position.x as usize, human.position.y as usize) {
                Element::Water(_) => {
                    return REWARD_LANDED;
                },
                _ => {},
            }
            let lake = env.closest_lake(&human.position);
            if toward(lake.x - human.position.x, delta.x) || toward(
                lake.y - human.position.y,
                delta.y,
            ) {
                return REWARD_DIRECTED;
            }
            return REWARD_NEUTRAL;
        }
        if human.hunger.value < URGENCY_THRESHOLD {
            match env.get_element(human.position.x as usize, human.position.y as usize) {
                Element::Tree(_) => {
                    return REWARD_LANDED;
                },
                _ => {},
            }
            let forest = env.closest_forest(&human.position);
            if toward(forest.x - human.position.x, delta.x) || toward(
                forest.y - human.position.y,
                delta.y,
            ) {
                return REWARD_DIRECTED;
            }
            return REWARD_NEUTRAL;
        }
        REWARD_NEUTRAL
    }
}

} // verus!
