//! The state encoder: a fixed mixed-radix encoding of an agent's situation
//! into one dense integer key, together with the exact number of states it
//! can produce.
//!
//! `encode` and `nb_states` are defined from the same radix table; the key
//! is proved to stay below the declared state count for every well-formed
//! agent and environment.

use vstd::prelude::*;

use crate::humans::Human;
use crate::types::{abs, Position};
use crate::world::{closest_of, Element, Environment};

verus! {

/// Buckets for a quantized need level.
pub const NEED_BUCKETS: usize = 4;

/// Buckets for the dominant-axis-and-sign direction to a landmark.
pub const DIRECTION_BUCKETS: usize = 4;

/// Buckets for the kind of cell occupied (water / tree / other).
pub const ELEMENT_BUCKETS: usize = 3;

/// A dense state key: a row index into the value table.
#[derive(Clone, Copy, PartialEq, Eq, Structural, Debug)]
pub struct State {
    pub key: usize,
}

/// The quantized bucket of a need level: 0 above 80, down to 3 at 20 and
/// below.
pub open spec fn need_bucket(v: int) -> int {
    if v > 80 {
        0
    } else if v > 50 {
        1
    } else if v > 20 {
        2
    } else {
        3
    }
}

/// The dominant-axis-and-sign direction from `p` to `lm`: 0/1 for the x
/// axis (toward positive/negative), 2/3 for the y axis.
pub open spec fn direction_bucket(lm: Position, p: Position) -> int {
    let dx = lm.x - p.x;
    let dy = lm.y - p.y;
    if abs(dx) > abs(dy) {
        if dx >= 0 {
            0
        } else {
            1
        }
    } else {
        if dy >= 0 {
            2
        } else {
            3
        }
    }
}

/// The bucket of the cell kind occupied: water 0, tree 1, anything else 2.
pub open spec fn element_bucket(e: Element) -> int {
    if e.is_water() {
        0
    } else if e.is_tree() {
        1
    } else {
        2
    }
}

/// The exact number of distinct keys `encode_spec` can produce on `env`.
pub open spec fn nb_states_spec(env: Environment) -> int {
    env.height() * env.width() * (NEED_BUCKETS * NEED_BUCKETS * DIRECTION_BUCKETS
        * DIRECTION_BUCKETS * ELEMENT_BUCKETS) as int
}

/// The mixed-radix state key of `h` in `env`: position, thirst and hunger
/// buckets, directions to the nearest lake and forest, and the cell kind
/// occupied.
pub open spec fn encode_spec(h: Human, env: Environment) -> int {
    let p = h.position;
    let pos_index = p.x * env.width() + p.y;
    let thirst_state = need_bucket(h.thirst.value as int);
    let hunger_state = need_bucket(h.hunger.value as int);
    let lake_state = direction_bucket(closest_of(env.lakes@, p), p);
    let forest_state = direction_bucket(closest_of(env.forests@, p), p);
    let element_state = element_bucket(env.cell(p.x as int, p.y as int));
    ((((pos_index * 4 + thirst_state) * 4 + hunger_state) * 4 + lake_state) * 4 + forest_state) * 3
        + element_state
}

/// The key of every well-formed situation lies below the declared state
/// count.
pub proof fn lemma_encode_in_range(h: Human, env: Environment)
    requires
        env.wf(),
        env.has_landmarks(),
        h.in_bounds(env),
    ensures
        0 <= encode_spec(h, env) < nb_states_spec(env),
{
    let p = h.position;
    let pos_index = p.x * env.width() + p.y;
    assert(0 <= p.x * env.width() <= (env.height() - 1) * env.width()) by (nonlinear_arith)
        requires
            0 <= p.x <= env.height() - 1,
            0 < env.width(),
    ;
    assert(0 <= pos_index < env.height() * env.width()) by (nonlinear_arith)
        requires
            0 <= p.x * env.width() <= (env.height() - 1) * env.width(),
            0 <= p.y < env.width(),
            pos_index == p.x * env.width() + p.y,
    ;
    assert((NEED_BUCKETS * NEED_BUCKETS * DIRECTION_BUCKETS * DIRECTION_BUCKETS * ELEMENT_BUCKETS)
        as int == 768);
    assert(pos_index * 768 + 767 < env.height() * env.width() * 768) by (nonlinear_arith)
        requires
            0 <= pos_index < env.height() * env.width(),
    ;
}

/// The exact product of all bucket cardinalities and the grid cell count:
/// the height of the value table that pairs with `encode`.
pub fn nb_states(env: &Environment) -> (n: usize)
    requires
        env.wf(),
    ensures
        n == nb_states_spec(*env),
        0 < n <= 0x30000000,
{
    let height = env.world_limits.0;
    let width = env.world_limits.1;
    proof {
        assert(height * width <= 1024 * 1024) by (nonlinear_arith)
            requires
                0 < height as int <= 1024,
                0 < width as int <= 1024,
        ;
        assert(0 < height * width) by (nonlinear_arith)
            requires
                0 < height as int,
                0 < width as int,
        ;
        assert((NEED_BUCKETS * NEED_BUCKETS * DIRECTION_BUCKETS * DIRECTION_BUCKETS
            * ELEMENT_BUCKETS) as int == 768);
    }
    let cells = height * width;
    let buckets = NEED_BUCKETS * NEED_BUCKETS * DIRECTION_BUCKETS * DIRECTION_BUCKETS
        * ELEMENT_BUCKETS;
    proof {
        assert(cells * (buckets as int) == cells * 768);
    }
    cells * buckets
}

/// The dominant-axis-and-sign direction from `p` to `lm`, as a bucket index.
fn direction_state(lm: Position, p: Position) -> (d: usize)
    requires
        -2048 < lm.x - p.x < 2048,
        -2048 < lm.y - p.y < 2048,
    ensures
        d == direction_bucket(lm, p),
{
    let dx = lm.x - p.x;
    let dy = lm.y - p.y;
    let ax = if dx >= 0 {
        dx
    } else {
        -dx
    };
    let ay = if dy >= 0 {
        dy
    } else {
        -dy
    };
    if ax > ay {
        if dx >= 0 {
            0
        } else {
            1
        }
    } else {
        if dy >= 0 {
            2
        } else {
            3
        }
    }
}

/// Encodes the agent's situation into its dense state key, always below
/// `nb_states`.
pub fn encode(h: &Human, env: &Environment) -> (s: State)
    requires
        env.wf(),
        env.has_landmarks(),
        h.in_bounds(*env),
    ensures
        s.key == encode_spec(*h, *env),
        s.key < nb_states_spec(*env),
{
    proof {
        lemma_encode_in_range(*h, *env);
    }
    let p = h.position;
    let width = env.world_limits.1;
    proof {
        assert(0 <= (p.x as int) * (width as int) <= 1023 * 1024) by (nonlinear_arith)
            requires
                0 <= p.x as int <= 1023,
                0 < width as int <= 1024,
        ;
    }
    let pos_index = (p.x as usize) * width + (p.y as usize);
    let thirst_state: usize = if h.thirst.value > 80 {
        0
    } else if h.thirst.value > 50 {
        1
    } else if h.thirst.value > 20 {
        2
    } else {
        3
    };
    let hunger_state: usize = if h.hunger.value > 80 {
        0
    } else if h.hunger.value > 50 {
        1
    } else if h.hunger.value > 20 {
        2
    } else {
        3
    };
    let lake = env.closest_lake(&p);
    let lake_state: usize = direction_state(lake, p);
    let forest = env.closest_forest(&p);
    let forest_state: usize = direction_state(forest, p);
    let element_state: usize = match env.get_element(p.x as usize, p.y as usize) {
        Element::Water(_) => 0,
        Element::Tree(_) => 1,
        _ => 2,
    };
    let key = ((((pos_index * 4 + thirst_state) * 4 + hunger_state) * 4 + lake_state) * 4
        + forest_state) * 3 + element_state;
    State { key }
}

} // verus!
