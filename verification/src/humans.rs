//! Agent state: survival counters, the per-tick decay routine, and the
//! state-based reward used by the learner.
//!
//! The reward scheme is deliberately simple and consistent: a large fixed
//! penalty on death, a fixed bonus once the episode horizon is outlived, and
//! otherwise a banded reward for keeping hunger and thirst high plus a small
//! bonus for standing on a resource cell.

use vstd::prelude::*;

use crate::types::Position;
use crate::world::{in_grid, Environment};

verus! {

/// Number of ticks after which an episode is considered survived.
pub const HORIZON: u32 = 10000;

/// State reward when the agent is dead.
pub const DEATH_PENALTY: i64 = -1000;

/// State reward once the agent has outlived the horizon.
pub const SURVIVAL_BONUS: i64 = 100;

/// A bounded survival counter. The value always stays within
/// `[min_value, max_value]`.
#[derive(Clone, Copy, PartialEq, Eq, Structural, Debug)]
pub struct Need {
    pub value: i32,
    pub min_value: i32,
    pub max_value: i32,
}

impl Need {
    pub open spec fn wf(self) -> bool {
        self.min_value <= self.value <= self.max_value
    }
}

/// A hunger/thirst/energy need starting full.
pub open spec fn full_need() -> Need {
    Need { value: 100, min_value: 0, max_value: 100 }
}

/// The money counter, starting empty and effectively unbounded above.
pub open spec fn empty_money() -> Need {
    Need { value: 0, min_value: 0, max_value: i32::MAX }
}

/// A simulated inhabitant of the grid. It holds no handle to the shared
/// environment or policy: the simulation driver owns those and passes them
/// to every operation explicitly.
#[derive(Clone, Copy, PartialEq, Eq, Structural, Debug)]
pub struct Human {
    pub position: Position,
    pub age: u32,
    pub hunger: Need,
    pub thirst: Need,
    pub energy: Need,
    pub money: Need,
    pub alive: bool,
}

/// A freshly spawned agent at `p`: alive, age zero, full needs, no money.
pub open spec fn fresh_human(p: Position) -> Human {
    Human {
        position: p,
        age: 0,
        hunger: full_need(),
        thirst: full_need(),
        energy: full_need(),
        money: empty_money(),
        alive: true,
    }
}

/// `n` after one decay tick: down one, clamped at the floor.
pub open spec fn need_decayed(n: Need) -> Need {
    Need {
        value: if n.value > n.min_value {
            (n.value - 1) as i32
        } else {
            n.min_value
        },
        ..n
    }
}

/// `h` after one simulation tick: every need decays by one (clamped at its
/// floor), the agent dies if hunger or thirst hits its floor, and age
/// advances.
pub open spec fn decayed(h: Human) -> Human {
    Human {
        position: h.position,
        age: (h.age + 1) as u32,
        hunger: need_decayed(h.hunger),
        thirst: need_decayed(h.thirst),
        energy: need_decayed(h.energy),
        money: need_decayed(h.money),
        alive: h.alive && need_decayed(h.hunger).value != h.hunger.min_value && need_decayed(
            h.thirst,
        ).value != h.thirst.min_value,
    }
}

/// The banded reward for one need level: generous above 80, neutral above
/// 50, and increasingly painful below.
pub open spec fn need_band(v: int) -> int {
    if v > 80 {
        1
    } else if v > 50 {
        0
    } else if v > 20 {
        -30
    } else {
        -100
    }
}

/// One extra point for standing on a resource cell (water or tree).
pub open spec fn resource_bonus(env: Environment, p: Position) -> int {
    if env.cell(p.x as int, p.y as int).is_water() || env.cell(p.x as int, p.y as int).is_tree() {
        1
    } else {
        0
    }
}

/// The state-based reward of `h` in `env`: the death penalty when dead, the
/// survival bonus past the horizon, else the need bands plus the resource
/// bonus.
pub open spec fn state_reward(h: Human, env: Environment) -> int {
    if !h.alive {
        DEATH_PENALTY as int
    } else if h.age > HORIZON {
        SURVIVAL_BONUS as int
    } else {
        need_band(h.hunger.value as int) + need_band(h.thirst.value as int) + resource_bonus(
            env,
            h.position,
        )
    }
}

impl Human {
    /// Each need carries the fixed bounds of the survival economy and stays
    /// within them.
    pub open spec fn wf(self) -> bool {
        &&& self.hunger.min_value == 0 && self.hunger.max_value == 100
        &&& self.thirst.min_value == 0 && self.thirst.max_value == 100
        &&& self.energy.min_value == 0 && self.energy.max_value == 100
        &&& self.money.min_value == 0 && self.money.max_value == i32::MAX
        &&& self.hunger.wf() && self.thirst.wf() && self.energy.wf() && self.money.wf()
    }

    /// Whether the agent stands inside the grid of `env`.
    pub open spec fn in_bounds(self, env: Environment) -> bool {
        in_grid(env, self.position)
    }

    /// Spawns a fresh agent at `(x, y)`.
    pub fn new(x: i32, y: i32) -> (h: Human)
        ensures
            h == fresh_human(Position { x, y }),
            h.wf(),
    {
        Human {
            position: Position { x, y },
            age: 0,
            hunger: Need { value: 100, min_value: 0, max_value: 100 },
            thirst: Need { value: 100, min_value: 0, max_value: 100 },
            energy: Need { value: 100, min_value: 0, max_value: 100 },
            money: Need { value: 0, min_value: 0, max_value: i32::MAX },
            alive: true,
        }
    }

    /// One simulation tick: needs decay (clamped at their floors), hunger or
    /// thirst hitting the floor kills the agent, and age advances.
    pub fn simulation_step_time(&mut self)
        requires
            old(self).wf(),
            old(self).age < u32::MAX,
        ensures
            *final(self) == decayed(*old(self)),
            final(self).wf(),
    {
        self.hunger.value = if self.hunger.value > self.hunger.min_value {
            self.hunger.value - 1
        } else {
            self.hunger.min_value
        };
        if self.hunger.value == self.hunger.min_value {
            self.alive = false;
        }
        self.thirst.value = if self.thirst.value > self.thirst.min_value {
            self.thirst.value - 1
        } else {
            self.thirst.min_value
        };
        if self.thirst.value == self.thirst.min_value {
            self.alive = false;
        }
        self.energy.value = if self.energy.value > self.energy.min_value {
            self.energy.value - 1
        } else {
            self.energy.min_value
        };
        self.money.value = if self.money.value > self.money.min_value {
            self.money.value - 1
        } else {
            self.money.min_value
        };
        self.age = self.age + 1;
    }

    /// The state-based reward of the agent's current situation.
    pub fn compute_reward(&self, env: &Environment) -> (r: i64)
        requires
            env.wf(),
            self.in_bounds(*env),
        ensures
            r == state_reward(*self, *env),
            DEATH_PENALTY as int <= r <= SURVIVAL_BONUS as int,
    {
        if !self.alive {
            return DEATH_PENALTY;
        }
        if self.age > HORIZON {
            return SURVIVAL_BONUS;
        }
        let hunger_reward: i64 = if self.hunger.value > 80 {
            1
        } else if self.hunger.value > 50 {
            0
        } else if self.hunger.value > 20 {
            -30
        } else {
            -100
        };
        let thirst_reward: i64 = if self.thirst.value > 80 {
            1
        } else if self.thirst.value > 50 {
            0
        } else if self.thirst.value > 20 {
            -30
        } else {
            -100
        };
        let resource_reward: i64 = match env.get_element(
            self.position.x as usize,
            self.position.y as usize,
        ) {
            crate::world::Element::Water(_) => 1,
            crate::world::Element::Tree(_) => 1,
            _ => 0,
        };
        hunger_reward + thirst_reward + resource_reward
    }
}

} // verus!
