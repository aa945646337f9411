//! The agent/environment contract used by the learner: resetting an agent
//! to a fresh episode, dispatching an action index to the action set, and
//! the combined simulation step (action, decay tick, re-encoding, reward,
//! termination flag).

use vstd::prelude::*;

use crate::actions::{apply_action_is_bounded, apply_action_spec, Drink, Eat, Move, DRINK_AMOUNT, EAT_AMOUNT};
use crate::encoder::{encode, encode_spec, nb_states_spec, State};
use crate::humans::{decayed, empty_money, full_need, state_reward, Human, Need, HORIZON};
use crate::policy::{first_argmax, Policy};
use crate::rng::rng_below;
use crate::types::Position;
use crate::world::Environment;

verus! {

/// The number of action slots of the value table: four moves, drink, eat,
/// and one idle slot.
pub const NB_ACTIONS: usize = 7;

/// A step reward (action reward plus state reward) never leaves this band.
pub const REWARD_BOUND: i64 = 5000;

/// The agent after one greedy tick: the action the policy ranks highest for
/// the agent's encoded state is applied, then the decay tick runs.
pub open spec fn greedy_step_spec(h: Human, env: Environment, p: Policy) -> Human {
    let a = first_argmax(p.qtable@[encode_spec(h, env)]@);
    decayed(apply_action_spec(h, env, a).0)
}

impl Human {
    /// Starts a fresh episode: a uniformly random position inside the grid,
    /// age zero, full needs, no money, alive; returns the encoded state.
    pub fn reset(&mut self, env: &Environment, rng: &mut rand::rngs::StdRng) -> (s: State)
        requires
            env.wf(),
            env.has_landmarks(),
        ensures
            final(self).alive,
            final(self).age == 0,
            final(self).hunger == full_need(),
            final(self).thirst == full_need(),
            final(self).energy == full_need(),
            final(self).money == empty_money(),
            final(self).wf(),
            final(self).in_bounds(*env),
            s.key == encode_spec(*final(self), *env),
            s.key < nb_states_spec(*env),
    {
        let x = rng_below(rng, env.world_limits.0);
        let y = rng_below(rng, env.world_limits.1);
        self.position = Position { x: x as i32, y: y as i32 };
        self.age = 0;
        self.hunger = Need { value: 100, min_value: 0, max_value: 100 };
        self.thirst = Need { value: 100, min_value: 0, max_value: 100 };
        self.energy = Need { value: 100, min_value: 0, max_value: 100 };
        self.money = Need { value: 0, min_value: 0, max_value: i32::MAX };
        self.alive = true;
        encode(self, env)
    }

    /// Applies the action with index `action` (unknown indices are a no-op)
    /// and hands back its immediate reward.
    pub fn do_action(&mut self, env: &Environment, action: usize) -> (r: i64)
        requires
            env.wf(),
            env.has_landmarks(),
            old(self).wf(),
            old(self).in_bounds(*env),
        ensures
            *final(self) == apply_action_spec(*old(self), *env, action as int).0,
            r == apply_action_spec(*old(self), *env, action as int).1,
            final(self).wf(),
            final(self).in_bounds(*env),
            final(self).age == old(self).age,
    {
        match action {
            0 => Move::execute(self, env, Position { x: 1, y: 0 }),
            1 => Move::execute(self, env, Position { x: -1, y: 0 }),
            2 => Move::execute(self, env, Position { x: 0, y: 1 }),
            3 => Move::execute(self, env, Position { x: 0, y: -1 }),
            4 => Drink::execute(self, env, DRINK_AMOUNT),
            5 => Eat::execute(self, env, EAT_AMOUNT),
            _ => 0,
        }
    }

    /// One full learning step: apply the action, advance the decay tick,
    /// and report the next encoded state, the combined reward, and whether
    /// the episode is over (death or horizon).
    pub fn simulate_action(&mut self, env: &Environment, action: usize) -> (res: (State, i64, bool))
        requires
            env.wf(),
            env.has_landmarks(),
            old(self).wf(),
            old(self).in_bounds(*env),
            old(self).age < u32::MAX,
        ensures
            *final(self) == decayed(apply_action_spec(*old(self), *env, action as int).0),
            final(self).wf(),
            final(self).in_bounds(*env),
            final(self).age == old(self).age + 1,
            res.0.key == encode_spec(*final(self), *env),
            res.0.key < nb_states_spec(*env),
            res.1 == apply_action_spec(*old(self), *env, action as int).1 + state_reward(
                *final(self),
                *env,
            ),
            -REWARD_BOUND <= res.1 <= REWARD_BOUND,
            res.2 == (!final(self).alive || final(self).age > HORIZON),
    {
        proof {
            apply_action_is_bounded(*old(self), *env, action as int);
        }
        let action_reward = self.do_action(env, action);
        self.simulation_step_time();
        let next = encode(self, env);
        let reward = action_reward + self.compute_reward(env);
        let done = !self.alive || self.age > HORIZON;
        (next, reward, done)
    }

    /// One simulation tick outside training: apply the greedy action of the
    /// current policy, then the decay tick.
    pub fn step(&mut self, env: &Environment, policy: &Policy)
        requires
            env.wf(),
            env.has_landmarks(),
            old(self).wf(),
            old(self).in_bounds(*env),
            old(self).age < u32::MAX,
            policy.wf(),
            policy.is_init(),
            policy.nb_states() == nb_states_spec(*env),
        ensures
            *final(self) == greedy_step_spec(*old(self), *env, *policy),
            final(self).wf(),
            final(self).in_bounds(*env),
            final(self).age == old(self).age + 1,
    {
        let current = encode(self, env);
        let action = policy.predict_action(&current);
        self.do_action(env, action);
        self.simulation_step_time();
    }
}

} // verus!
