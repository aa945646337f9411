//! The reinforcement-learning behaviour: a policy paired with the encoder,
//! trained once against an agent and then queried greedily.

use vstd::prelude::*;

use crate::agent::{greedy_step_spec, NB_ACTIONS, REWARD_BOUND};
use crate::encoder::{encode, encode_spec, nb_states, nb_states_spec};
use crate::humans::{Human, HORIZON};
use crate::policy::{first_argmax, is_first_argmax, EvalStats, Policy, GAMMA_LIMIT};
use crate::world::Environment;

verus! {

/// A Q-learning behaviour: owns the value table it learns.
pub struct QLBehaviour {
    pub policy: Policy,
}

impl QLBehaviour {
    /// A behaviour with no table yet; `train` allocates it.
    pub fn new() -> (b: QLBehaviour)
        ensures
            b.policy.qtable@.len() == 0,
            b.policy.wf(),
    {
        QLBehaviour { policy: Policy::new() }
    }

    /// Whether the behaviour was trained against (a world shaped like)
    /// `env`: its table height matches the encoder's state count.
    pub open spec fn matches(self, env: Environment) -> bool {
        &&& self.policy.wf()
        &&& self.policy.is_init()
        &&& self.policy.nb_states() == nb_states_spec(env)
    }

    /// Allocates the table for `env` (one-shot: the behaviour must be
    /// fresh) and runs Q-learning for `iterations` episodes. The rates are
    /// in thousandths; the discount stays strictly below one. After at
    /// least one episode the agent is terminal (dead or past the horizon)
    /// and inside the grid.
    pub fn train(
        &mut self,
        train_agent: &mut Human,
        env: &Environment,
        rng: &mut rand::rngs::StdRng,
        iterations: usize,
        alpha: u32,
        gamma: u32,
        epsilon: u32,
    )
        requires
            old(self).policy.qtable@.len() == 0,
            old(train_agent).wf(),
            env.wf(),
            env.has_landmarks(),
            alpha <= 1000,
            gamma <= GAMMA_LIMIT,
            epsilon <= 1000,
        ensures
            final(self).matches(*env),
            final(self).policy.nb_actions() == NB_ACTIONS as int,
            final(train_agent).wf(),
            iterations > 0 ==> (!final(train_agent).alive || final(train_agent).age > HORIZON)
                && final(train_agent).in_bounds(*env),
    {
        let n = nb_states(env);
        self.policy.init(n, NB_ACTIONS, rng);
        self.policy.train(train_agent, env, rng, iterations, alpha, gamma, epsilon);
    }

    /// Greedy-only evaluation of the trained table; see `Policy::evaluate`
    /// for the episode and reward guarantees, carried through here.
    pub fn evaluate(
        &self,
        test_agent: &mut Human,
        env: &Environment,
        rng: &mut rand::rngs::StdRng,
        iterations: usize,
    ) -> (stats: EvalStats)
        requires
            self.matches(*env),
            old(test_agent).wf(),
            env.wf(),
            env.has_landmarks(),
            iterations <= 1000000000,
        ensures
            stats.episodes == iterations,
            stats.total_steps as int >= iterations as int,
            stats.total_steps as int <= (iterations as int) * ((HORIZON + 1) as int),
            -(REWARD_BOUND as int) * (stats.total_steps as int) <= stats.total_reward as int,
            stats.total_reward as int <= (REWARD_BOUND as int) * (stats.total_steps as int),
            final(test_agent).wf(),
            iterations > 0 ==> (!final(test_agent).alive || final(test_agent).age > HORIZON)
                && final(test_agent).in_bounds(*env),
    {
        self.policy.evaluate(test_agent, env, rng, iterations)
    }

    /// The greedy action for `human`'s current situation.
    pub fn predict_action(&self, human: &Human, env: &Environment) -> (a: usize)
        requires
            self.matches(*env),
            env.wf(),
            env.has_landmarks(),
            human.wf(),
            human.in_bounds(*env),
        ensures
            a as int == first_argmax(self.policy.qtable@[encode_spec(*human, *env)]@),
            is_first_argmax(self.policy.qtable@[encode_spec(*human, *env)]@, a as int),
    {
        let current = encode(human, env);
        self.policy.predict_action(&current)
    }

    /// Advances `human` by one greedy tick (action plus decay).
    pub fn step(&self, human: &mut Human, env: &Environment)
        requires
            self.matches(*env),
            env.wf(),
            env.has_landmarks(),
            old(human).wf(),
            old(human).in_bounds(*env),
            old(human).age < u32::MAX,
        ensures
            *final(human) == greedy_step_spec(*old(human), *env, self.policy),
            final(human).wf(),
            final(human).in_bounds(*env),
    {
        human.step(env, &self.policy);
    }
}

} // verus!
