//! The tabular policy: a dense `nb_states x nb_actions` table of fixed-point
//! values, greedy action lookup, the one-step temporal-difference update,
//! and the epsilon-greedy training and greedy evaluation loops.
//!
//! Values are plain integers in reward units; the learning rate `alpha`, the
//! discount `gamma` and the exploration probability `epsilon` are given in
//! thousandths. The update rule is the fixed-point rendering of
//! `Q[s][a] <- (1-alpha)*Q[s][a] + alpha*(r + gamma*max_a' Q[s'][a'])`,
//! with each downscaling by 1000 truncating toward zero.

use vstd::prelude::*;

use vstd::arithmetic::div_mod::{
    lemma_div_is_ordered, lemma_div_multiples_vanish, lemma_div_pos_is_pos,
};

use crate::agent::{NB_ACTIONS, REWARD_BOUND};
use crate::encoder::{nb_states_spec, State};
use crate::humans::{Human, HORIZON};
use crate::rng::rng_below;
use crate::world::Environment;

verus! {

/// Every table value stays within this band.
pub const VALUE_BOUND: i64 = 1000000000000;

/// The update rule accepts rewards within this band (far above anything the
/// action set produces).
pub const REWARD_LIMIT: i64 = 1000000;

/// The discount `gamma` must stay below one (in thousandths) so that values
/// cannot grow without bound.
pub const GAMMA_LIMIT: u32 = 999;

/// `x / 1000`, truncating toward zero (the downscaling step of the
/// fixed-point arithmetic).
pub open spec fn scale_down(x: int) -> int {
    if x >= 0 {
        x / 1000
    } else {
        -((-x) / 1000)
    }
}

/// One temporal-difference update in fixed point: all factors are in
/// thousandths, each downscaling truncates toward zero.
pub open spec fn td_update(q: int, reward: int, next_max: int, alpha: int, gamma: int) -> int {
    scale_down((1000 - alpha) * q + alpha * (reward + scale_down(gamma * next_max)))
}

/// The largest value of a row (the earliest occurrence wins ties).
pub open spec fn row_max(row: Seq<i64>) -> int
    recommends
        row.len() > 0,
    decreases row.len(),
{
    if row.len() <= 1 {
        row[0] as int
    } else {
        let m = row_max(row.drop_last());
        if row.last() > m {
            row.last() as int
        } else {
            m
        }
    }
}

/// The row maximum is attained and bounds every entry.
pub proof fn lemma_row_max(row: Seq<i64>)
    requires
        row.len() > 0,
    ensures
        exists|i: int| 0 <= i < row.len() && row[i] == row_max(row),
        forall|i: int| 0 <= i < row.len() ==> #[trigger] row[i] <= row_max(row),
    decreases row.len(),
{
    if row.len() > 1 {
        lemma_row_max(row.drop_last());
        assert forall|i: int| 0 <= i < row.len() implies #[trigger] row[i] <= row_max(row) by {
            if i < row.len() - 1 {
                assert(row.drop_last()[i] == row[i]);
            }
        }
        if row.last() > row_max(row.drop_last()) {
            assert(row[row.len() - 1] == row_max(row));
        } else {
            let i = choose|i: int|
                0 <= i < row.drop_last().len() && row.drop_last()[i] == row_max(row.drop_last());
            assert(row[i] == row_max(row));
        }
    } else {
        assert(row[0] == row_max(row));
    }
}

/// `a` is the index of the row's maximum, with ties broken by the first
/// occurrence: nothing is larger, and everything before it is smaller.
pub open spec fn is_first_argmax(row: Seq<i64>, a: int) -> bool {
    &&& 0 <= a < row.len()
    &&& forall|j: int| 0 <= j < row.len() ==> #[trigger] row[j] <= row[a]
    &&& forall|j: int| 0 <= j < a ==> #[trigger] row[j] < row[a]
}

/// The index of the row's maximum value, ties broken by the first
/// occurrence.
pub open spec fn first_argmax(row: Seq<i64>) -> int
    recommends
        row.len() > 0,
    decreases row.len(),
{
    if row.len() <= 1 {
        0
    } else {
        let a = first_argmax(row.drop_last());
        if row.last() > row[a] {
            row.len() - 1
        } else {
            a
        }
    }
}

/// `first_argmax` is a stable argmax: its entry bounds the whole row and
/// strictly exceeds everything before it.
pub proof fn lemma_first_argmax(row: Seq<i64>)
    requires
        row.len() > 0,
    ensures
        is_first_argmax(row, first_argmax(row)),
    decreases row.len(),
{
    if row.len() > 1 {
        lemma_first_argmax(row.drop_last());
        let a0 = first_argmax(row.drop_last());
        assert forall|j: int| 0 <= j < row.len() - 1 implies #[trigger] row[j] == row.drop_last()[j]
            by {}
        if row.last() > row[a0] {
            assert(first_argmax(row) == row.len() - 1);
        }
    }
}

/// Scaling down keeps a value inside a scaled-down band.
pub proof fn lemma_scale_down_bound(x: int, b: int)
    requires
        0 <= b,
        -b <= x <= b,
    ensures
        -(b / 1000) <= scale_down(x) <= b / 1000,
{
    if x >= 0 {
        lemma_div_pos_is_pos(x, 1000);
        lemma_div_is_ordered(x, b, 1000);
        lemma_div_pos_is_pos(b, 1000);
    } else {
        lemma_div_pos_is_pos(-x, 1000);
        lemma_div_is_ordered(-x, b, 1000);
        lemma_div_pos_is_pos(b, 1000);
    }
}

/// Scaling down is exact on multiples of 1000.
pub proof fn lemma_scale_down_multiple(n: int)
    ensures
        scale_down(1000 * n) == n,
{
    if n >= 0 {
        lemma_div_multiples_vanish(n, 1000);
    } else {
        lemma_div_multiples_vanish(-n, 1000);
        assert(-(1000 * n) == 1000 * (-n));
    }
}

/// With a learning rate of zero, one update step leaves the entry exactly
/// where it was, whatever the reward and the next state promise.
pub proof fn lemma_update_alpha_zero(q: int, reward: int, next_max: int, gamma: int)
    ensures
        td_update(q, reward, next_max, 0, gamma) == q,
{
    assert((1000 - 0) * q + 0 * (reward + scale_down(gamma * next_max)) == 1000 * q);
    lemma_scale_down_multiple(q);
}

/// With a learning rate of one, one update step moves the entry exactly to
/// `reward + gamma * next_max` (with the discount product downscaled,
/// truncating toward zero).
pub proof fn lemma_update_alpha_one(q: int, reward: int, next_max: int, gamma: int)
    ensures
        td_update(q, reward, next_max, 1000, gamma) == reward + scale_down(gamma * next_max),
{
    let target = reward + scale_down(gamma * next_max);
    assert((1000 - 1000) * q + 1000 * target == 1000 * target);
    lemma_scale_down_multiple(target);
}

/// One update step keeps table values within `VALUE_BOUND` whenever the
/// reward is within `REWARD_LIMIT`, the rate is at most one and the
/// discount strictly below one.
pub proof fn lemma_update_bounded(q: int, reward: int, next_max: int, alpha: int, gamma: int)
    requires
        -VALUE_BOUND <= q <= VALUE_BOUND,
        -VALUE_BOUND <= next_max <= VALUE_BOUND,
        -REWARD_LIMIT <= reward <= REWARD_LIMIT,
        0 <= alpha <= 1000,
        0 <= gamma <= GAMMA_LIMIT as int,
    ensures
        -VALUE_BOUND <= td_update(q, reward, next_max, alpha, gamma) <= VALUE_BOUND,
{
    let qb = VALUE_BOUND as int;
    assert(-999 * qb <= gamma * next_max <= 999 * qb) by (nonlinear_arith)
        requires
            0 <= gamma <= 999,
            -qb <= next_max <= qb,
            qb == VALUE_BOUND as int,
    ;
    lemma_scale_down_bound(gamma * next_max, 999 * qb);
    let gm = scale_down(gamma * next_max);
    let base = reward + gm;
    assert(-qb <= base <= qb);
    let t = (1000 - alpha) * q + alpha * base;
    assert(-1000 * qb <= t <= 1000 * qb) by (nonlinear_arith)
        requires
            0 <= alpha <= 1000,
            -qb <= q <= qb,
            -qb <= base <= qb,
            t == (1000 - alpha) * q + alpha * base,
            0 <= qb,
    ;
    lemma_scale_down_bound(t, 1000 * qb);
    assert((1000 * qb) / 1000 == qb) by {
        lemma_div_multiples_vanish(qb, 1000);
    }
}

/// `x / 1000` on machine integers, truncating toward zero.
fn scale_down_i64(x: i64) -> (r: i64)
    requires
        i64::MIN < x,
    ensures
        r == scale_down(x as int),
{
    if x >= 0 {
        let q = (x as u64) / 1000;
        proof {
            lemma_div_pos_is_pos(x as int, 1000);
            lemma_div_is_ordered(x as int / 1000, x as int, 1);
            vstd::arithmetic::div_mod::lemma_div_nonincreasing(x as int, 1000);
        }
        q as i64
    } else {
        let neg = -x;
        let m = (neg as u64) / 1000;
        proof {
            lemma_div_pos_is_pos(neg as int, 1000);
            vstd::arithmetic::div_mod::lemma_div_nonincreasing(neg as int, 1000);
        }
        -(m as i64)
    }
}

/// One fixed-point temporal-difference step on machine integers.
fn td_next(q: i64, reward: i64, next_max: i64, alpha: u32, gamma: u32) -> (r: i64)
    requires
        -VALUE_BOUND <= q <= VALUE_BOUND,
        -VALUE_BOUND <= next_max <= VALUE_BOUND,
        -REWARD_LIMIT <= reward <= REWARD_LIMIT,
        alpha <= 1000,
        gamma <= GAMMA_LIMIT,
    ensures
        r == td_update(q as int, reward as int, next_max as int, alpha as int, gamma as int),
        -VALUE_BOUND <= r <= VALUE_BOUND,
{
    proof {
        lemma_update_bounded(
            q as int,
            reward as int,
            next_max as int,
            alpha as int,
            gamma as int,
        );
        assert(-999 * (VALUE_BOUND as int) <= (gamma as int) * (next_max as int) <= 999 * (
        VALUE_BOUND as int)) by (nonlinear_arith)
            requires
                0 <= gamma as int <= 999,
                -(VALUE_BOUND as int) <= next_max as int <= VALUE_BOUND as int,
        ;
        lemma_scale_down_bound((gamma as int) * (next_max as int), 999 * (VALUE_BOUND as int));
    }
    let gm = scale_down_i64((gamma as i64) * next_max);
    let base = reward + gm;
    proof {
        assert(-1000 * (VALUE_BOUND as int) <= (1000 - alpha as int) * (q as int) <= 1000 * (
        VALUE_BOUND as int)) by (nonlinear_arith)
            requires
                0 <= alpha as int <= 1000,
                -(VALUE_BOUND as int) <= q as int <= VALUE_BOUND as int,
        ;
        assert(-1000 * (VALUE_BOUND as int) <= (alpha as int) * (base as int) <= 1000 * (
        VALUE_BOUND as int)) by (nonlinear_arith)
            requires
                0 <= alpha as int <= 1000,
                -(VALUE_BOUND as int) <= base as int <= VALUE_BOUND as int,
        ;
        assert((1000 - alpha as int) * (q as int) + (alpha as int) * (base as int) <= 1000 * (
        VALUE_BOUND as int) && (1000 - alpha as int) * (q as int) + (alpha as int) * (base as int)
            >= -1000 * (VALUE_BOUND as int)) by (nonlinear_arith)
            requires
                0 <= alpha as int <= 1000,
                -(VALUE_BOUND as int) <= q as int <= VALUE_BOUND as int,
                -(VALUE_BOUND as int) <= base as int <= VALUE_BOUND as int,
        ;
    }
    let t = (1000 - alpha as i64) * q + (alpha as i64) * base;
    scale_down_i64(t)
}

/// Statistics of a greedy evaluation run: how many episodes ran, how many
/// steps they took in total, and the summed per-step reward.
#[derive(Clone, Copy, PartialEq, Eq, Structural, Debug)]
pub struct EvalStats {
    pub episodes: usize,
    pub total_steps: u64,
    pub total_reward: i64,
}

/// The dense state/action value table.
pub struct Policy {
    pub qtable: Vec<Vec<i64>>,
}

impl Policy {
    /// The number of rows (states) of the table.
    pub open spec fn nb_states(self) -> int {
        self.qtable@.len() as int
    }

    /// The number of columns (actions) of the table.
    pub open spec fn nb_actions(self) -> int {
        self.qtable@[0]@.len() as int
    }

    /// Whether `init` has run: the table has rows and columns.
    pub open spec fn is_init(self) -> bool {
        self.nb_states() > 0 && self.nb_actions() > 0
    }

    /// The table is rectangular and every value is in band.
    pub open spec fn wf(self) -> bool {
        &&& forall|s: int|
            0 <= s < self.nb_states() ==> (#[trigger] self.qtable@[s])@.len() == self.nb_actions()
        &&& forall|s: int, a: int|
            #![trigger self.qtable@[s]@[a]]
            0 <= s < self.nb_states() && 0 <= a < self.nb_actions() ==> -VALUE_BOUND
                <= self.qtable@[s]@[a] <= VALUE_BOUND
    }

    /// The value at `(s, a)`.
    pub open spec fn value_at(self, s: int, a: int) -> int {
        self.qtable@[s]@[a] as int
    }

    /// An empty, uninitialized policy.
    pub fn new() -> (p: Policy)
        ensures
            p.qtable@.len() == 0,
            p.wf(),
    {
        Policy { qtable: Vec::new() }
    }

    /// Allocates the table (one-shot: the policy must not be initialized
    /// yet) and fills it with small random noise in `[-1000, 1000]` to
    /// break ties among untrained actions.
    pub fn init(&mut self, nb_states: usize, nb_actions: usize, rng: &mut rand::rngs::StdRng)
        requires
            old(self).qtable@.len() == 0,
            1 <= nb_states,
            1 <= nb_actions,
        ensures
            final(self).wf(),
            final(self).is_init(),
            final(self).nb_states() == nb_states,
            final(self).nb_actions() == nb_actions,
            forall|s: int, a: int|
                #![trigger final(self).qtable@[s]@[a]]
                0 <= s < nb_states && 0 <= a < nb_actions ==> -1000 <= final(self).qtable@[s]@[a]
                    <= 1000,
    {
        let mut table: Vec<Vec<i64>> = Vec::new();
        while table.len() < nb_states
            invariant
                table@.len() <= nb_states,
                forall|s: int| 0 <= s < table@.len() ==> (#[trigger] table@[s])@.len() == nb_actions,
                forall|s: int, a: int|
                    #![trigger table@[s]@[a]]
                    0 <= s < table@.len() && 0 <= a < nb_actions ==> -1000 <= table@[s]@[a] <= 1000,
            decreases nb_states - table@.len(),
        {
            let mut row: Vec<i64> = Vec::new();
            while row.len() < nb_actions
                invariant
                    row@.len() <= nb_actions,
                    forall|a: int| 0 <= a < row@.len() ==> -1000 <= #[trigger] row@[a] <= 1000,
                decreases nb_actions - row@.len(),
            {
                let noise = rng_below(rng, 2001);
                row.push((noise as i64) - 1000);
            }
            table.push(row);
        }
        self.qtable = table;
    }

    /// Reads the value of `(state, action)`.
    pub fn get_value(&self, state: &State, action: usize) -> (v: i64)
        requires
            self.wf(),
            state.key < self.nb_states(),
            action < self.nb_actions(),
        ensures
            v == self.value_at(state.key as int, action as int),
    {
        self.qtable[state.key][action]
    }

    /// Writes the value of `(state, action)`; the value must stay in band.
    pub fn set_value(&mut self, state: &State, action: usize, value: i64)
        requires
            old(self).wf(),
            old(self).is_init(),
            state.key < old(self).nb_states(),
            action < old(self).nb_actions(),
            -VALUE_BOUND <= value <= VALUE_BOUND,
        ensures
            final(self).wf(),
            final(self).is_init(),
            final(self).nb_states() == old(self).nb_states(),
            final(self).nb_actions() == old(self).nb_actions(),
            forall|s: int, a: int|
                #![trigger final(self).qtable@[s]@[a]]
                0 <= s < old(self).nb_states() && 0 <= a < old(self).nb_actions()
                    ==> final(self).qtable@[s]@[a] == (if s == state.key as int && a == action as int {
                    value
                } else {
                    old(self).qtable@[s]@[a]
                }),
    {
        self.qtable[state.key][action] = value;
    }

    /// The largest value of a nonempty row.
    fn max_in_row(row: &Vec<i64>) -> (m: i64)
        requires
            row@.len() > 0,
        ensures
            m == row_max(row@),
    {
        let mut m = row[0];
        let mut i: usize = 1;
        while i < row.len()
            invariant
                1 <= i <= row@.len(),
                m == row_max(row@.take(i as int)),
            decreases row@.len() - i,
        {
            let v = row[i];
            assert(row@.take(i + 1).drop_last() =~= row@.take(i as int));
            if v > m {
                m = v;
            }
            i = i + 1;
        }
        assert(row@.take(row@.len() as int) =~= row@);
        m
    }

    /// The greedy action of `state`: the column index of the row's maximum
    /// value, with ties broken by the first occurrence.
    pub fn predict_action(&self, state: &State) -> (a: usize)
        requires
            self.wf(),
            self.is_init(),
            state.key < self.nb_states(),
        ensures
            a as int == first_argmax(self.qtable@[state.key as int]@),
            is_first_argmax(self.qtable@[state.key as int]@, a as int),
            a < self.nb_actions(),
    {
        let row = &self.qtable[state.key];
        let mut best: usize = 0;
        let mut best_val = row[0];
        let mut i: usize = 1;
        while i < row.len()
            invariant
                0 < row@.len(),
                best < i,
                i <= row@.len(),
                best_val == row@[best as int],
                best as int == first_argmax(row@.take(i as int)),
            decreases row@.len() - i,
        {
            assert(row@.take(i + 1).drop_last() =~= row@.take(i as int));
            if row[i] > best_val {
                best = i;
                best_val = row[i];
            }
            i = i + 1;
        }
        assert(row@.take(row@.len() as int) =~= row@);
        proof {
            lemma_first_argmax(row@);
        }
        best
    }

    /// One temporal-difference update: moves `(state, action)` to the
    /// fixed-point blend of its old value and `reward` plus the discounted
    /// maximum of the next state's row; every other entry is untouched.
    pub fn update(
        &mut self,
        state: &State,
        action: usize,
        reward: i64,
        next_state: &State,
        alpha: u32,
        gamma: u32,
    )
        requires
            old(self).wf(),
            old(self).is_init(),
            state.key < old(self).nb_states(),
            action < old(self).nb_actions(),
            next_state.key < old(self).nb_states(),
            -REWARD_LIMIT <= reward <= REWARD_LIMIT,
            alpha <= 1000,
            gamma <= GAMMA_LIMIT,
        ensures
            final(self).wf(),
            final(self).is_init(),
            final(self).nb_states() == old(self).nb_states(),
            final(self).nb_actions() == old(self).nb_actions(),
            forall|s: int, a: int|
                #![trigger final(self).qtable@[s]@[a]]
                0 <= s < old(self).nb_states() && 0 <= a < old(self).nb_actions()
                    ==> final(self).qtable@[s]@[a] == (if s == state.key as int && a == action as int {
                    td_update(
                        old(self).value_at(state.key as int, action as int),
                        reward as int,
                        row_max(old(self).qtable@[next_state.key as int]@),
                        alpha as int,
                        gamma as int,
                    )
                } else {
                    old(self).qtable@[s]@[a] as int
                }),
    {
        proof {
            lemma_row_max(self.qtable@[next_state.key as int]@);
        }
        let next_max = Policy::max_in_row(&self.qtable[next_state.key]);
        let old_q = self.qtable[state.key][action];
        let new_q = td_next(old_q, reward, next_max, alpha, gamma);
        self.qtable[state.key][action] = new_q;
    }

    /// Off-policy one-step Q-learning: for each episode, resets the agent,
    /// then repeatedly picks an action (uniformly random with probability
    /// `epsilon`, else greedy), applies it through the agent's simulation
    /// step, and feeds the result through the temporal-difference update,
    /// until the episode reports termination. The rates are constant across
    /// training. The table stays rectangular and in band throughout; after
    /// at least one episode the agent is terminal (dead or past the
    /// horizon), and a zero learning rate leaves every entry of the table
    /// unchanged, whatever the episodes did.
    pub fn train(
        &mut self,
        agent: &mut Human,
        env: &Environment,
        rng: &mut rand::rngs::StdRng,
        iterations: usize,
        alpha: u32,
        gamma: u32,
        epsilon: u32,
    )
        requires
            old(self).wf(),
            old(self).is_init(),
            old(self).nb_states() == nb_states_spec(*env),
            old(self).nb_actions() == NB_ACTIONS as int,
            old(agent).wf(),
            env.wf(),
            env.has_landmarks(),
            alpha <= 1000,
            gamma <= GAMMA_LIMIT,
            epsilon <= 1000,
        ensures
            final(self).wf(),
            final(self).is_init(),
            final(self).nb_states() == old(self).nb_states(),
            final(self).nb_actions() == old(self).nb_actions(),
            final(agent).wf(),
            iterations == 0 ==> final(self).qtable == old(self).qtable && *final(agent) == *old(
                agent,
            ),
            iterations > 0 ==> (!final(agent).alive || final(agent).age > HORIZON)
                && final(agent).in_bounds(*env),
            alpha == 0 ==> forall|s: int, a: int|
                #![trigger final(self).qtable@[s]@[a]]
                0 <= s < old(self).nb_states() && 0 <= a < old(self).nb_actions()
                    ==> final(self).qtable@[s]@[a] == old(self).qtable@[s]@[a],
    {
        let mut i: usize = 0;
        while i < iterations
            invariant
                self.wf(),
                self.is_init(),
                self.nb_states() == nb_states_spec(*env),
                self.nb_states() == old(self).nb_states(),
                self.nb_actions() == old(self).nb_actions(),
                self.nb_actions() == NB_ACTIONS as int,
                env.wf(),
                env.has_landmarks(),
                agent.wf(),
                alpha <= 1000,
                gamma <= GAMMA_LIMIT,
                epsilon <= 1000,
                i <= iterations,
                i == 0 ==> self.qtable == old(self).qtable && *agent == *old(agent),
                i > 0 ==> (!agent.alive || agent.age > HORIZON) && agent.in_bounds(*env),
                alpha == 0 ==> forall|s: int, a: int|
                    #![trigger self.qtable@[s]@[a]]
                    0 <= s < old(self).nb_states() && 0 <= a < old(self).nb_actions()
                        ==> self.qtable@[s]@[a] == old(self).qtable@[s]@[a],
            decreases iterations - i,
        {
            let mut current = agent.reset(env, rng);
            let mut finished = false;
            while !finished
                invariant
                    self.wf(),
                    self.is_init(),
                    self.nb_states() == nb_states_spec(*env),
                    self.nb_states() == old(self).nb_states(),
                    self.nb_actions() == old(self).nb_actions(),
                    self.nb_actions() == NB_ACTIONS as int,
                    env.wf(),
                    env.has_landmarks(),
                    agent.wf(),
                    agent.in_bounds(*env),
                    current.key < self.nb_states(),
                    alpha <= 1000,
                    gamma <= GAMMA_LIMIT,
                    epsilon <= 1000,
                    !finished ==> agent.age <= HORIZON,
                    finished ==> !agent.alive || agent.age > HORIZON,
                    alpha == 0 ==> forall|s: int, a: int|
                        #![trigger self.qtable@[s]@[a]]
                        0 <= s < old(self).nb_states() && 0 <= a < old(self).nb_actions()
                            ==> self.qtable@[s]@[a] == old(self).qtable@[s]@[a],
                decreases HORIZON + 1 - agent.age,
            {
                let action = if rng_below(rng, 1000) < epsilon as usize {
                    rng_below(rng, NB_ACTIONS)
                } else {
                    self.predict_action(&current)
                };
                let (next, reward, done) = agent.simulate_action(env, action);
                let ghost before_update = *self;
                self.update(&current, action, reward, &next, alpha, gamma);
                proof {
                    if alpha == 0 {
                        lemma_update_alpha_zero(
                            before_update.value_at(current.key as int, action as int),
                            reward as int,
                            row_max(before_update.qtable@[next.key as int]@),
                            gamma as int,
                        );
                        assert forall|s: int, a: int|
                            0 <= s < old(self).nb_states() && 0 <= a < old(self).nb_actions()
                                implies #[trigger] self.qtable@[s]@[a] == old(self).qtable@[s]@[a] by {
                            assert(before_update.qtable@[s]@[a] == old(self).qtable@[s]@[a]);
                        }
                    }
                }
                current = next;
                finished = done;
            }
            i = i + 1;
        }
    }

    /// Greedy-only rollout for measuring trained performance: `iterations`
    /// episodes with no exploration and no table updates, reporting the
    /// total number of steps and the summed per-step reward. Every episode
    /// runs to termination (the agent ends dead or past the horizon) and
    /// takes between one and `HORIZON + 1` steps; every step's reward lies
    /// within `REWARD_BOUND`, so the totals are bounded by the step count.
    pub fn evaluate(
        &self,
        agent: &mut Human,
        env: &Environment,
        rng: &mut rand::rngs::StdRng,
        iterations: usize,
    ) -> (stats: EvalStats)
        requires
            self.wf(),
            self.is_init(),
            self.nb_states() == nb_states_spec(*env),
            old(agent).wf(),
            env.wf(),
            env.has_landmarks(),
            iterations <= 1000000000,
        ensures
            stats.episodes == iterations,
            stats.total_steps as int >= iterations as int,
            stats.total_steps as int <= (iterations as int) * ((HORIZON + 1) as int),
            -(REWARD_BOUND as int) * (stats.total_steps as int) <= stats.total_reward as int,
            stats.total_reward as int <= (REWARD_BOUND as int) * (stats.total_steps as int),
            final(agent).wf(),
            iterations > 0 ==> (!final(agent).alive || final(agent).age > HORIZON)
                && final(agent).in_bounds(*env),
    {
        let mut total_steps: u64 = 0;
        let mut total_reward: i64 = 0;
        let mut i: usize = 0;
        while i < iterations
            invariant
                self.wf(),
                self.is_init(),
                self.nb_states() == nb_states_spec(*env),
                env.wf(),
                env.has_landmarks(),
                agent.wf(),
                i <= iterations,
                iterations <= 1000000000,
                total_steps as int >= i as int,
                total_steps as int <= (i as int) * 10001,
                -5000 * (total_steps as int) <= total_reward as int,
                total_reward as int <= 5000 * (total_steps as int),
                i > 0 ==> (!agent.alive || agent.age > HORIZON) && agent.in_bounds(*env),
            decreases iterations - i,
        {
            let mut current = agent.reset(env, rng);
            let mut finished = false;
            let ghost steps0 = total_steps as int;
            while !finished
                invariant
                    self.wf(),
                    self.is_init(),
                    self.nb_states() == nb_states_spec(*env),
                    env.wf(),
                    env.has_landmarks(),
                    agent.wf(),
                    agent.in_bounds(*env),
                    current.key < self.nb_states(),
                    i < iterations,
                    iterations <= 1000000000,
                    steps0 >= i as int,
                    steps0 <= (i as int) * 10001,
                    total_steps as int == steps0 + agent.age as int,
                    agent.age <= HORIZON + 1,
                    !finished ==> agent.age <= HORIZON,
                    finished ==> agent.age >= 1 && (!agent.alive || agent.age > HORIZON),
                    -5000 * (total_steps as int) <= total_reward as int,
                    total_reward as int <= 5000 * (total_steps as int),
                decreases HORIZON + 1 - agent.age,
            {
                let action = self.predict_action(&current);
                let (next, reward, done) = agent.simulate_action(env, action);
                total_steps = total_steps + 1;
                total_reward = total_reward + reward;
                current = next;
                finished = done;
            }
            i = i + 1;
        }
        proof {
            assert((iterations as int) * ((HORIZON + 1) as int) == (iterations as int) * 10001)
                by (nonlinear_arith)
                requires
                    (HORIZON + 1) as int == 10001,
            ;
            assert(-(REWARD_BOUND as int) * (total_steps as int) == -5000 * (total_steps as int)
                && (REWARD_BOUND as int) * (total_steps as int) == 5000 * (total_steps as int))
                by (nonlinear_arith)
                requires
                    REWARD_BOUND as int == 5000,
            ;
        }
        EvalStats { episodes: i, total_steps, total_reward }
    }
}

} // verus!
