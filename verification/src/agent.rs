//! The tabular Q-learning agent.
//!
//! Each agent exclusively owns one dense Q-table over
//! `num_states * num_actions` entries, stored arena-style in one flat vector
//! with entry `(s, a)` at index `s * num_actions + a`. Values are fixed-point
//! integers (units of `1 / scale`) and are proved to stay within
//! `0 ..= q_bound`, which rules out overflow in every update.

use vstd::arithmetic::div_mod::lemma_div_is_ordered;
use vstd::arithmetic::div_mod::lemma_div_pos_is_pos;
use vstd::arithmetic::div_mod::lemma_fundamental_div_mod;
use vstd::prelude::*;

use crate::bus::Transition;
use crate::bus::TransitionBus;
use crate::config::SimConfig;
use crate::env::spec_next_state;
use crate::env::spec_reward;

verus! {

/// Index of entry `(s, a)` in the flat table.
pub open spec fn flat_index(cfg: SimConfig, s: int, a: int) -> int {
    s * cfg.num_actions + a
}

/// Row `s` of a flat table: the `num_actions` estimates for that state.
pub open spec fn table_row(q: Seq<u64>, cfg: SimConfig, s: int) -> Seq<u64> {
    q.subrange(s * cfg.num_actions, s * cfg.num_actions + cfg.num_actions)
}

/// The lowest index of a maximal value of the row: ties are broken towards
/// the earlier action, so selection is deterministic for a given table.
pub open spec fn spec_argmax(row: Seq<u64>) -> int
    decreases row.len(),
{
    if row.len() <= 1 {
        0
    } else {
        let i = spec_argmax(row.drop_last());
        if row.last() > row[i] {
            row.len() - 1
        } else {
            i
        }
    }
}

/// The largest value of the row.
pub open spec fn spec_row_max(row: Seq<u64>) -> u64 {
    row[spec_argmax(row)]
}

/// `spec_argmax` indeed points at a maximal value, and at the first one.
pub proof fn lemma_argmax_props(row: Seq<u64>)
    requires
        1 <= row.len(),
    ensures
        0 <= spec_argmax(row) < row.len(),
        forall|j: int| 0 <= j < row.len() ==> row[j] <= spec_row_max(row),
        forall|j: int| 0 <= j < spec_argmax(row) ==> row[j] < spec_row_max(row),
    decreases row.len(),
{
    if row.len() > 1 {
        lemma_argmax_props(row.drop_last());
        assert(forall|j: int| 0 <= j < row.len() - 1 ==> row[j] == row.drop_last()[j]);
    }
}

/// Every entry of `(s, a)` with `s < num_states`, `a < num_actions` lies
/// inside the `num_states * num_actions` table.
pub proof fn lemma_flat_index_in_table(cfg: SimConfig, s: int, a: int)
    requires
        0 <= s < cfg.num_states,
        0 <= a < cfg.num_actions,
    ensures
        0 <= flat_index(cfg, s, a),
        s * cfg.num_actions + cfg.num_actions <= cfg.num_states * cfg.num_actions,
        flat_index(cfg, s, a) < cfg.num_states * cfg.num_actions,
{
    let na = cfg.num_actions as int;
    let ns = cfg.num_states as int;
    assert(0 <= s * na && (s + 1) * na <= ns * na && s * na + na == (s + 1) * na)
        by (nonlinear_arith)
        requires
            0 <= s < ns,
            0 < na,
    ;
}

/// Distinct in-range entries occupy distinct flat indices.
pub proof fn lemma_flat_index_injective(cfg: SimConfig, s1: int, a1: int, s2: int, a2: int)
    requires
        0 <= s1 < cfg.num_states,
        0 <= a1 < cfg.num_actions,
        0 <= s2 < cfg.num_states,
        0 <= a2 < cfg.num_actions,
        !(s1 == s2 && a1 == a2),
    ensures
        flat_index(cfg, s1, a1) != flat_index(cfg, s2, a2),
{
    let na = cfg.num_actions as int;
    assert(s1 * na + a1 != s2 * na + a2) by (nonlinear_arith)
        requires
            0 <= a1 < na,
            0 <= a2 < na,
            !(s1 == s2 && a1 == a2),
    ;
}

/// The fixed-point temporal-difference update: the new estimate for
/// `(s, a)` given the old estimate `q0`, the observed `reward` and the best
/// next estimate `m`. It is the convex combination
/// `((alpha_den - alpha_num) * q0 + alpha_num * (reward + gamma * m)) / alpha_den`
/// evaluated in integer (floor) arithmetic.
pub open spec fn spec_updated(cfg: SimConfig, q0: u64, reward: u64, m: u64) -> int {
    let target = reward + (cfg.gamma_num * m) as int / (cfg.gamma_den as int);
    ((cfg.alpha_den - cfg.alpha_num) * q0 + cfg.alpha_num * target) / (cfg.alpha_den as int)
}

/// The update keeps estimates within `0 ..= q_bound` whenever its inputs are
/// within bounds and the reward is at most one unit.
pub proof fn lemma_updated_in_bounds(cfg: SimConfig, q0: u64, reward: u64, m: u64)
    requires
        cfg.valid(),
        q0 <= cfg.q_bound,
        m <= cfg.q_bound,
        reward <= cfg.scale,
    ensures
        0 <= spec_updated(cfg, q0, reward, m) <= cfg.q_bound,
{
    let an = cfg.alpha_num as int;
    let ad = cfg.alpha_den as int;
    let gn = cfg.gamma_num as int;
    let gd = cfg.gamma_den as int;
    let qb = cfg.q_bound as int;
    assert(gn * m <= gn * qb) by (nonlinear_arith)
        requires
            0 <= gn,
            m <= qb,
    ;
    lemma_div_is_ordered(gn * m, gn * qb, gd);
    let target = reward + gn * m / gd;
    assert(target <= qb);
    lemma_div_pos_is_pos(gn * m, gd);
    let numerator = (ad - an) * q0 + an * target;
    assert(0 <= (ad - an) * q0 + an * target <= ad * qb) by (nonlinear_arith)
        requires
            0 < an <= ad,
            0 <= q0 <= qb,
            0 <= target <= qb,
    ;
    lemma_div_is_ordered(numerator, ad * qb, ad);
    lemma_div_pos_is_pos(numerator, ad);
    assert(ad * qb / ad == qb) by (nonlinear_arith)
        requires
            0 < ad,
    ;
}

/// One observed step of an agent, as it enters that agent's own update: the
/// state acted in, the action taken, the fixed-point reward, and the state
/// reached.
pub struct UpdateRecord {
    /// State the action was taken in.
    pub state: usize,
    /// Action taken.
    pub action: usize,
    /// Fixed-point reward observed.
    pub reward: u64,
    /// State reached.
    pub next_state: usize,
}

/// The record's fields lie inside the configured spaces.
pub open spec fn record_in_range(cfg: SimConfig, r: UpdateRecord) -> bool {
    &&& r.state < cfg.num_states
    &&& r.action < cfg.num_actions
    &&& r.next_state < cfg.num_states
    &&& r.reward <= cfg.scale
}

/// The table produced by applying one update record to a table.
pub open spec fn apply_update(cfg: SimConfig, q: Seq<u64>, r: UpdateRecord) -> Seq<u64> {
    let m = spec_row_max(table_row(q, cfg, r.next_state as int));
    let q0 = q[flat_index(cfg, r.state as int, r.action as int)];
    q.update(
        flat_index(cfg, r.state as int, r.action as int),
        spec_updated(cfg, q0, r.reward, m) as u64,
    )
}

/// The table produced by applying a whole sequence of update records in
/// order.
pub open spec fn apply_all(cfg: SimConfig, q: Seq<u64>, recs: Seq<UpdateRecord>) -> Seq<u64>
    decreases recs.len(),
{
    if recs.len() == 0 {
        q
    } else {
        apply_update(cfg, apply_all(cfg, q, recs.drop_last()), recs.last())
    }
}

/// A learner owning one Q-table. No other agent and no bus ever mutates it:
/// every change goes through `update_q_value` on the exclusive owner.
pub struct Agent {
    /// This agent's identifier.
    pub id: usize,
    /// The configuration the agent was built with.
    pub cfg: SimConfig,
    /// The flat Q-table, entry `(s, a)` at `s * num_actions + a`.
    pub q: Vec<u64>,
}

impl Agent {
    /// The agent's table has the configured shape and every estimate is
    /// within bounds.
    pub open spec fn wf(self) -> bool {
        &&& self.cfg.valid()
        &&& self.q@.len() == self.cfg.num_states * self.cfg.num_actions
        &&& forall|k: int| 0 <= k < self.q@.len() ==> self.q@[k] <= self.cfg.q_bound
    }

    /// The estimate stored for `(s, a)`.
    pub open spec fn q_at(self, s: int, a: int) -> u64 {
        self.q@[flat_index(self.cfg, s, a)]
    }

    /// Row `s` of this agent's table.
    pub open spec fn row(self, s: int) -> Seq<u64> {
        table_row(self.q@, self.cfg, s)
    }

    /// A fresh agent: every estimate is zero before any update.
    pub fn new(id: usize, cfg: SimConfig) -> (agent: Agent)
        requires
            cfg.valid(),
        ensures
            agent.wf(),
            agent.id == id,
            agent.cfg == cfg,
            forall|k: int| 0 <= k < agent.q@.len() ==> agent.q@[k] == 0,
            forall|s: int, a: int|
                0 <= s < cfg.num_states && 0 <= a < cfg.num_actions ==> agent.q_at(s, a) == 0,
    {
        let n = cfg.num_states * cfg.num_actions;
        let q = vec![0u64; n];
        let agent = Agent { id, cfg, q };
        proof {
            assert forall|s: int, a: int|
                0 <= s < cfg.num_states && 0 <= a < cfg.num_actions implies agent.q_at(s, a)
                == 0 by {
                lemma_flat_index_in_table(cfg, s, a);
            }
        }
        agent
    }

    /// The stored estimate for `(state, action)`.
    pub fn q_value(&self, state: usize, action: usize) -> (v: u64)
        requires
            self.wf(),
            state < self.cfg.num_states,
            action < self.cfg.num_actions,
        ensures
            v == self.q_at(state as int, action as int),
    {
        proof {
            lemma_flat_index_in_table(self.cfg, state as int, action as int);
        }
        self.q[state * self.cfg.num_actions + action]
    }

    /// The greedy choice in `state`: the lowest-indexed action whose
    /// estimate is maximal in the row, found by a left-to-right scan that
    /// only moves on a strictly larger value.
    #[verifier::loop_isolation(false)]
    pub fn greedy_action(&self, state: usize) -> (a: usize)
        requires
            self.wf(),
            state < self.cfg.num_states,
        ensures
            a < self.cfg.num_actions,
            a == spec_argmax(self.row(state as int)),
    {
        let na = self.cfg.num_actions;
        proof {
            lemma_flat_index_in_table(self.cfg, state as int, 0);
        }
        let base = state * na;
        let ghost row = self.row(state as int);
        let mut best: usize = 0;
        let mut a: usize = 1;
        while a < na
            invariant
                1 <= a <= na,
                best < a,
                best == spec_argmax(row.take(a as int)),
            decreases na - a,
        {
            proof {
                assert(row.take(a + 1).drop_last() =~= row.take(a as int));
                assert(row.take(a + 1).last() == row[a as int]);
                assert(row[a as int] == self.q@[base + a]);
                assert(row[best as int] == self.q@[base + best]);
            }
            if self.q[base + a] > self.q[base + best] {
                best = a;
            }
            a = a + 1;
        }
        proof {
            assert(row.take(na as int) =~= row);
        }
        best
    }

    /// The largest estimate in the row of `state`: the value the update rule
    /// discounts as the best continuation.
    pub fn best_value(&self, state: usize) -> (m: u64)
        requires
            self.wf(),
            state < self.cfg.num_states,
        ensures
            m == spec_row_max(self.row(state as int)),
            m <= self.cfg.q_bound,
    {
        let a = self.greedy_action(state);
        proof {
            lemma_flat_index_in_table(self.cfg, state as int, 0);
            assert(self.row(state as int).len() == self.cfg.num_actions);
            lemma_argmax_props(self.row(state as int));
            lemma_flat_index_in_table(self.cfg, state as int, a as int);
        }
        self.q[state * self.cfg.num_actions + a]
    }

    /// The epsilon-greedy decision, with the randomness passed in: the drawn
    /// action when the exploration coin came up, the greedy choice
    /// otherwise.
    pub fn select_action_from(&self, state: usize, explore: bool, drawn: usize) -> (a: usize)
        requires
            self.wf(),
            state < self.cfg.num_states,
            drawn < self.cfg.num_actions,
        ensures
            a < self.cfg.num_actions,
            explore ==> a == drawn,
            !explore ==> a == spec_argmax(self.row(state as int)),
    {
        if explore {
            drawn
        } else {
            self.greedy_action(state)
        }
    }

    /// The epsilon-greedy policy: with probability `epsilon` a uniformly
    /// random action, otherwise the greedy choice. With `epsilon` zero the
    /// result is always the lowest-indexed maximal action.
    pub fn select_action(&self, state: usize, rng: &mut rand::rngs::StdRng) -> (a: usize)
        requires
            self.wf(),
            state < self.cfg.num_states,
        ensures
            a < self.cfg.num_actions,
            self.cfg.epsilon_num == 0 ==> a == spec_argmax(self.row(state as int)),
    {
        let draw = crate::rng::rng_below(rng, self.cfg.epsilon_den);
        let explore = draw < self.cfg.epsilon_num;
        let drawn = if explore {
            crate::rng::rng_below(rng, self.cfg.num_actions as u64) as usize
        } else {
            0
        };
        self.select_action_from(state, explore, drawn)
    }

    /// One temporal-difference update of the entry `(state, action)`:
    /// exactly the fixed-point rule of `spec_updated`, fed with the largest
    /// estimate of the `next_state` row; every other entry is untouched.
    pub fn update_q_value(&mut self, state: usize, action: usize, reward: u64, next_state: usize)
        requires
            old(self).wf(),
            state < old(self).cfg.num_states,
            action < old(self).cfg.num_actions,
            next_state < old(self).cfg.num_states,
            reward <= old(self).cfg.scale,
        ensures
            final(self).wf(),
            final(self).id == old(self).id,
            final(self).cfg == old(self).cfg,
            final(self).q@ == apply_update(
                old(self).cfg,
                old(self).q@,
                (UpdateRecord { state, action, reward, next_state }),
            ),
            final(self).q_at(state as int, action as int) == spec_updated(
                old(self).cfg,
                old(self).q_at(state as int, action as int),
                reward,
                spec_row_max(old(self).row(next_state as int)),
            ),
            forall|s: int, a: int|
                0 <= s < old(self).cfg.num_states && 0 <= a < old(self).cfg.num_actions
                    && !(s == state && a == action) ==> final(self).q_at(s, a) == old(self).q_at(
                    s,
                    a,
                ),
    {
        let m = self.best_value(next_state);
        let ghost cfg = self.cfg;
        proof {
            lemma_flat_index_in_table(cfg, state as int, action as int);
            let gn = cfg.gamma_num as int;
            let gd = cfg.gamma_den as int;
            let qb = cfg.q_bound as int;
            assert(gn * m <= gn * qb) by (nonlinear_arith)
                requires
                    0 <= gn,
                    m <= qb,
            ;
            lemma_div_is_ordered(gn * m, gn * qb, gd);
            lemma_div_pos_is_pos(gn * m, gd);
        }
        let discounted = (self.cfg.gamma_num * m) / self.cfg.gamma_den;
        let target = reward + discounted;
        let idx = state * self.cfg.num_actions + action;
        let q0 = self.q[idx];
        proof {
            let an = cfg.alpha_num as int;
            let ad = cfg.alpha_den as int;
            let qb = cfg.q_bound as int;
            assert(0 <= (ad - an) * q0 + an * target <= ad * qb) by (nonlinear_arith)
                requires
                    0 < an <= ad,
                    0 <= q0 <= qb,
                    0 <= target <= qb,
            ;
            lemma_updated_in_bounds(cfg, q0, reward, m);
        }
        let numerator = (self.cfg.alpha_den - self.cfg.alpha_num) * q0 + self.cfg.alpha_num
            * target;
        let new_q = numerator / self.cfg.alpha_den;
        self.q[idx] = new_q;
        proof {
            let rec = UpdateRecord { state, action, reward, next_state };
            assert(self.q@ =~= apply_update(cfg, old(self).q@, rec));
            assert forall|s: int, a: int|
                0 <= s < cfg.num_states && 0 <= a < cfg.num_actions && !(s == state && a
                    == action) implies self.q_at(s, a) == old(self).q_at(s, a) by {
                lemma_flat_index_in_table(cfg, s, a);
                lemma_flat_index_injective(cfg, s, a, state as int, action as int);
            }
        }
    }
}

/// The trace is a faithful episode history: every record's next state and
/// reward are what the environment transition function returns for that
/// record's state and action, and consecutive records chain — each starts in
/// the state the previous one reached.
pub open spec fn trace_follows_env(cfg: SimConfig, tr: Seq<UpdateRecord>) -> bool {
    &&& forall|i: int|
        0 <= i < tr.len() ==> (#[trigger] tr[i]).next_state == spec_next_state(
            cfg,
            tr[i].state as int,
            tr[i].action as int,
        )
    &&& forall|i: int|
        0 <= i < tr.len() ==> (#[trigger] tr[i]).reward == spec_reward(
            cfg,
            tr[i].next_state as int,
        )
    &&& forall|i: int| 1 <= i < tr.len() ==> (#[trigger] tr[i]).state == tr[i - 1].next_state
}

/// Every action of the trace is the greedy choice — the lowest-indexed
/// maximal action — against the table as it stood when that action was
/// taken: the fold of the records before it over the starting table `q0`.
pub open spec fn trace_follows_greedy(cfg: SimConfig, q0: Seq<u64>, tr: Seq<UpdateRecord>) -> bool {
    forall|i: int|
        0 <= i < tr.len() ==> (#[trigger] tr[i]).action as int == spec_argmax(
            table_row(apply_all(cfg, q0, tr.take(i)), cfg, tr[i].state as int),
        )
}

/// The message an agent publishes after applying an update record: an agent
/// advances to the next state before publishing, so the resulting state and
/// the next state coincide.
pub open spec fn transition_of(id: usize, r: UpdateRecord) -> Transition {
    Transition {
        agent_id: id,
        resulting_state: r.next_state,
        reward: r.reward,
        next_state: r.next_state,
    }
}

impl Agent {
    /// One worker's whole run, from a random start state: `num_episodes`
    /// iterations of select -> environment step -> update -> advance ->
    /// publish -> drain. The returned ghost trace lists the updates the
    /// agent applied to itself, and the contract ties everything to it: the
    /// trace is a faithful episode history of the environment (rewards and
    /// next states from the transition function, states chained), with
    /// exploration off every action is the greedy choice against the table
    /// as it then stood, the final table is the fold of exactly those
    /// updates over the starting table — the run of any other agent cannot
    /// be reflected in it — and the bus's sent log grows by exactly this
    /// agent's transitions, in episode order.
    #[verifier::loop_isolation(false)]
    pub fn run(&mut self, bus: &mut TransitionBus, rng: &mut rand::rngs::StdRng) -> (trace: Ghost<
        Seq<UpdateRecord>,
    >)
        requires
            old(self).wf(),
            old(bus).wf(),
            old(bus).spec_len() == 0,
        ensures
            final(self).wf(),
            final(self).id == old(self).id,
            final(self).cfg == old(self).cfg,
            final(bus).wf(),
            final(bus).capacity == old(bus).capacity,
            final(bus).spec_len() == 0,
            trace@.len() == old(self).cfg.num_episodes,
            forall|i: int|
                0 <= i < trace@.len() ==> record_in_range(old(self).cfg, trace@[i]),
            trace_follows_env(old(self).cfg, trace@),
            old(self).cfg.epsilon_num == 0 ==> trace_follows_greedy(
                old(self).cfg,
                old(self).q@,
                trace@,
            ),
            final(self).q@ == apply_all(old(self).cfg, old(self).q@, trace@),
            final(bus).sent@.len() == old(bus).sent@.len() + old(self).cfg.num_episodes,
            final(bus).sent@.take(old(bus).sent@.len() as int) == old(bus).sent@,
            forall|i: int|
                0 <= i < trace@.len() ==> final(bus).sent@[old(bus).sent@.len() + i]
                    == transition_of(old(self).id, trace@[i]),
            final(bus).received@ == final(bus).sent@,
    {
        let ghost q_init = self.q@;
        let ghost mut trace: Seq<UpdateRecord> = Seq::empty();
        let mut state = crate::rng::rng_below(rng, self.cfg.num_states as u64) as usize;
        let mut ep: usize = 0;
        proof {
            assert(bus.sent@.take(old(bus).sent@.len() as int) =~= old(bus).sent@);
        }
        while ep < self.cfg.num_episodes
            invariant
                self.wf(),
                self.id == old(self).id,
                self.cfg == old(self).cfg,
                state < self.cfg.num_states,
                bus.wf(),
                bus.capacity == old(bus).capacity,
                bus.spec_len() == 0,
                ep <= self.cfg.num_episodes,
                trace.len() == ep,
                forall|i: int| 0 <= i < trace.len() ==> record_in_range(self.cfg, trace[i]),
                trace_follows_env(self.cfg, trace),
                self.cfg.epsilon_num == 0 ==> trace_follows_greedy(self.cfg, q_init, trace),
                trace.len() > 0 ==> state == trace.last().next_state,
                self.q@ == apply_all(self.cfg, q_init, trace),
                bus.sent@.len() == old(bus).sent@.len() + ep,
                bus.sent@.take(old(bus).sent@.len() as int) == old(bus).sent@,
                forall|i: int|
                    0 <= i < trace.len() ==> bus.sent@[old(bus).sent@.len() + i] == transition_of(
                        self.id,
                        trace[i],
                    ),
                bus.received@ == bus.sent@,
            decreases self.cfg.num_episodes - ep,
        {
            let ghost trace_before = trace;
            let ghost sent_before = bus.sent@;
            let ghost q_before = self.q@;
            let action = self.select_action(state, rng);
            let (next_state, reward) = crate::env::step(self.cfg, state, action);
            self.update_q_value(state, action, reward, next_state);
            proof {
                let rec = UpdateRecord { state, action, reward, next_state };
                trace = trace.push(rec);
                assert(trace.drop_last() =~= trace_before);
                assert(self.q@ == apply_all(self.cfg, q_init, trace));
                assert forall|i: int| 1 <= i < trace.len() implies (#[trigger] trace[i]).state
                    == trace[i - 1].next_state by {
                    if i < trace.len() - 1 {
                        assert(trace[i] == trace_before[i]);
                        assert(trace[i - 1] == trace_before[i - 1]);
                    }
                }
                if self.cfg.epsilon_num == 0 {
                    assert forall|i: int|
                        0 <= i < trace.len() implies (#[trigger] trace[i]).action as int
                        == spec_argmax(
                        table_row(
                            apply_all(self.cfg, q_init, trace.take(i)),
                            self.cfg,
                            trace[i].state as int,
                        ),
                    ) by {
                        assert(trace.take(i) =~= trace_before.take(i));
                        if i == trace.len() - 1 {
                            assert(trace.take(i) =~= trace_before);
                            assert(apply_all(self.cfg, q_init, trace_before) == q_before);
                        } else {
                            assert(trace[i] == trace_before[i]);
                        }
                    }
                }
            }
            state = next_state;
            let t = Transition {
                agent_id: self.id,
                resulting_state: state,
                reward,
                next_state,
            };
            let ok = bus.send(t);
            assert(ok);
            proof {
                assert(bus.sent@.take(old(bus).sent@.len() as int) =~= sent_before.take(
                    old(bus).sent@.len() as int,
                ));
            }
            let ghost sent_snapshot = bus.sent@;
            while bus.len() > 0
                invariant
                    bus.wf(),
                    bus.capacity == old(bus).capacity,
                    bus.sent@ == sent_snapshot,
                decreases bus.spec_len(),
            {
                let _drained = bus.try_receive();
            }
            proof {
                assert(bus.received@ =~= bus.sent@);
            }
            ep = ep + 1;
        }
        Ghost(trace)
    }
}

/// Law: when both fixed-point divisions are exact, one update is exactly the
/// temporal-difference rule in rational arithmetic: the new estimate `q1`
/// satisfies
/// `alpha_den * gamma_den * q1
///  == alpha_den * gamma_den * q0
///     + alpha_num * (gamma_den * reward + gamma_num * m - gamma_den * q0)`,
/// which is `q1 == q0 + alpha * (reward + gamma * m - q0)` with
/// `alpha = alpha_num / alpha_den` and `gamma = gamma_num / gamma_den`.
pub proof fn lemma_update_exact(cfg: SimConfig, q0: u64, reward: u64, m: u64)
    requires
        cfg.valid(),
        q0 <= cfg.q_bound,
        m <= cfg.q_bound,
        reward <= cfg.scale,
        (cfg.gamma_num * m) as int % (cfg.gamma_den as int) == 0,
        ((cfg.alpha_den - cfg.alpha_num) * q0 + cfg.alpha_num * (reward + (cfg.gamma_num * m) as int
            / (cfg.gamma_den as int))) % (cfg.alpha_den as int) == 0,
    ensures
        cfg.alpha_den * cfg.gamma_den * spec_updated(cfg, q0, reward, m) == cfg.alpha_den
            * cfg.gamma_den * q0 + cfg.alpha_num * (cfg.gamma_den * reward + cfg.gamma_num * m
            - cfg.gamma_den * q0),
{
    let an = cfg.alpha_num as int;
    let ad = cfg.alpha_den as int;
    let gn = cfg.gamma_num as int;
    let gd = cfg.gamma_den as int;
    let dm = gn * m / gd;
    lemma_fundamental_div_mod(gn * (m as int), gd);
    assert(gn * m == gd * dm);
    let target = reward + dm;
    let numerator = (ad - an) * q0 + an * target;
    let q1 = numerator / ad;
    lemma_fundamental_div_mod(numerator, ad);
    assert(numerator == ad * q1);
    assert(spec_updated(cfg, q0, reward, m) == q1);
    let t_r = gd * reward;
    let t_m = gn * (m as int);
    let t_q = gd * (q0 as int);
    assert(gd * (ad * q1) == gd * ((ad - an) * q0) + gd * (an * reward) + an * (gd * dm))
        by (nonlinear_arith)
        requires
            (ad - an) * q0 + an * (reward + dm) == ad * q1,
    ;
    assert(an * (gd * dm) == an * t_m) by (nonlinear_arith)
        requires
            t_m == gd * dm,
    ;
    assert(an * (t_r + t_m - t_q) == an * t_r + an * t_m - an * t_q) by (nonlinear_arith);
    assert(gd * ((ad - an) * q0) == ad * t_q - an * t_q) by (nonlinear_arith)
        requires
            t_q == gd * (q0 as int),
    ;
    assert(gd * (an * reward) == an * t_r) by (nonlinear_arith)
        requires
            t_r == gd * (reward as int),
    ;
    assert(gd * (ad * q1) == ad * gd * q1) by (nonlinear_arith);
    assert(ad * gd * q0 == ad * t_q) by (nonlinear_arith)
        requires
            t_q == gd * (q0 as int),
    ;
    assert(ad * gd * q1 == ad * gd * q0 + an * (t_r + t_m - t_q));
}


} // verus!
