//! The scheduler: builds one agent per slot and one shared bus, runs every
//! worker for its full episode budget, and hands back the final agents.
//!
//! Each worker owns its agent exclusively while it runs, so no agent's table
//! can reflect another's updates: the contract exhibits, per agent, the
//! trace of that agent's own updates whose fold over the all-zero table is
//! exactly its final table. Every loop carries a `decreases` measure, so a
//! call is proved to complete for every valid configuration.

use vstd::prelude::*;

use crate::agent::apply_all;
use crate::agent::record_in_range;
use crate::agent::trace_follows_env;
use crate::agent::trace_follows_greedy;
use crate::agent::Agent;
use crate::agent::UpdateRecord;
use crate::bus::TransitionBus;
use crate::config::SimConfig;

verus! {

/// The table every agent starts from: all estimates zero.
pub open spec fn zero_table(cfg: SimConfig) -> Seq<u64> {
    Seq::new((cfg.num_states * cfg.num_actions) as nat, |k: int| 0u64)
}

/// Run the whole simulation: `num_agents` fresh agents, one shared bus of
/// `bus_capacity`, each agent seeded from its own entry of `seeds` and run
/// for `num_episodes` episodes, one worker after another. Returns the final
/// agents and, per agent, the ghost trace of its own updates: each trace is
/// a faithful episode history of the environment (with exploration off,
/// every action the greedy choice against the table as it then stood), and
/// agent `i`'s final table is the fold of trace `i` alone over the zero
/// table.
pub fn run(cfg: SimConfig, seeds: &Vec<u64>) -> (out: (Vec<Agent>, Ghost<Seq<Seq<UpdateRecord>>>))
    requires
        cfg.valid(),
        seeds@.len() == cfg.num_agents,
    ensures
        out.0@.len() == cfg.num_agents,
        out.1@.len() == cfg.num_agents,
        forall|i: int|
            0 <= i < out.0@.len() ==> (#[trigger] out.0@[i]).wf() && out.0@[i].id == i
                && out.0@[i].cfg == cfg,
        forall|i: int| 0 <= i < out.1@.len() ==> (#[trigger] out.1@[i]).len() == cfg.num_episodes,
        forall|i: int, j: int|
            0 <= i < out.1@.len() && 0 <= j < out.1@[i].len() ==> record_in_range(
                cfg,
                #[trigger] out.1@[i][j],
            ),
        forall|i: int| 0 <= i < out.1@.len() ==> trace_follows_env(cfg, #[trigger] out.1@[i]),
        cfg.epsilon_num == 0 ==> forall|i: int|
            0 <= i < out.1@.len() ==> trace_follows_greedy(
                cfg,
                zero_table(cfg),
                #[trigger] out.1@[i],
            ),
        forall|i: int|
            0 <= i < out.0@.len() ==> (#[trigger] out.0@[i]).q@ == apply_all(
                cfg,
                zero_table(cfg),
                out.1@[i],
            ),
{
    let mut agents: Vec<Agent> = Vec::new();
    let mut i: usize = 0;
    while i < cfg.num_agents
        invariant
            cfg.valid(),
            i <= cfg.num_agents,
            agents@.len() == i,
            forall|k: int|
                0 <= k < agents@.len() ==> (#[trigger] agents@[k]).wf() && agents@[k].id == k
                    && agents@[k].cfg == cfg && agents@[k].q@ == zero_table(cfg),
        decreases cfg.num_agents - i,
    {
        let a = Agent::new(i, cfg);
        proof {
            assert(a.q@ =~= zero_table(cfg));
        }
        agents.push(a);
        i = i + 1;
    }
    let mut bus = TransitionBus::new(cfg.bus_capacity);
    let mut done: Vec<Agent> = Vec::new();
    let ghost mut traces: Seq<Seq<UpdateRecord>> = Seq::empty();
    let mut j: usize = 0;
    while j < cfg.num_agents
        invariant
            cfg.valid(),
            seeds@.len() == cfg.num_agents,
            j <= cfg.num_agents,
            done@.len() == j,
            traces.len() == j,
            agents@.len() == cfg.num_agents - j,
            forall|k: int|
                0 <= k < agents@.len() ==> (#[trigger] agents@[k]).wf() && agents@[k].id == j + k
                    && agents@[k].cfg == cfg && agents@[k].q@ == zero_table(cfg),
            forall|k: int|
                0 <= k < done@.len() ==> (#[trigger] done@[k]).wf() && done@[k].id == k
                    && done@[k].cfg == cfg,
            forall|k: int| 0 <= k < traces.len() ==> (#[trigger] traces[k]).len()
                == cfg.num_episodes,
            forall|k: int, l: int|
                0 <= k < traces.len() && 0 <= l < traces[k].len() ==> record_in_range(
                    cfg,
                    #[trigger] traces[k][l],
                ),
            forall|k: int| 0 <= k < traces.len() ==> trace_follows_env(cfg, #[trigger] traces[k]),
            cfg.epsilon_num == 0 ==> forall|k: int|
                0 <= k < traces.len() ==> trace_follows_greedy(
                    cfg,
                    zero_table(cfg),
                    #[trigger] traces[k],
                ),
            forall|k: int|
                0 <= k < done@.len() ==> (#[trigger] done@[k]).q@ == apply_all(
                    cfg,
                    zero_table(cfg),
                    traces[k],
                ),
            bus.wf(),
            bus.spec_len() == 0,
        decreases cfg.num_agents - j,
    {
        let ghost agents_before = agents@;
        let mut a = agents.remove(0);
        proof {
            assert(agents@ =~= agents_before.drop_first());
        }
        let mut worker_rng = crate::rng::rng_from_seed(seeds[j]);
        let tr = a.run(&mut bus, &mut worker_rng);
        done.push(a);
        proof {
            traces = traces.push(tr@);
        }
        j = j + 1;
    }
    (done, Ghost(traces))
}

} // verus!
