//! The environment transition function: a pure map from a state and an
//! action to the next state and a fixed-point reward, safe to evaluate from
//! any worker because it touches no shared state.

use vstd::prelude::*;

use crate::config::SimConfig;

verus! {

/// The state reached from `state` by taking `action`: a walk around the ring
/// of `num_states` states.
pub open spec fn spec_next_state(cfg: SimConfig, state: int, action: int) -> int {
    (state + action) % (cfg.num_states as int)
}

/// The reward earned on arriving in `next_state`: one unit (the fixed-point
/// `scale`) on the last state, nothing elsewhere.
pub open spec fn spec_reward(cfg: SimConfig, next_state: int) -> u64 {
    if next_state == cfg.num_states - 1 {
        cfg.scale
    } else {
        0u64
    }
}

/// One environment step: `next_state = (state + action) mod num_states`,
/// rewarded iff it lands on the last state.
pub fn step(cfg: SimConfig, state: usize, action: usize) -> (out: (usize, u64))
    requires
        cfg.valid(),
        state < cfg.num_states,
        action < cfg.num_actions,
    ensures
        out.0 == spec_next_state(cfg, state as int, action as int),
        out.0 < cfg.num_states,
        out.1 == spec_reward(cfg, out.0 as int),
        out.1 <= cfg.scale,
{
    let next = (state + action) % cfg.num_states;
    let reward = if next == cfg.num_states - 1 {
        cfg.scale
    } else {
        0u64
    };
    (next, reward)
}

} // verus!
