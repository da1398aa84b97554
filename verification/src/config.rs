//! Simulation configuration and its startup validation.
//!
//! Learning rates are exact rationals `num / den`; Q-values and rewards are
//! fixed-point integers counting units of `1 / scale`. A misconfigured
//! parameter is reported by `validate` before any table is built, so no
//! out-of-range access or arithmetic overflow can occur later.

use vstd::prelude::*;

verus! {

/// Configuration of one simulation run: the sizes of the state and action
/// spaces, the learning parameters as rationals, the fixed-point scale, a
/// bound the Q-values never exceed, and the runtime shape (agents, episodes,
/// bus capacity).
#[derive(Clone, Copy, Debug)]
pub struct SimConfig {
    /// Number of states of the Markov decision process; states are `0 .. num_states`.
    pub num_states: usize,
    /// Number of actions available in every state; actions are `0 .. num_actions`.
    pub num_actions: usize,
    /// Number of independent agents the scheduler runs.
    pub num_agents: usize,
    /// Episode budget of each agent.
    pub num_episodes: usize,
    /// Capacity of the shared transition bus.
    pub bus_capacity: usize,
    /// Learning rate numerator; `alpha = alpha_num / alpha_den`, in `(0, 1]`.
    pub alpha_num: u64,
    /// Learning rate denominator.
    pub alpha_den: u64,
    /// Discount factor numerator; `gamma = gamma_num / gamma_den`, in `[0, 1]`.
    pub gamma_num: u64,
    /// Discount factor denominator.
    pub gamma_den: u64,
    /// Exploration rate numerator; `epsilon = epsilon_num / epsilon_den`, in `[0, 1]`.
    pub epsilon_num: u64,
    /// Exploration rate denominator.
    pub epsilon_den: u64,
    /// Fixed-point unit: the stored integer `scale` stands for the real value 1.
    pub scale: u64,
    /// Upper bound every Q-value is proved to stay under; also bounds rewards
    /// fed into an update.
    pub q_bound: u64,
}

/// A fatal configuration error found by startup validation.
#[derive(Clone, Copy, Debug, PartialEq, Eq, Structural)]
pub enum ConfigError {
    /// A parameter that must be positive is zero.
    ZeroParameter,
    /// A rate numerator exceeds its denominator (the rate would exceed 1).
    RateOutOfRange,
    /// The Q-table would not fit in the address space.
    TableTooLarge,
    /// A fixed-point product could overflow the machine integer width.
    ArithmeticOverflow,
    /// `q_bound` does not absorb one update step: a target value
    /// `scale + gamma * q_bound` could exceed the bound.
    QBoundTooSmall,
}

impl SimConfig {
    /// No parameter that must be positive is zero.
    pub open spec fn positive(self) -> bool {
        &&& 1 <= self.num_states
        &&& 1 <= self.num_actions
        &&& 1 <= self.num_agents
        &&& 1 <= self.num_episodes
        &&& 1 <= self.bus_capacity
        &&& 1 <= self.scale
        &&& 1 <= self.q_bound
        &&& 1 <= self.alpha_num
        &&& 1 <= self.alpha_den
        &&& 1 <= self.gamma_den
        &&& 1 <= self.epsilon_den
    }

    /// Each rate is at most 1.
    pub open spec fn rates_in_range(self) -> bool {
        &&& self.alpha_num <= self.alpha_den
        &&& self.gamma_num <= self.gamma_den
        &&& self.epsilon_num <= self.epsilon_den
    }

    /// The dense `num_states * num_actions` table is addressable.
    pub open spec fn table_fits(self) -> bool {
        &&& self.num_states + self.num_actions <= usize::MAX
        &&& self.num_states * self.num_actions <= usize::MAX
    }

    /// The products formed by one update step fit in 64 bits.
    pub open spec fn products_fit(self) -> bool {
        &&& self.alpha_den * self.q_bound <= u64::MAX
        &&& self.gamma_num * self.q_bound <= u64::MAX
    }

    /// One update step keeps values under `q_bound`: the largest possible
    /// target, a full reward plus the discounted largest value, is no more
    /// than the bound.
    pub open spec fn bound_absorbs_update(self) -> bool {
        self.scale + (self.gamma_num * self.q_bound) as int / self.gamma_den as int
            <= self.q_bound
    }

    /// A configuration on which the simulation is well defined and free of
    /// overflow.
    pub open spec fn valid(self) -> bool {
        &&& self.positive()
        &&& self.rates_in_range()
        &&& self.table_fits()
        &&& self.products_fit()
        &&& self.bound_absorbs_update()
    }

    /// Startup validation: reports the first violated requirement, checking
    /// positivity, then rate ranges, then table size, then overflow room,
    /// then the bound condition.
    pub fn validate(&self) -> (r: Result<(), ConfigError>)
        ensures
            r is Ok <==> self.valid(),
            r == Err::<(), ConfigError>(ConfigError::ZeroParameter) <==> !self.positive(),
            r == Err::<(), ConfigError>(ConfigError::RateOutOfRange)
                <==> self.positive() && !self.rates_in_range(),
            r == Err::<(), ConfigError>(ConfigError::TableTooLarge)
                <==> self.positive() && self.rates_in_range() && !self.table_fits(),
            r == Err::<(), ConfigError>(ConfigError::ArithmeticOverflow)
                <==> self.positive() && self.rates_in_range() && self.table_fits()
                    && !self.products_fit(),
            r == Err::<(), ConfigError>(ConfigError::QBoundTooSmall)
                <==> self.positive() && self.rates_in_range() && self.table_fits()
                    && self.products_fit() && !self.bound_absorbs_update(),
    {
        if self.num_states == 0 || self.num_actions == 0 || self.num_agents == 0
            || self.num_episodes == 0 || self.bus_capacity == 0 || self.scale == 0
            || self.q_bound == 0 || self.alpha_num == 0 || self.alpha_den == 0
            || self.gamma_den == 0 || self.epsilon_den == 0 {
            return Err(ConfigError::ZeroParameter);
        }
        if self.alpha_num > self.alpha_den || self.gamma_num > self.gamma_den
            || self.epsilon_num > self.epsilon_den {
            return Err(ConfigError::RateOutOfRange);
        }
        if self.num_states.checked_add(self.num_actions).is_none()
            || self.num_states.checked_mul(self.num_actions).is_none() {
            return Err(ConfigError::TableTooLarge);
        }
        if self.alpha_den.checked_mul(self.q_bound).is_none()
            || self.gamma_num.checked_mul(self.q_bound).is_none() {
            return Err(ConfigError::ArithmeticOverflow);
        }
        let discounted_bound: u64 = (self.gamma_num * self.q_bound) / self.gamma_den;
        match self.scale.checked_add(discounted_bound) {
            None => Err(ConfigError::QBoundTooSmall),
            Some(target_bound) => {
                if target_bound > self.q_bound {
                    Err(ConfigError::QBoundTooSmall)
                } else {
                    Ok(())
                }
            },
        }
    }
}

/// Configuration of the function-approximation learner variant, whose model
/// itself is supplied by an outside collaborator offering `forward` and
/// `train` operations; only its layer sizes are part of this library.
#[derive(Clone, Copy, Debug, PartialEq, Eq, Structural)]
pub struct AgentConfig {
    /// Width of the input layer.
    pub input_size: i64,
    /// Width of the hidden layer.
    pub hidden_size: i64,
    /// Width of the output layer.
    pub output_size: i64,
}

impl AgentConfig {
    /// Every layer has at least one unit.
    pub open spec fn valid(self) -> bool {
        0 < self.input_size && 0 < self.hidden_size && 0 < self.output_size
    }

    /// Whether every layer size is positive.
    pub fn is_valid(&self) -> (r: bool)
        ensures
            r <==> self.valid(),
    {
        0 < self.input_size && 0 < self.hidden_size && 0 < self.output_size
    }
}

} // verus!
