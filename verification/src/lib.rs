//! A multi-agent tabular Q-learning simulation.
//!
//! Several independent learners each own a fixed-size Q-table over a bounded
//! state and action space, improve it by temporal-difference updates, and
//! publish every observed transition onto a shared bounded FIFO bus.
//! Q-value estimates are fixed-point numbers: an integer count of units of
//! `1 / scale`, where `scale` is chosen by the configuration.

mod agent;
mod bus;
mod config;
mod env;
mod rng;
mod sched;

pub use agent::Agent;
pub use agent::UpdateRecord;
pub use bus::Transition;
pub use bus::TransitionBus;
pub use config::AgentConfig;
pub use config::ConfigError;
pub use config::SimConfig;
pub use env::step;
pub use sched::run;
