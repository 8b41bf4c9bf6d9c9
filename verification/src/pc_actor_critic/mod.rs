//! The integrated agent.

pub mod agent;
pub mod config;
pub mod distillation;
pub mod fisher;
pub mod learning;
pub mod plasticity;
pub mod policy;
pub mod replay;
pub mod sac;
pub mod stepping;

pub use agent::{PcActorCritic, DEFAULT_ROLLBACK_HARD_COOLDOWN};
pub use config::{ActionSpace, PcActorCriticConfig};
pub use fisher::FisherState;
pub use plasticity::{EwmaTracker, HysteresisState, PlasticityState};
pub use replay::{Action, ReplayBuffer, ReplayTransition};
