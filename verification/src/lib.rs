//! Predictive-coding actor-critic agents for continuous control.

pub mod activation;
pub mod arith;
pub mod coarse;
pub mod cpu;
pub mod error;
pub mod laws;
pub mod layer;
pub mod linalg;
pub mod matrix;
pub mod mixing;
pub mod mlp_critic;
pub mod naming;
pub mod pc_actor;
pub mod pc_actor_critic;
pub mod pc_model;
pub mod pc_rest;
pub mod pc_topology;
pub mod q_critic;
pub mod rng;
pub mod save_file;
pub mod scalar;
pub mod serializer;
pub mod stack;

pub use activation::Activation;
pub use cpu::CpuLinAlg;
pub use error::PcError;
pub use layer::{Layer, LayerDef};
pub use linalg::LinAlg;
pub use matrix::{Matrix, GRAD_CLIP, WEIGHT_CLIP};
pub use pc_actor::{InferResult, PcActor, PcActorConfig, SelectionMode};
pub use pc_actor_critic::agent::PcActorCritic;
pub use pc_actor_critic::config::PcActorCriticConfig;
pub use q_critic::{QCritic, QCriticConfig, QCriticWeights};
pub use serializer::{
    checkpoint_filename, load_agent, load_agent_generic, save_agent, save_checkpoint,
    AgentMetadata, PcActorWeights, SaveFile, TrainingMetrics,
};

use vstd::prelude::*;

verus! {

/// A layer in host memory.
pub type LayerCpu<A> = Layer<CpuLinAlg<A>>;

/// A predictive-coding actor in host memory.
pub type PcActorCpu<A> = PcActor<CpuLinAlg<A>>;

/// An action-value critic in host memory.
pub type QCriticCpu<A> = QCritic<CpuLinAlg<A>>;

/// An agent in host memory.
pub type PcActorCriticCpu<A> = PcActorCritic<CpuLinAlg<A>>;

} // verus!
