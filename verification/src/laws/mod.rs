//! What the operations of the library do, in terms of what goes in and what comes
//! out.

pub mod actor_update;
pub mod configs;
pub mod consolidation;
pub mod critics;
pub mod fresh;
pub mod host;
pub mod inference;
pub mod layers;
pub mod learning;
pub mod memory;
pub mod names;
pub mod numbers;
pub mod policy;
pub mod sac;
pub mod saving;
pub mod stepping;
pub mod surprise;
