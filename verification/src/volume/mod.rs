//! Replicated volumes: identities, descriptors and the control state of one generation.

pub mod block_sizes;
pub mod command_laws;
pub mod control_laws;
pub mod control_rules;
pub mod control_state;
pub mod copies;
pub mod descriptor;
pub mod descriptor_laws;
pub mod identity;
