//! Replicated storage logic of Mantissa: mergeable registers and their store,
//! volume control state, the local replica catalog, block-driver decisions and
//! the interactive split planner.

pub mod bytes;
pub mod catalog;
pub mod driver;
pub mod store;
pub mod text;
pub mod text_laws;
pub mod ui;
pub mod volume;
