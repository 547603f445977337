//! Interactive planner that splits a view into named groups of nodes.

pub mod label_laws;
pub mod labels;
pub mod names;
pub mod planner;
pub mod planner_call_laws;
pub mod planner_laws;
pub mod planner_rules;
