//! A black-box test oracle: rules that generate and check the lines of a
//! line-oriented conversation with a program, and the decisions that drive
//! repeated trials of a rule script against that program.

pub mod chance;
pub mod decimal;
pub mod text;
pub mod rules;
pub mod synth;
pub mod syntax;
pub mod worker_thread;
pub mod rule_data;
pub mod communicator;
pub mod run_manager;
pub mod rule_panel;
