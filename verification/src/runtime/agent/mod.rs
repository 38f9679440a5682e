//! The agent loop's decisions, as synchronous steps: the wiring performs what
//! they ask for and hands back what came of it.
pub mod dispatch;
pub mod ending;
pub mod failure;
pub mod failure_laws;
pub mod fold;
pub mod fold_laws;
pub mod gate;
pub mod gate_laws;
pub mod growth;
pub mod inbox;
pub mod inbox_laws;
pub mod ledger;
pub mod outcome;
pub mod record_laws;
pub mod results;
pub mod run;
pub mod session;
pub mod step_laws;
pub mod success;
pub mod tool;
pub mod watching;
