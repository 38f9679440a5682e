//! The agent core: folding streams, logs and commands into run state.
pub mod agent;
pub mod assembler;
pub mod assembly_laws;
pub mod context;
pub mod eval;
pub mod eval_laws;
pub mod history_laws;
pub mod prompt_laws;
pub mod replay;
pub mod replay_laws;
pub mod skills;
pub mod testing;
pub mod trailer;
pub mod trajectory;
pub mod weight_laws;
pub mod wire;
