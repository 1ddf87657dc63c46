//! The agent: it asks a model, runs the tools that the model calls, and goes on
//! until the model is done.

pub mod agent_loop;
pub mod debug;
pub mod laws;
pub mod step_laws;
pub mod types;
