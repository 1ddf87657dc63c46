//! Agents that talk to language models: requests to the providers, the reading
//! of their answers as they stream in, and the loop in which a model calls
//! tools. The library computes; what goes over the network, and the running of
//! tools, is the caller's.

pub mod agent;
pub mod headers;
pub mod json;
pub mod providers;
pub mod text;
pub mod types;
pub mod view_laws;
