//! The rules of an agent that reads code and prepares interviews: what it says
//! to the model, which tools it has and what they accept, how its conversations
//! are kept, shortened and shown, and how a team of agents works together.
pub mod agents;
pub mod ask;
pub mod cli;
pub mod compact;
pub mod config;
pub mod encoding;
pub mod json;
pub mod keyed;
pub mod llm;
pub mod order;
pub mod paths;
pub mod patterns;
pub mod runtime;
pub mod text;
pub mod tools;
pub mod web;

pub use tools::builtins::build_registry;
