//! The commands of the program.
use vstd::prelude::*;

verus! {

/// Where the local server listens, and how many steps a turn may take, if
/// nothing else is said.
pub const DEFAULT_HOST: &'static str = "127.0.0.1";

pub const DEFAULT_PORT: u16 = 3000;

pub const DEFAULT_MAX_STEPS: usize = 6;

/// What the program is asked to do.
#[derive(Debug)]
pub struct Cli {
    pub command: Command,
}

/// The commands of the program.
#[derive(Debug)]
pub enum Command {
    /// Print the definitions of the tools.
    Tools,
    /// Call a tool by its name with an input in JSON.
    ToolCall { name: String, input: String },
    /// Serve the local user interface.
    Serve { host: String, port: u16, max_steps: usize },
    /// Have a prompt answered by the agent and its tools.
    Ask { prompt: String, max_steps: usize },
    /// Publish a new post.
    Publish { path: String, file: String, message: Option<String> },
    /// Change a post.
    Update { path: String, file: String, message: Option<String> },
}

} // verus!
