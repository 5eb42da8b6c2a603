pub mod builtins;
pub mod github;
pub mod github_pages;
pub mod github_wiki;
pub mod glob_search;
pub mod grep_search;
pub mod mcp;
pub mod read_file;
pub mod registry;
pub mod task;
pub mod task_registry;
pub mod team;
pub mod todo_write;
pub mod web_fetch;
pub mod write_file;

pub use github_pages::github_pages_publish_handler;
pub use github_wiki::github_wiki_publish_handler;
pub use glob_search::glob_search_handler;
pub use grep_search::grep_search_handler;
pub use read_file::read_file_handler;
pub use registry::{GlobalToolRegistry, ToolAction, ToolDefinition, ToolHandler};
pub use task_registry::TaskRegistry;
pub use team::{team_tool_handlers, TeamManager};
pub use todo_write::todo_write_handler;
pub use web_fetch::web_fetch_handler;
pub use write_file::write_file_handler;
