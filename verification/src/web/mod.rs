pub mod error;
pub mod live;
pub mod messages;
pub mod workflow;
