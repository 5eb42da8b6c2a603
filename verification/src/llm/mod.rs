pub mod cache;
pub mod openai;
pub mod session;
pub mod usage;
