//! The Gemini side: parts, chats and the session that keeps their history.
pub mod types;
pub mod files;
pub mod utils;
pub mod function_calls;
pub mod schema;
pub mod refs;
