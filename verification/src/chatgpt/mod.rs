//! The OpenAI side: chat messages, the session that keeps them, the replies of
//! the API and the framing of its event stream.
pub mod ask;
pub mod utils;
pub mod types;
