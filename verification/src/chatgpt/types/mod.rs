//! Message, reply and session types of the chat-completions API.
pub mod request;
pub mod sessions;
pub mod response;
pub mod session_laws;
