//! Message and session types of the Gemini API.
pub mod request;
pub mod sessions;
pub mod session_laws;
