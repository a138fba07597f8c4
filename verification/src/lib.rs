//! Conversation state, message models and stream framing for chat-completion
//! style LLM clients (OpenAI ChatGPT and Google Gemini), verified with Verus.
use vstd::prelude::*;

pub mod foreign;
pub mod chatgpt;
pub mod gemini;
pub mod deque;
pub mod text;

verus! {
}
