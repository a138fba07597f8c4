//! Chat messages sent to and received from the chat-completions API.
use serde_json::Value;
use vstd::prelude::*;

verus! {

/// The author of a chat message.
#[derive(Debug, Clone, Copy, PartialEq, Eq, Structural)]
pub enum Role {
    System,
    User,
    Assistant,
    Tool,
}

/// The abstract value of a message: its role and texts.
pub struct MessageView {
    pub role: Role,
    pub content: Seq<char>,
    pub name: Option<Seq<char>>,
    pub tool_call_id: Option<Seq<char>>,
}

/// The characters of an optional text.
pub open spec fn opt_text(s: Option<String>) -> Option<Seq<char>> {
    match s {
        Some(t) => Some(t@),
        None => None,
    }
}

/// One message of a conversation.
#[derive(Debug, Clone)]
pub struct ChatMessage {
    pub role: Role,
    pub content: String,
    pub name: Option<String>,
    pub tool_call_id: Option<String>,
}

impl View for ChatMessage {
    type V = MessageView;

    open spec fn view(&self) -> MessageView {
        MessageView {
            role: self.role,
            content: self.content@,
            name: opt_text(self.name),
            tool_call_id: opt_text(self.tool_call_id),
        }
    }
}

/// A copy of an optional text.
pub fn copy_opt_text(s: &Option<String>) -> (r: Option<String>)
    ensures
        r == *s,
{
    match s {
        Some(t) => Some(t.clone()),
        None => None,
    }
}

impl ChatMessage {
    pub fn new(role: Role, content: String, name: Option<String>, tool_call_id: Option<String>) -> (r:
        ChatMessage)
        ensures
            r == (ChatMessage { role, content, name, tool_call_id }),
    {
        ChatMessage { role, content, name, tool_call_id }
    }

    pub fn role(&self) -> (r: &Role)
        ensures
            *r == self.role,
    {
        &self.role
    }

    pub fn content(&self) -> (r: &String)
        ensures
            *r == self.content,
    {
        &self.content
    }

    pub fn name(&self) -> (r: &Option<String>)
        ensures
            *r == self.name,
    {
        &self.name
    }

    pub fn tool_call_id(&self) -> (r: &Option<String>)
        ensures
            *r == self.tool_call_id,
    {
        &self.tool_call_id
    }

    /// Appends `text` to the content.
    pub fn append_content(&mut self, text: &str)
        ensures
            final(self)@.content == old(self)@.content + text@,
            final(self).role == old(self).role,
            final(self).name == old(self).name,
            final(self).tool_call_id == old(self).tool_call_id,
    {
        self.content.append(text);
    }

    /// A field-by-field copy of the message.
    pub fn copied(&self) -> (r: ChatMessage)
        ensures
            r == *self,
    {
        ChatMessage {
            role: self.role,
            content: self.content.clone(),
            name: copy_opt_text(&self.name),
            tool_call_id: copy_opt_text(&self.tool_call_id),
        }
    }
}

/// Wrapper for an OpenAI tool definition. The shape is user-controlled and
/// passed through to the API unchanged.
pub type ToolDefinition = Value;

} // verus!
