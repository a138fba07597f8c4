//! The ChatGPT client: its HTTP client, credentials, model and request options.
use super::types::request::{ChatMessage, MessageView, Role, ToolDefinition};
use super::types::sessions::Session;
use super::utils::{json_merged, merge_json};
use crate::foreign::{
    build_http_client, client_timeout, duration_of_secs, entries_view, json_array, json_array_of,
    json_set, json_with_field, json_bool, json_bool_of, json_object, json_object_of,
    json_string, json_string_of,
};
use reqwest::Client;
use serde_json::Value;
use std::time::Duration;
use vstd::prelude::*;

verus! {

/// The endpoint of the chat-completions API.
pub const BASE_URL: &'static str = "https://api.openai.com/v1/chat/completions";

/// A client of the chat-completions API.
#[derive(Clone, Debug)]
pub struct ChatGpt {
    client: Client,
    api_key: String,
    model: String,
    sys_prompt: Option<ChatMessage>,
    generation_config: Option<Value>,
    tools: Option<Vec<ToolDefinition>>,
    response_format: Option<Value>,
}

/// The abstract value of a client.
pub struct ChatGptView {
    pub client: Client,
    pub api_key: Seq<char>,
    pub model: Seq<char>,
    pub sys_prompt: Option<ChatMessage>,
    pub generation_config: Option<Value>,
    pub tools: Option<Vec<ToolDefinition>>,
    pub response_format: Option<Value>,
}

impl View for ChatGpt {
    type V = ChatGptView;

    closed spec fn view(&self) -> ChatGptView {
        ChatGptView {
            client: self.client,
            api_key: self.api_key@,
            model: self.model@,
            sys_prompt: self.sys_prompt,
            generation_config: self.generation_config,
            tools: self.tools,
            response_format: self.response_format,
        }
    }
}

/// The system message made of `prompt`, if there is one.
pub open spec fn system_message(prompt: Option<Seq<char>>) -> Option<MessageView> {
    match prompt {
        Some(p) => Some(MessageView { role: Role::System, content: p, name: None, tool_call_id: None }),
        None => None,
    }
}

/// The response format that asks for replies in JSON following `schema`:
/// `{"type": "json_schema", "json_schema": {"name": "response", "schema": schema,
/// "strict": true}}`.
pub open spec fn json_mode_format(schema: Value) -> Value {
    json_object_of(
        seq![
            ("type"@, json_string_of("json_schema"@)),
            (
                "json_schema"@,
                json_object_of(
                    seq![
                        ("name"@, json_string_of("response"@)),
                        ("schema"@, schema),
                        ("strict"@, json_bool_of(true)),
                    ],
                ),
            ),
        ],
    )
}

/// The body of a request with the messages `messages` (as JSON): the model
/// and the messages, the generation options merged in, then the tools, the
/// response format and, for a stream, `"stream": true`, each where set.
pub open spec fn request_body(gpt: ChatGptView, messages: Value, stream: bool) -> Value {
    let base = json_object_of(seq![("model"@, json_string_of(gpt.model)), ("messages"@, messages)]);
    let with_config = match gpt.generation_config {
        Some(g) => json_merged(base, g),
        None => base,
    };
    let with_tools = match gpt.tools {
        Some(t) => json_with_field(with_config, "tools"@, json_array_of(t@)),
        None => with_config,
    };
    let with_format = match gpt.response_format {
        Some(f) => json_with_field(with_tools, "response_format"@, f),
        None => with_tools,
    };
    if stream {
        json_with_field(with_format, "stream"@, json_bool_of(true))
    } else {
        with_format
    }
}

/// The optional text as characters.
pub open spec fn opt_chars(s: Option<String>) -> Option<Seq<char>> {
    match s {
        Some(t) => Some(t@),
        None => None,
    }
}

/// The view of an optional message.
pub open spec fn opt_message(m: Option<ChatMessage>) -> Option<MessageView> {
    match m {
        Some(x) => Some(x@),
        None => None,
    }
}

impl ChatGpt {
    fn system_prompt_message(sys_prompt: Option<String>) -> (r: Option<ChatMessage>)
        ensures
            opt_message(r) == system_message(opt_chars(sys_prompt)),
    {
        match sys_prompt {
            Some(prompt) => Some(ChatMessage::new(Role::System, prompt, None, None)),
            None => None,
        }
    }

    /// A client with a 60 second timeout, no options set, and `sys_prompt`, if
    /// given, as system message.
    pub fn new(api_key: String, model: String, sys_prompt: Option<String>) -> (r: ChatGpt)
        ensures
            client_timeout(r@.client) == duration_of_secs(60),
            r@.api_key == api_key@,
            r@.model == model@,
            opt_message(r@.sys_prompt) == system_message(opt_chars(sys_prompt)),
            r@.generation_config.is_none(),
            r@.tools.is_none(),
            r@.response_format.is_none(),
    {
        ChatGpt {
            client: build_http_client(Duration::from_secs(60)),
            api_key,
            model,
            sys_prompt: Self::system_prompt_message(sys_prompt),
            generation_config: None,
            tools: None,
            response_format: None,
        }
    }

    /// As `new`, with requests timing out after `api_timeout`.
    pub fn new_with_timeout(
        api_key: String,
        model: String,
        sys_prompt: Option<String>,
        api_timeout: Duration,
    ) -> (r: ChatGpt)
        ensures
            client_timeout(r@.client) == api_timeout,
            r@.api_key == api_key@,
            r@.model == model@,
            opt_message(r@.sys_prompt) == system_message(opt_chars(sys_prompt)),
            r@.generation_config.is_none(),
            r@.tools.is_none(),
            r@.response_format.is_none(),
    {
        ChatGpt {
            client: build_http_client(api_timeout),
            api_key,
            model,
            sys_prompt: Self::system_prompt_message(sys_prompt),
            generation_config: None,
            tools: None,
            response_format: None,
        }
    }

    /// The generation options merged into each request, to edit; an empty JSON
    /// object is put in place first when there are none.
    pub fn set_generation_config(&mut self) -> (r: &mut Value)
        ensures
            old(self)@.generation_config matches Some(g) ==> *r == g,
            old(self)@.generation_config is None ==> *r == json_object_of(Seq::empty()),
            final(self)@ == (ChatGptView { generation_config: Some(*final(r)), ..old(self)@ }),
    {
        if self.generation_config.is_none() {
            let entries: Vec<(String, Value)> = Vec::new();
            assert(entries_view(entries@) =~= Seq::empty());
            self.generation_config = Some(json_object(entries));
        }
        self.generation_config.as_mut().unwrap()
    }

    pub fn set_model(self, model: String) -> (r: ChatGpt)
        ensures
            r@ == (ChatGptView { model: model@, ..self@ }),
    {
        let mut s = self;
        s.model = model;
        s
    }

    pub fn set_sys_prompt(self, sys_prompt: Option<String>) -> (r: ChatGpt)
        ensures
            opt_message(r@.sys_prompt) == system_message(opt_chars(sys_prompt)),
            r@ == (ChatGptView { sys_prompt: r@.sys_prompt, ..self@ }),
    {
        let mut s = self;
        s.sys_prompt = Self::system_prompt_message(sys_prompt);
        s
    }

    pub fn set_api_key(self, api_key: String) -> (r: ChatGpt)
        ensures
            r@ == (ChatGptView { api_key: api_key@, ..self@ }),
    {
        let mut s = self;
        s.api_key = api_key;
        s
    }

    /// Asks for replies in JSON that follow `schema` (in the OpenAI JSON schema
    /// format): sets the response format
    /// `{"type": "json_schema", "json_schema": {"name": "response", "schema":
    /// schema, "strict": true}}`.
    pub fn set_json_mode(self, schema: Value) -> (r: ChatGpt)
        ensures
            r@ == (ChatGptView { response_format: Some(json_mode_format(schema)), ..self@ }),
    {
        let ghost schema_value = schema;
        let inner = vec![
            ("name".to_owned(), json_string("response")),
            ("schema".to_owned(), schema),
            ("strict".to_owned(), json_bool(true)),
        ];
        assert(entries_view(inner@) =~= seq![
            ("name"@, json_string_of("response"@)),
            ("schema"@, schema_value),
            ("strict"@, json_bool_of(true)),
        ]);
        let json_schema = json_object(inner);
        let outer = vec![
            ("type".to_owned(), json_string("json_schema")),
            ("json_schema".to_owned(), json_schema),
        ];
        assert(entries_view(outer@) =~= seq![
            ("type"@, json_string_of("json_schema"@)),
            ("json_schema"@, json_schema),
        ]);
        let format = json_object(outer);
        let mut s = self;
        s.response_format = Some(format);
        s
    }

    pub fn unset_json_mode(self) -> (r: ChatGpt)
        ensures
            r@ == (ChatGptView { response_format: None, ..self@ }),
    {
        let mut s = self;
        s.response_format = None;
        s
    }

    pub fn set_tools(self, tools: Vec<ToolDefinition>) -> (r: ChatGpt)
        ensures
            r@ == (ChatGptView { tools: Some(tools), ..self@ }),
    {
        let mut s = self;
        s.tools = Some(tools);
        s
    }

    pub fn unset_tools(self) -> (r: ChatGpt)
        ensures
            r@ == (ChatGptView { tools: None, ..self@ }),
    {
        let mut s = self;
        s.tools = None;
        s
    }

    pub fn client(&self) -> (r: &Client)
        ensures
            *r == self@.client,
    {
        &self.client
    }

    pub fn api_key(&self) -> (r: &String)
        ensures
            r@ == self@.api_key,
    {
        &self.api_key
    }

    pub fn model(&self) -> (r: &String)
        ensures
            r@ == self@.model,
    {
        &self.model
    }

    pub fn generation_config(&self) -> (r: &Option<Value>)
        ensures
            *r == self@.generation_config,
    {
        &self.generation_config
    }

    pub fn tools(&self) -> (r: &Option<Vec<ToolDefinition>>)
        ensures
            *r == self@.tools,
    {
        &self.tools
    }

    pub fn response_format(&self) -> (r: &Option<Value>)
        ensures
            *r == self@.response_format,
    {
        &self.response_format
    }

    /// The body of a request whose messages (from `build_messages`) are
    /// `messages` as JSON; `stream` asks for a streamed reply.
    pub fn build_body(&self, messages: Value, stream: bool) -> (r: Value)
        ensures
            r == request_body(self@, messages, stream),
    {
        let ghost msgs = messages;
        let entries = vec![
            ("model".to_owned(), json_string(self.model.as_str())),
            ("messages".to_owned(), messages),
        ];
        assert(entries_view(entries@) =~= seq![
            ("model"@, json_string_of(self@.model)),
            ("messages"@, msgs),
        ]);
        let mut body = json_object(entries);
        match &self.generation_config {
            Some(gen_config) => merge_json(&mut body, gen_config),
            None => {},
        }
        match &self.tools {
            Some(tools) => {
                let items = tools.clone();
                assert(items@ =~= tools@);
                json_set(&mut body, "tools", json_array(items));
            },
            None => {},
        }
        match &self.response_format {
            Some(response_format) => json_set(&mut body, "response_format", response_format.clone()),
            None => {},
        }
        if stream {
            json_set(&mut body, "stream", json_bool(true));
        }
        body
    }

    /// The messages of a request: the system message, if any, then the history.
    pub fn build_messages(&self, session: &Session) -> (r: Vec<ChatMessage>)
        ensures
            r@ == (match self@.sys_prompt {
                Some(m) => seq![m],
                None => Seq::empty(),
            }) + session.messages(),
    {
        let mut messages: Vec<ChatMessage> = Vec::new();
        match &self.sys_prompt {
            Some(sys_prompt) => messages.push(sys_prompt.copied()),
            None => {},
        }
        let mut history = session.get_history_cloned();
        messages.append(&mut history);
        messages
    }
}

/// A streamed request's body is the non-streamed body with `"stream": true`
/// set, and nothing else changed: the tools, the response format and the
/// generation options are sent either way.
pub proof fn law_stream_body_adds_only_stream(gpt: ChatGptView, messages: Value)
    ensures
        request_body(gpt, messages, true) == json_with_field(
            request_body(gpt, messages, false),
            "stream"@,
            json_bool_of(true),
        ),
{
}

/// A client with tools sends them with every request: the body (before the
/// response format and the stream flag are set) is the body of the same client
/// without tools, with `"tools"` set to the array of the tools.
pub proof fn law_tools_are_sent(gpt: ChatGptView, messages: Value, tools: Vec<ToolDefinition>)
    requires
        gpt.tools == Some(tools),
        gpt.response_format is None,
    ensures
        request_body(gpt, messages, false) == json_with_field(
            request_body(ChatGptView { tools: None, ..gpt }, messages, false),
            "tools"@,
            json_array_of(tools@),
        ),
        request_body(gpt, messages, true) == json_with_field(
            json_with_field(
                request_body(ChatGptView { tools: None, ..gpt }, messages, false),
                "tools"@,
                json_array_of(tools@),
            ),
            "stream"@,
            json_bool_of(true),
        ),
{
}

} // verus!
