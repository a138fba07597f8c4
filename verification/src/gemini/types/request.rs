//! Parts and chats of a Gemini conversation.
use serde_json::Value;
use vstd::prelude::*;

verus! {

/// Who produced a chat.
#[derive(Debug, Clone, Copy, PartialEq, Eq, Structural)]
pub enum Role {
    User,
    Model,
    Function,
}

/// A file handed to the model inline, as base64 with its MIME type.
#[derive(Debug, Clone)]
pub struct InlineData {
    pub mime_type: String,
    pub data: String,
}

impl InlineData {
    pub fn new(mime_type: String, data: String) -> (r: InlineData)
        ensures
            r == (InlineData { mime_type, data }),
    {
        InlineData { mime_type, data }
    }

    pub fn mime_type(&self) -> (r: &String)
        ensures
            *r == self.mime_type,
    {
        &self.mime_type
    }

    pub fn data(&self) -> (r: &String)
        ensures
            *r == self.data,
    {
        &self.data
    }
}

/// A call of a function that the model asks for.
#[derive(Debug, Clone)]
pub struct FunctionCall {
    pub name: String,
    pub args: Option<Value>,
}

impl FunctionCall {
    pub fn new(name: String, args: Option<Value>) -> (r: FunctionCall)
        ensures
            r == (FunctionCall { name, args }),
    {
        FunctionCall { name, args }
    }

    pub fn name(&self) -> (r: &String)
        ensures
            *r == self.name,
    {
        &self.name
    }

    pub fn args(&self) -> (r: &Option<Value>)
        ensures
            *r == self.args,
    {
        &self.args
    }
}

/// What a function returned, sent back to the model.
#[derive(Debug, Clone)]
pub struct FunctionResponse {
    pub name: String,
    pub response: Value,
}

impl FunctionResponse {
    pub fn new(name: String, response: Value) -> (r: FunctionResponse)
        ensures
            r == (FunctionResponse { name, response }),
    {
        FunctionResponse { name, response }
    }

    pub fn name(&self) -> (r: &String)
        ensures
            *r == self.name,
    {
        &self.name
    }

    pub fn response(&self) -> (r: &Value)
        ensures
            *r == self.response,
    {
        &self.response
    }
}

/// The content that one part carries.
#[derive(Debug, Clone)]
pub enum PartType {
    Text(String),
    InlineData(InlineData),
    FunctionCall(FunctionCall),
    FunctionResponse(FunctionResponse),
}

/// One piece of a chat.
#[derive(Debug, Clone)]
pub struct Part {
    pub data: PartType,
}

impl Part {
    pub fn new(data: PartType) -> (r: Part)
        ensures
            r == (Part { data }),
    {
        Part { data }
    }

    /// A text part holding a copy of `text`.
    pub fn from_text(text: &str) -> (r: Part)
        ensures
            r.data matches PartType::Text(t) && t@ == text@,
    {
        Part { data: PartType::Text(text.to_owned()) }
    }

    pub fn data(&self) -> (r: &PartType)
        ensures
            *r == self.data,
    {
        &self.data
    }

    pub fn is_function_call(&self) -> (r: bool)
        ensures
            r == self.spec_is_function_call(),
    {
        match &self.data {
            PartType::FunctionCall(_) => true,
            _ => false,
        }
    }

    pub open spec fn spec_is_function_call(&self) -> bool {
        self.data is FunctionCall
    }
}

/// The abstract value of a chat: its role and the sequence of its parts.
pub struct ChatView {
    pub role: Role,
    pub parts: Seq<Part>,
}

/// A message of one role, made of parts.
#[derive(Debug, Clone)]
pub struct Chat {
    pub role: Role,
    pub parts: Vec<Part>,
}

impl View for Chat {
    type V = ChatView;

    open spec fn view(&self) -> ChatView {
        ChatView { role: self.role, parts: self.parts@ }
    }
}

/// Whether some part of `parts` is a function call.
pub open spec fn parts_have_function_call(parts: Seq<Part>) -> bool {
    exists|i: int| 0 <= i < parts.len() && (#[trigger] parts[i]).spec_is_function_call()
}

/// The text of the text parts of `parts`, joined by `sep`.
pub open spec fn joined_text(parts: Seq<Part>, sep: Seq<char>) -> Seq<char>
    decreases parts.len(),
{
    if parts.len() == 0 {
        Seq::empty()
    } else {
        let head = joined_text(parts.drop_last(), sep);
        match parts.last().data {
            PartType::Text(t) => if texts_before(parts.drop_last()) {
                head + sep + t@
            } else {
                t@
            },
            _ => head,
        }
    }
}

/// Whether `parts` holds at least one text part.
pub open spec fn texts_before(parts: Seq<Part>) -> bool {
    exists|i: int| 0 <= i < parts.len() && (#[trigger] parts[i]).data is Text
}

/// Parts without any text part join to the empty text.
proof fn lemma_joined_text_without_texts(parts: Seq<Part>, sep: Seq<char>)
    requires
        !texts_before(parts),
    ensures
        joined_text(parts, sep) == Seq::<char>::empty(),
    decreases parts.len(),
{
    if parts.len() > 0 {
        let init = parts.drop_last();
        assert forall|j: int| 0 <= j < init.len() implies (#[trigger] init[j]).data !is Text by {
            assert(init[j] == parts[j]);
        }
        lemma_joined_text_without_texts(init, sep);
        assert(parts[parts.len() - 1].data !is Text);
    }
}

impl ChatView {
    pub open spec fn has_function_call(self) -> bool {
        parts_have_function_call(self.parts)
    }
}

impl Chat {
    pub fn new(role: Role, parts: Vec<Part>) -> (r: Chat)
        ensures
            r == (Chat { role, parts }),
    {
        Chat { role, parts }
    }

    pub fn role(&self) -> (r: &Role)
        ensures
            *r == self.role,
    {
        &self.role
    }

    pub fn parts(&self) -> (r: &Vec<Part>)
        ensures
            *r == self.parts,
    {
        &self.parts
    }

    pub fn parts_mut(&mut self) -> (r: &mut Vec<Part>)
        ensures
            *r == old(self).parts,
            final(self).parts == *final(r),
            final(self).role == old(self).role,
    {
        &mut self.parts
    }

    /// Whether the chat asks for at least one function call.
    pub fn has_function_call(&self) -> (r: bool)
        ensures
            r == self@.has_function_call(),
    {
        let n = self.parts.len();
        let mut i: usize = 0;
        while i < n
            invariant
                n == self.parts@.len(),
                i <= n,
                forall|j: int| 0 <= j < i ==> !(#[trigger] self.parts@[j]).spec_is_function_call(),
            decreases n - i,
        {
            if self.parts[i].is_function_call() {
                return true;
            }
            i = i + 1;
        }
        false
    }

    /// The texts of all text parts of `parts`, joined by `sep`.
    pub fn extract_text_all(parts: &Vec<Part>, sep: &str) -> (r: String)
        ensures
            r@ == joined_text(parts@, sep@),
    {
        let mut out = String::new();
        let mut any = false;
        let n = parts.len();
        let mut i: usize = 0;
        while i < n
            invariant
                n == parts@.len(),
                i <= n,
                out@ == joined_text(parts@.take(i as int), sep@),
                any == texts_before(parts@.take(i as int)),
            decreases n - i,
        {
            let ghost pre = parts@.take(i as int);
            let ghost post = parts@.take(i + 1);
            assert(post.drop_last() =~= pre);
            assert(post.last() == parts@[i as int]);
            match &parts[i].data {
                PartType::Text(t) => {
                    let ghost before = out@;
                    proof {
                        if !any {
                            lemma_joined_text_without_texts(pre, sep@);
                        }
                    }
                    if any {
                        out.append(sep);
                    }
                    assert(any ==> out@ == before + sep@);
                    assert(!any ==> out@ == before);
                    let ts = t.as_str();
                    assert(ts@ == t@);
                    out.append(ts);
                    assert(out@ == (if any { before + sep@ + t@ } else { before + t@ }));
                    any = true;
                    assert(post[i as int].data is Text);
                    assert(joined_text(post, sep@) == (if texts_before(pre) {
                        joined_text(pre, sep@) + sep@ + t@
                    } else {
                        t@
                    }));
                    assert(out@ == joined_text(post, sep@));
                },
                _ => {
                    assert forall|j: int| 0 <= j < post.len() && (#[trigger] post[j]).data is Text
                        implies 0 <= j < pre.len() && pre[j].data is Text by {
                        assert(j != i);
                    }
                    assert(joined_text(post, sep@) == joined_text(pre, sep@));
                    assert(out@ == joined_text(post, sep@));
                },
            }
            proof {
                if texts_before(pre) {
                    let k = choose|k: int| 0 <= k < pre.len() && (#[trigger] pre[k]).data is Text;
                    assert(post[k] == pre[k]);
                }
            }
            i = i + 1;
        }
        assert(parts@.take(n as int) =~= parts@);
        out
    }

    /// The texts of all text parts of this chat, joined by `sep`.
    pub fn get_text_all(&self, sep: &str) -> (r: String)
        ensures
            r@ == joined_text(self.parts@, sep@),
    {
        Chat::extract_text_all(&self.parts, sep)
    }
}

/// Appends the parts of `updator` after those of `updating`.
pub fn concatenate_parts(updating: &mut Vec<Part>, updator: Vec<Part>)
    ensures
        final(updating)@ == old(updating)@ + updator@,
{
    let mut rest = updator;
    updating.append(&mut rest);
}

} // verus!
