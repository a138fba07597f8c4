//! The history of a Gemini conversation, kept within a sliding window.
use super::request::{concatenate_parts, Chat, ChatView, FunctionResponse, Part, PartType, Role};
use crate::foreign::{
    entries_view, json_is_object, json_object, json_object_of, json_value_is_object,
};
use crate::deque::{deque_back_mut, deque_get_mut};
use serde_json::Value;
use std::collections::VecDeque;
use vstd::prelude::*;

verus! {

/// Why a function response could not be added to a session.
#[derive(Debug)]
pub enum AddFunctionResponseError {
    /// The response could not be turned into JSON.
    InvalidResponseFormat(serde_json::Error),
    /// A function response must follow a model prompt and cannot come first.
    FunctionResponseAfterUser,
}

/// The abstract value of a session.
pub struct SessionView {
    pub history: Seq<ChatView>,
    pub history_limit: nat,
    pub chat_no: nat,
    pub remember_reply: bool,
}

/// Whether a chat of `role` is merged into the last chat of `h`.
pub open spec fn merges_into_last(h: Seq<ChatView>, role: Role) -> bool {
    h.len() > 0 && h.last().role == role
}

/// A function chat cannot follow a user chat.
pub open spec fn function_after_user(h: Seq<ChatView>, role: Role) -> bool {
    h.len() > 0 && h.last().role == Role::User && role == Role::Function
}

/// A function chat cannot open the history.
pub open spec fn function_first(h: Seq<ChatView>, role: Role) -> bool {
    h.len() == 0 && role == Role::Function
}

/// The value stored for a function's `response`: the response itself when it is
/// a JSON object, else `{"result": response}`.
pub open spec fn function_response_value(response: Value) -> Value {
    if json_value_is_object(response) {
        response
    } else {
        json_object_of(seq![("result"@, response)])
    }
}

/// Whether `add_chat` refuses a chat of `role` on history `h`.
pub open spec fn add_chat_refused(h: Seq<ChatView>, role: Role) -> bool {
    function_after_user(h, role) || function_first(h, role)
}

/// Whether `add_chat` appends a chat of `role` as a new entry (and counts it).
pub open spec fn add_chat_pushes(h: Seq<ChatView>, role: Role) -> bool {
    !merges_into_last(h, role) && !add_chat_refused(h, role)
}

/// Whether a chat may not stand first in the history: a function response, or a
/// model reply that asks for function calls.
pub open spec fn dangling_at_front(c: ChatView) -> bool {
    c.role == Role::Function || (c.role == Role::Model && c.has_function_call())
}

/// Drops chats from the front while they may not stand first.
pub open spec fn trim_front(h: Seq<ChatView>) -> Seq<ChatView>
    decreases h.len(),
{
    if h.len() > 0 && dangling_at_front(h[0]) {
        trim_front(h.drop_first())
    } else {
        h
    }
}

/// The history after a chat was appended: the oldest chat leaves when the limit
/// is passed, then those that may not stand first.
pub open spec fn window(pushed: Seq<ChatView>, limit: nat) -> Seq<ChatView> {
    if pushed.len() > limit {
        trim_front(pushed.drop_first())
    } else {
        pushed
    }
}

/// The session after an accepted `add_chat` of `c`.
pub open spec fn spec_add_chat(s: SessionView, c: ChatView) -> SessionView {
    if merges_into_last(s.history, c.role) {
        let last = s.history.last();
        SessionView {
            history: s.history.update(
                s.history.len() - 1,
                ChatView { role: last.role, parts: last.parts + c.parts },
            ),
            history_limit: s.history_limit,
            chat_no: s.chat_no,
            remember_reply: s.remember_reply,
        }
    } else {
        SessionView {
            history: window(s.history.push(c), s.history_limit),
            history_limit: s.history_limit,
            chat_no: s.chat_no + 1,
            remember_reply: s.remember_reply,
        }
    }
}

/// The session after `update` with a model reply of `parts`.
pub open spec fn spec_update(s: SessionView, parts: Seq<Part>) -> SessionView {
    if s.remember_reply {
        spec_add_chat(s, ChatView { role: Role::Model, parts })
    } else if s.history.len() > 0 && s.history.last().role == Role::User {
        SessionView {
            history: s.history.drop_last(),
            history_limit: s.history_limit,
            chat_no: s.chat_no,
            remember_reply: s.remember_reply,
        }
    } else {
        s
    }
}

/// The history after `forget_last_conversation`: the last chat goes, and when it
/// is a model reply, the user prompt just before it goes too.
pub open spec fn spec_forget_last_conversation(h: Seq<ChatView>) -> Seq<ChatView> {
    let n = h.len();
    if n == 0 {
        h
    } else if n >= 2 && h[n - 1].role == Role::Model && h[n - 2].role == Role::User {
        h.take(n - 2)
    } else {
        h.take(n - 1)
    }
}

/// The chats at `i` and `i + 1` differ in role, and the second is no function
/// response to a user prompt.
pub open spec fn neighbours_ok_at(h: Seq<ChatView>, i: int) -> bool {
    &&& h[i].role != h[i + 1].role
    &&& !(h[i].role == Role::User && h[i + 1].role == Role::Function)
}

impl SessionView {
    /// The history respects the window and the order the API expects: it holds at
    /// most `history_limit` chats, neighbours differ in role, a function response
    /// neither comes first nor follows a user prompt.
    pub open spec fn wf(self) -> bool {
        &&& self.history.len() <= self.history_limit
        &&& forall|i: int| 0 <= i < self.history.len() - 1 ==> #[trigger] neighbours_ok_at(self.history, i)
        &&& self.history.len() > 0 ==> self.history[0].role != Role::Function
    }
}

/// Manages the conversation history and configuration for a Gemini session.
///
/// A `Session` tracks the sequence of `Chat` messages (user prompts and model
/// replies) and enforces a history limit to manage token usage.
#[derive(Debug, Clone)]
pub struct Session {
    history: VecDeque<Chat>,
    history_limit: usize,
    chat_no: usize,
    remember_reply: bool,
}

impl Default for Session {
    /// An empty session with limit 0 that does not remember replies, as the
    /// derived default of the fields gives it.
    fn default() -> (r: Session)
        ensures
            r@.history == Seq::<ChatView>::empty(),
            r@.history_limit == 0,
            r@.chat_no == 0,
            !r@.remember_reply,
    {
        let r = Session { history: VecDeque::new(), history_limit: 0, chat_no: 0, remember_reply: false };
        assert(r.history@.map_values(|c: Chat| c@) =~= Seq::<ChatView>::empty());
        r
    }
}

impl View for Session {
    type V = SessionView;

    open spec fn view(&self) -> SessionView {
        SessionView {
            history: self.chats().map_values(|c: Chat| c@),
            history_limit: self.limit() as nat,
            chat_no: self.count() as nat,
            remember_reply: self.remembers(),
        }
    }
}

impl Session {
    /// The chats of the history, oldest first.
    pub closed spec fn chats(&self) -> Seq<Chat> {
        self.history@
    }

    pub closed spec fn limit(&self) -> usize {
        self.history_limit
    }

    pub closed spec fn count(&self) -> usize {
        self.chat_no
    }

    pub closed spec fn remembers(&self) -> bool {
        self.remember_reply
    }

    /// Creates a new `Session` keeping at most `history_limit` chats; a sliding
    /// window drops the oldest ones, and after an insertion it may drop several
    /// so that the history stays valid for the API.
    ///
    /// `Session::new(2)` can store only the last question and its reply.
    pub fn new(history_limit: usize) -> (r: Session)
        ensures
            r@.history == Seq::<ChatView>::empty(),
            r@.history_limit == history_limit,
            r@.chat_no == 0,
            r@.remember_reply,
            r@.wf(),
    {
        let r = Session { history: VecDeque::new(), history_limit, chat_no: 0, remember_reply: true };
        assert(r.history@.map_values(|c: Chat| c@) =~= Seq::<ChatView>::empty());
        r
    }

    /// Set to false to stop automatic context storing.
    pub fn set_remember_reply(self, remember: bool) -> (r: Session)
        ensures
            r@ == (SessionView { remember_reply: remember, ..self@ }),
            r.chats() == self.chats(),
    {
        let mut s = self;
        s.remember_reply = remember;
        s
    }

    pub fn get_history_limit(&self) -> (r: usize)
        ensures
            r == self@.history_limit,
    {
        self.history_limit
    }

    pub fn get_history_as_vecdeque(&self) -> (r: &VecDeque<Chat>)
        ensures
            r@ == self.chats(),
    {
        &self.history
    }

    fn get_history_as_vecdeque_mut(&mut self) -> (r: &mut VecDeque<Chat>)
        ensures
            *r == old(self).history,
            final(self).history == *final(r),
            final(self).history_limit == old(self).history_limit,
            final(self).chat_no == old(self).chat_no,
            final(self).remember_reply == old(self).remember_reply,
    {
        &mut self.history
    }

    /// Count of all the chats of any role.
    pub fn get_chat_no(&self) -> (r: usize)
        ensures
            r == self@.chat_no,
    {
        self.chat_no
    }

    pub fn get_history(&self) -> (r: Vec<&Chat>)
        ensures
            r@.len() == self.chats().len(),
            forall|i: int| 0 <= i < r@.len() ==> *(#[trigger] r@[i]) == self.chats()[i],
    {
        let mut out: Vec<&Chat> = Vec::new();
        let n = self.history.len();
        let mut i: usize = 0;
        while i < n
            invariant
                n == self.history@.len(),
                i <= n,
                out@.len() == i,
                forall|j: int| 0 <= j < i ==> *(#[trigger] out@[j]) == self.history@[j],
            decreases n - i,
        {
            out.push(&self.history[i]);
            i = i + 1;
        }
        out
    }

    pub fn get_history_owned(self) -> (r: VecDeque<Chat>)
        ensures
            r@ == self.chats(),
    {
        self.history
    }

    pub fn get_history_length(&self) -> (r: usize)
        ensures
            r == self@.history.len(),
    {
        self.history.len()
    }

    /// The parts of the `chat_previous_no`-th last chat: 1 is the last chat, 2
    /// the one before it.
    pub fn get_parts_mut(&mut self, chat_previous_no: usize) -> (r: Option<&mut Vec<Part>>)
        requires
            chat_previous_no > 0,
        ensures
            chat_previous_no > old(self).chats().len() ==> r.is_none() && final(self).chats()
                == old(self).chats(),
            chat_previous_no <= old(self).chats().len() ==> {
                let k = old(self).chats().len() - chat_previous_no;
                &&& r.is_some()
                &&& *r.unwrap() == old(self).chats()[k].parts
                &&& final(self).chats() == old(self).chats().update(
                    k,
                    Chat { role: old(self).chats()[k].role, parts: *final(r.unwrap()) },
                )
            },
            final(self).limit() == old(self).limit(),
            final(self).count() == old(self).count(),
            final(self).remembers() == old(self).remembers(),
    {
        let chat_no = self.history.len().checked_sub(chat_previous_no)?;
        match deque_get_mut(&mut self.history, chat_no) {
            Some(chat) => Some(chat.parts_mut()),
            None => None,
        }
    }

    /// Use `get_previous_chat()` instead.
    pub fn get_parts(&self, chat_previous_no: usize) -> (r: Option<&Vec<Part>>)
        requires
            chat_previous_no > 0,
        ensures
            chat_previous_no > self.chats().len() ==> r.is_none(),
            chat_previous_no <= self.chats().len() ==> r.is_some() && *r.unwrap()
                == self.chats()[self.chats().len() - chat_previous_no].parts,
    {
        let chat_no = self.history.len().checked_sub(chat_previous_no)?;
        Some(self.history[chat_no].parts())
    }

    /// The `chat_previous_no`-th last chat: 1 is the last chat, 2 the one before.
    pub fn get_previous_chat(&self, chat_previous_no: usize) -> (r: Option<&Chat>)
        ensures
            (1 <= chat_previous_no <= self.chats().len()) ==> r.is_some() && *r.unwrap()
                == self.chats()[self.chats().len() - chat_previous_no],
            !(1 <= chat_previous_no <= self.chats().len()) ==> r.is_none(),
    {
        let chat_no = self.history.len().checked_sub(chat_previous_no)?;
        if chat_no < self.history.len() {
            Some(&self.history[chat_no])
        } else {
            None
        }
    }

    /// The `chat_previous_no`-th last chat, to modify: 1 is the last chat.
    pub fn get_previous_chat_mut(&mut self, chat_previous_no: usize) -> (r: Option<&mut Chat>)
        ensures
            (1 <= chat_previous_no <= old(self).chats().len()) ==> {
                let k = old(self).chats().len() - chat_previous_no;
                &&& r.is_some()
                &&& *r.unwrap() == old(self).chats()[k]
                &&& final(self).chats() == old(self).chats().update(k, *final(r.unwrap()))
            },
            !(1 <= chat_previous_no <= old(self).chats().len()) ==> r.is_none()
                && final(self).chats() == old(self).chats(),
            final(self).limit() == old(self).limit(),
            final(self).count() == old(self).count(),
            final(self).remembers() == old(self).remembers(),
    {
        let chat_no = match self.history.len().checked_sub(chat_previous_no) {
            Some(k) => k,
            None => return None,
        };
        deque_get_mut(&mut self.history, chat_no)
    }

    /// The parts of the chat at position `chat_no`, counted from the oldest.
    pub fn get_parts_no_mut(&mut self, chat_no: usize) -> (r: Option<&mut Vec<Part>>)
        ensures
            chat_no >= old(self).chats().len() ==> r.is_none() && final(self).chats()
                == old(self).chats(),
            chat_no < old(self).chats().len() ==> {
                &&& r.is_some()
                &&& *r.unwrap() == old(self).chats()[chat_no as int].parts
                &&& final(self).chats() == old(self).chats().update(
                    chat_no as int,
                    Chat { role: old(self).chats()[chat_no as int].role, parts: *final(r.unwrap()) },
                )
            },
            final(self).limit() == old(self).limit(),
            final(self).count() == old(self).count(),
            final(self).remembers() == old(self).remembers(),
    {
        match deque_get_mut(self.get_history_as_vecdeque_mut(), chat_no) {
            Some(chat) => Some(chat.parts_mut()),
            None => None,
        }
    }

    /// The parts of the chat at position `chat_no`, counted from the oldest.
    pub fn get_parts_no(&self, chat_no: usize) -> (r: Option<&Vec<Part>>)
        ensures
            chat_no >= self.chats().len() ==> r.is_none(),
            chat_no < self.chats().len() ==> r.is_some() && *r.unwrap()
                == self.chats()[chat_no as int].parts,
    {
        if chat_no < self.history.len() {
            Some(self.history[chat_no].parts())
        } else {
            None
        }
    }

    pub fn get_remember_reply(&self) -> (r: bool)
        ensures
            r == self@.remember_reply,
    {
        self.remember_reply
    }

    /// Appends `chat` to the history. A chat of the same role as the last one is
    /// merged into it; a function response is refused first and after a user
    /// prompt. When the limit is passed the oldest chat leaves, and then every
    /// chat at the front that may not open a history.
    pub fn add_chat(&mut self, chat: Chat) -> (r: Result<&mut Self, &'static str>)
        requires
            add_chat_pushes(old(self)@.history, chat.role) ==> old(self)@.chat_no < usize::MAX,
        ensures
            match r {
                Ok(s) => {
                    &&& !add_chat_refused(old(self)@.history, chat.role)
                    &&& s@ == spec_add_chat(old(self)@, chat@)
                    &&& final(s)@ == final(self)@
                },
                Err(e) => {
                    &&& add_chat_refused(old(self)@.history, chat.role)
                    &&& function_after_user(old(self)@.history, chat.role) ==> e@
                        == "Role::Function not allowed after Role::User"@
                    &&& function_first(old(self)@.history, chat.role) ==> e@
                        == "Role::Function cannot be first"@
                    &&& *final(self) == *old(self)
                },
            },
    {
        let ghost old_view = self@;
        let len = self.history.len();
        if len > 0 {
            let last_role = self.history[len - 1].role;
            if last_role == chat.role {
                match deque_back_mut(self.get_history_as_vecdeque_mut()) {
                    Some(last_chat) => {
                        concatenate_parts(last_chat.parts_mut(), chat.parts);
                    },
                    None => {},
                }
                proof {
                    let h = old_view.history;
                    assert(self@.history =~= h.update(
                        h.len() - 1,
                        ChatView { role: h.last().role, parts: h.last().parts + chat@.parts },
                    ));
                }
                return Ok(self);
            } else if last_role == Role::User && chat.role == Role::Function {
                return Err("Role::Function not allowed after Role::User");
            }
        } else if chat.role == Role::Function {
            return Err("Role::Function cannot be first");
        }
        let ghost chat_view = chat@;
        self.history.push_back(chat);
        self.chat_no = self.chat_no + 1;
        assert(self@.history =~= old_view.history.push(chat_view));
        if self.history.len() > self.history_limit {
            let ghost pushed = self@.history;
            self.history.pop_front();
            assert(self@.history =~= pushed.drop_first());
            self.trim_dangling_front();
        }
        Ok(self)
    }

    /// Pops chats from the front while they may not open a history.
    fn trim_dangling_front(&mut self)
        ensures
            final(self)@ == (SessionView { history: trim_front(old(self)@.history), ..old(self)@ }),
    {
        while self.history.len() > 0
            invariant
                trim_front(self@.history) == trim_front(old(self)@.history),
                self.history_limit == old(self).history_limit,
                self.chat_no == old(self).chat_no,
                self.remember_reply == old(self).remember_reply,
            ensures
                self@.history == trim_front(old(self)@.history),
                self.history_limit == old(self).history_limit,
                self.chat_no == old(self).chat_no,
                self.remember_reply == old(self).remember_reply,
            decreases self.history@.len(),
        {
            let front = &self.history[0];
            let dangling = match front.role {
                Role::Function => true,
                Role::Model => front.has_function_call(),
                Role::User => false,
            };
            if !dangling {
                assert(self@.history[0] == front@);
                return;
            }
            let ghost before = self@.history;
            assert(before[0] == front@);
            self.history.pop_front();
            assert(self@.history =~= before.drop_first());
        }
    }

    /// If `ask_parts` is called more than once without passing through
    /// `gemini.ask(&mut session)` or `session.reply(..)`, the parts are
    /// concatenated with the previous parts.
    pub fn ask_parts(&mut self, parts: Vec<Part>) -> (r: &mut Self)
        requires
            add_chat_pushes(old(self)@.history, Role::User) ==> old(self)@.chat_no < usize::MAX,
        ensures
            r@ == spec_add_chat(old(self)@, ChatView { role: Role::User, parts: parts@ }),
            final(r)@ == final(self)@,
    {
        let ghost chat_view = ChatView { role: Role::User, parts: parts@ };
        let chat = Chat::new(Role::User, parts);
        assert(chat@ == chat_view);
        let added = self.add_chat(chat);
        match added {
            Ok(_) => {},
            Err(_) => {
                assert(false);
            },
        }
        self
    }

    /// Adds one user part; see `ask_parts`.
    pub fn ask(&mut self, part: Part) -> (r: &mut Self)
        requires
            add_chat_pushes(old(self)@.history, Role::User) ==> old(self)@.chat_no < usize::MAX,
        ensures
            r@ == spec_add_chat(old(self)@, ChatView { role: Role::User, parts: seq![part] }),
            final(r)@ == final(self)@,
    {
        let parts = vec![part];
        assert(parts@ =~= seq![part]);
        self.ask_parts(parts)
    }

    /// Appends a model prompt to the session history. If called several times
    /// without an intervening user prompt, the prompts are concatenated.
    pub fn reply_parts(&mut self, parts: Vec<Part>) -> (r: &mut Self)
        requires
            add_chat_pushes(old(self)@.history, Role::Model) ==> old(self)@.chat_no < usize::MAX,
        ensures
            r@ == spec_add_chat(old(self)@, ChatView { role: Role::Model, parts: parts@ }),
            final(r)@ == final(self)@,
    {
        let ghost chat_view = ChatView { role: Role::Model, parts: parts@ };
        let chat = Chat::new(Role::Model, parts);
        assert(chat@ == chat_view);
        let added = self.add_chat(chat);
        match added {
            Ok(_) => {},
            Err(_) => {
                assert(false);
            },
        }
        self
    }

    /// Appends one model part; see `reply_parts`.
    pub fn reply(&mut self, part: Part) -> (r: &mut Self)
        requires
            add_chat_pushes(old(self)@.history, Role::Model) ==> old(self)@.chat_no < usize::MAX,
        ensures
            r@ == spec_add_chat(old(self)@, ChatView { role: Role::Model, parts: seq![part] }),
            final(r)@ == final(self)@,
    {
        let parts = vec![part];
        assert(parts@ =~= seq![part]);
        self.reply_parts(parts)
    }

    /// Adds a function response as a `Role::Function` chat, typically after the
    /// model asked for a function call. A response that is no JSON object is
    /// wrapped as `{"result": response}`.
    ///
    /// Fails with `FunctionResponseAfterUser` when the history is empty or ends
    /// with a user prompt.
    pub fn add_function_response(&mut self, name: String, response: Value) -> (r: Result<
        &mut Self,
        AddFunctionResponseError,
    >)
        requires
            add_chat_pushes(old(self)@.history, Role::Function) ==> old(self)@.chat_no
                < usize::MAX,
        ensures
            match r {
                Ok(s) => {
                    &&& !add_chat_refused(old(self)@.history, Role::Function)
                    &&& s@ == spec_add_chat(
                            old(self)@,
                            ChatView {
                                role: Role::Function,
                                parts: seq![
                                    Part {
                                        data: PartType::FunctionResponse(
                                            FunctionResponse {
                                                name,
                                                response: function_response_value(response),
                                            },
                                        ),
                                    },
                                ],
                            },
                        )
                    &&& final(s)@ == final(self)@
                },
                Err(e) => {
                    &&& add_chat_refused(old(self)@.history, Role::Function)
                    &&& e is FunctionResponseAfterUser
                    &&& *final(self) == *old(self)
                },
            },
    {
        let ghost given = response;
        let final_res = if json_is_object(&response) {
            response
        } else {
            let key: String = "result".to_owned();
            let entries = vec![(key, response)];
            assert(entries_view(entries@) =~= seq![("result"@, given)]);
            json_object(entries)
        };
        let part = Part::new(PartType::FunctionResponse(FunctionResponse::new(name, final_res)));
        let parts = vec![part];
        let chat = Chat::new(Role::Function, parts);
        proof {
            assert(parts@ =~= seq![part]);
        }
        let refused = self.add_chat(chat).is_err();
        if refused {
            return Err(AddFunctionResponseError::FunctionResponseAfterUser);
        }
        Ok(self)
    }

    /// Records the model's reply: with `remember_reply` the reply is appended as a
    /// model chat and `true` is returned; without it, a trailing user prompt is
    /// dropped and `false` is returned.
    pub fn update(&mut self, reply_parts: Vec<Part>) -> (r: bool)
        requires
            old(self)@.remember_reply && add_chat_pushes(old(self)@.history, Role::Model)
                ==> old(self)@.chat_no < usize::MAX,
        ensures
            r == old(self)@.remember_reply,
            final(self)@ == spec_update(old(self)@, reply_parts@),
    {
        if self.remember_reply {
            self.reply_parts(reply_parts);
            true
        } else {
            let len = self.history.len();
            if len > 0 && self.history[len - 1].role == Role::User {
                let ghost before = self@.history;
                self.history.pop_back();
                assert(self@.history =~= before.drop_last());
            }
            false
        }
    }

    pub fn get_last_chat(&self) -> (r: Option<&Chat>)
        ensures
            self.chats().len() == 0 ==> r.is_none(),
            self.chats().len() > 0 ==> r.is_some() && *r.unwrap() == self.chats().last(),
    {
        let len = self.history.len();
        if len > 0 {
            Some(&self.history[len - 1])
        } else {
            None
        }
    }

    pub fn get_last_chat_mut(&mut self) -> (r: Option<&mut Chat>)
        ensures
            old(self).chats().len() == 0 ==> r.is_none() && final(self).chats()
                == old(self).chats(),
            old(self).chats().len() > 0 ==> {
                &&& r.is_some()
                &&& *r.unwrap() == old(self).chats().last()
                &&& final(self).chats() == old(self).chats().update(
                    old(self).chats().len() - 1,
                    *final(r.unwrap()),
                )
            },
            final(self).limit() == old(self).limit(),
            final(self).count() == old(self).count(),
            final(self).remembers() == old(self).remembers(),
    {
        deque_back_mut(&mut self.history)
    }

    /// If the last chat is of `Role::User` or `Role::Function` then only that is
    /// removed, else the model reply and the user prompt just before it are
    /// removed. Returns the popped chats as `(last_chat, second_last_chat)`.
    pub fn forget_last_conversation(&mut self) -> (r: (Option<Chat>, Option<Chat>))
        ensures
            ({
                let h = old(self).chats();
                let n = h.len();
                if n == 0 {
                    r == (None::<Chat>, None::<Chat>) && final(self).chats() == h
                } else if n >= 2 && h[n - 1].role == Role::Model && h[n - 2].role == Role::User {
                    r == (Some(h[n - 1]), Some(h[n - 2])) && final(self).chats() == h.take(n - 2)
                } else {
                    r == (Some(h[n - 1]), None::<Chat>) && final(self).chats() == h.take(n - 1)
                }
            }),
            final(self)@.history == spec_forget_last_conversation(old(self)@.history),
            final(self).limit() == old(self).limit(),
            final(self).count() == old(self).count(),
            final(self).remembers() == old(self).remembers(),
    {
        let ghost h = self.history@;
        let last = self.history.pop_back();
        let last_is_model = match &last {
            Some(chat) => chat.role == Role::Model,
            None => false,
        };
        let len = self.history.len();
        if last_is_model && len > 0 && self.history[len - 1].role == Role::User {
            let second = self.history.pop_back();
            assert(self.history@ =~= h.take(h.len() - 2));
            return (last, second);
        }
        proof {
            if h.len() > 0 {
                assert(self.history@ =~= h.take(h.len() - 1));
            }
        }
        (last, None)
    }

    pub fn remove_last_chat(&mut self) -> (r: Option<Chat>)
        ensures
            old(self).chats().len() == 0 ==> r.is_none() && final(self).chats()
                == old(self).chats(),
            old(self).chats().len() > 0 ==> r == Some(old(self).chats().last())
                && final(self).chats() == old(self).chats().drop_last(),
            final(self)@ == (SessionView {
                history: if old(self)@.history.len() > 0 {
                    old(self)@.history.drop_last()
                } else {
                    old(self)@.history
                },
                ..old(self)@
            }),
    {
        let ghost before = self@.history;
        let r = self.history.pop_back();
        proof {
            if before.len() > 0 {
                assert(self@.history =~= before.drop_last());
            } else {
                assert(self@.history =~= before);
            }
        }
        r
    }
}

} // verus!
