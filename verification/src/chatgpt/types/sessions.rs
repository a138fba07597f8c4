//! The history of a ChatGPT conversation, kept within a sliding window.
use super::request::{ChatMessage, MessageView, Role};
use super::response::{choice_text, ChatGptResponse, ChatGptStreamChunk, ChoiceDelta};
use crate::deque::deque_back_mut;
use std::collections::VecDeque;
use vstd::prelude::*;

verus! {

/// The abstract value of a session.
pub struct SessionView {
    pub history: Seq<MessageView>,
    pub history_limit: nat,
    pub chat_no: nat,
    pub remember_reply: bool,
}

/// Whether a message of `role` is merged into the last message of `h`.
pub open spec fn merges_into_last(h: Seq<MessageView>, role: Role) -> bool {
    h.len() > 0 && h.last().role == role
}

/// The session after adding `m`: a message of the same role as the last one is
/// appended to it; another one becomes a new entry, counted, and the oldest
/// message leaves when the limit is passed.
pub open spec fn spec_add_chat(s: SessionView, m: MessageView) -> SessionView {
    if merges_into_last(s.history, m.role) {
        let last = s.history.last();
        SessionView {
            history: s.history.update(
                s.history.len() - 1,
                MessageView { content: last.content + m.content, ..last },
            ),
            ..s
        }
    } else {
        let pushed = s.history.push(m);
        SessionView {
            history: if pushed.len() > s.history_limit {
                pushed.drop_first()
            } else {
                pushed
            },
            chat_no: s.chat_no + 1,
            ..s
        }
    }
}

/// A message of `role` with `content` and neither name nor tool call.
pub open spec fn plain_message(role: Role, content: Seq<char>) -> MessageView {
    MessageView { role, content, name: None, tool_call_id: None }
}

/// The session without its trailing user message, if it ends with one.
pub open spec fn spec_drop_trailing_prompt(s: SessionView) -> SessionView {
    if s.history.len() > 0 && s.history.last().role == Role::User {
        SessionView { history: s.history.drop_last(), ..s }
    } else {
        s
    }
}

/// The session after `update_with_response` with a reply whose first message is
/// `m`.
pub open spec fn spec_update_with_response(s: SessionView, m: MessageView) -> SessionView {
    if s.remember_reply {
        spec_add_chat(s, m)
    } else {
        spec_drop_trailing_prompt(s)
    }
}

/// One choice of a streamed chunk: its text, if any, is added as an assistant
/// message (which merges into a trailing assistant message).
pub open spec fn stream_step(s: SessionView, c: ChoiceDelta) -> SessionView {
    match choice_text(c) {
        Some(t) => spec_add_chat(s, plain_message(Role::Assistant, t)),
        None => s,
    }
}

/// The session after `update_stream` with a chunk of `choices`.
pub open spec fn spec_update_stream(s: SessionView, choices: Seq<ChoiceDelta>) -> SessionView
    decreases choices.len(),
{
    if choices.len() == 0 {
        s
    } else {
        stream_step(spec_update_stream(s, choices.drop_last()), choices.last())
    }
}

/// Whether one choice would append a new entry and so count it.
pub open spec fn stream_step_pushes(s: SessionView, c: ChoiceDelta) -> bool {
    choice_text(c) is Some && !merges_into_last(s.history, Role::Assistant)
}

/// Whether the count of chats stays within `usize` while a chunk of `choices`
/// is recorded.
pub open spec fn stream_count_fits(s: SessionView, choices: Seq<ChoiceDelta>) -> bool
    decreases choices.len(),
{
    if choices.len() == 0 {
        true
    } else {
        let before = spec_update_stream(s, choices.drop_last());
        &&& stream_count_fits(s, choices.drop_last())
        &&& stream_step_pushes(before, choices.last()) ==> before.chat_no < usize::MAX
    }
}

impl SessionView {
    /// At most `history_limit` messages, and neighbours differ in role.
    pub open spec fn wf(self) -> bool {
        &&& self.history.len() <= self.history_limit
        &&& forall|i: int|
            0 <= i < self.history.len() - 1 ==> #[trigger] roles_differ_at(self.history, i)
    }
}

/// The messages at `i` and `i + 1` have different roles.
pub open spec fn roles_differ_at(h: Seq<MessageView>, i: int) -> bool {
    h[i].role != h[i + 1].role
}

/// The conversation history of a ChatGPT session.
#[derive(Debug, Clone)]
pub struct Session {
    history: VecDeque<ChatMessage>,
    history_limit: usize,
    chat_no: usize,
    remember_reply: bool,
}

impl Default for Session {
    /// An empty session with limit 0 that does not remember replies, as the
    /// derived default of the fields gives it.
    fn default() -> (r: Session)
        ensures
            r@.history == Seq::<MessageView>::empty(),
            r@.history_limit == 0,
            r@.chat_no == 0,
            !r@.remember_reply,
    {
        let r = Session { history: VecDeque::new(), history_limit: 0, chat_no: 0, remember_reply: false };
        assert(r.history@.map_values(|c: ChatMessage| c@) =~= Seq::<MessageView>::empty());
        r
    }
}

impl View for Session {
    type V = SessionView;

    open spec fn view(&self) -> SessionView {
        SessionView {
            history: self.messages().map_values(|m: ChatMessage| m@),
            history_limit: self.limit() as nat,
            chat_no: self.count() as nat,
            remember_reply: self.remembers(),
        }
    }
}

impl Session {
    /// The messages of the history, oldest first.
    pub closed spec fn messages(&self) -> Seq<ChatMessage> {
        self.history@
    }

    pub closed spec fn limit(&self) -> usize {
        self.history_limit
    }

    pub closed spec fn count(&self) -> usize {
        self.chat_no
    }

    pub closed spec fn remembers(&self) -> bool {
        self.remember_reply
    }

    /// `history_limit`: total number of chat messages (user + assistant/system/
    /// tool). `new(2)` will allow only 2 messages to be retained.
    pub fn new(history_limit: usize) -> (r: Session)
        ensures
            r@.history == Seq::<MessageView>::empty(),
            r@.history_limit == history_limit,
            r@.chat_no == 0,
            r@.remember_reply,
            r@.wf(),
    {
        let r = Session { history: VecDeque::new(), history_limit, chat_no: 0, remember_reply: true };
        assert(r.history@.map_values(|m: ChatMessage| m@) =~= Seq::<MessageView>::empty());
        r
    }

    pub fn set_remember_reply(self, remember: bool) -> (r: Session)
        ensures
            r@ == (SessionView { remember_reply: remember, ..self@ }),
            r.messages() == self.messages(),
    {
        let mut s = self;
        s.remember_reply = remember;
        s
    }

    pub fn get_history_limit(&self) -> (r: usize)
        ensures
            r == self@.history_limit,
    {
        self.history_limit
    }

    pub fn get_history_as_vecdeque(&self) -> (r: &VecDeque<ChatMessage>)
        ensures
            r@ == self.messages(),
    {
        &self.history
    }

    fn get_history_as_vecdeque_mut(&mut self) -> (r: &mut VecDeque<ChatMessage>)
        ensures
            *r == old(self).history,
            final(self).history == *final(r),
            final(self).history_limit == old(self).history_limit,
            final(self).chat_no == old(self).chat_no,
            final(self).remember_reply == old(self).remember_reply,
    {
        &mut self.history
    }

    /// Whether replies are recorded.
    pub fn get_remember_reply(&self) -> (r: bool)
        ensures
            r == self@.remember_reply,
    {
        self.remember_reply
    }

    pub fn get_chat_no(&self) -> (r: usize)
        ensures
            r == self@.chat_no,
    {
        self.chat_no
    }

    pub fn get_history(&self) -> (r: Vec<&ChatMessage>)
        ensures
            r@.len() == self.messages().len(),
            forall|i: int| 0 <= i < r@.len() ==> *(#[trigger] r@[i]) == self.messages()[i],
    {
        let mut out: Vec<&ChatMessage> = Vec::new();
        let n = self.history.len();
        let mut i: usize = 0;
        while i < n
            invariant
                n == self.history@.len(),
                i <= n,
                out@.len() == i,
                forall|j: int| 0 <= j < i ==> *(#[trigger] out@[j]) == self.history@[j],
            decreases n - i,
        {
            out.push(&self.history[i]);
            i = i + 1;
        }
        out
    }

    pub fn get_history_cloned(&self) -> (r: Vec<ChatMessage>)
        ensures
            r@ == self.messages(),
    {
        let mut out: Vec<ChatMessage> = Vec::new();
        let n = self.history.len();
        let mut i: usize = 0;
        while i < n
            invariant
                n == self.history@.len(),
                i <= n,
                out@ == self.history@.take(i as int),
            decreases n - i,
        {
            out.push(self.history[i].copied());
            assert(out@ =~= self.history@.take(i + 1));
            i = i + 1;
        }
        assert(self.history@.take(n as int) =~= self.history@);
        out
    }

    pub fn get_history_length(&self) -> (r: usize)
        ensures
            r == self@.history.len(),
    {
        self.history.len()
    }

    pub fn get_last_chat(&self) -> (r: Option<&ChatMessage>)
        ensures
            self.messages().len() == 0 ==> r.is_none(),
            self.messages().len() > 0 ==> r.is_some() && *r.unwrap() == self.messages().last(),
    {
        let len = self.history.len();
        if len > 0 {
            Some(&self.history[len - 1])
        } else {
            None
        }
    }

    pub fn get_last_chat_mut(&mut self) -> (r: Option<&mut ChatMessage>)
        ensures
            old(self).messages().len() == 0 ==> r.is_none() && final(self).messages()
                == old(self).messages(),
            old(self).messages().len() > 0 ==> {
                &&& r.is_some()
                &&& *r.unwrap() == old(self).messages().last()
                &&& final(self).messages() == old(self).messages().update(
                    old(self).messages().len() - 1,
                    *final(r.unwrap()),
                )
            },
            final(self).limit() == old(self).limit(),
            final(self).count() == old(self).count(),
            final(self).remembers() == old(self).remembers(),
    {
        deque_back_mut(&mut self.history)
    }

    /// Adds `chat`: merged into the last message when the roles agree, else
    /// appended and counted, the oldest message leaving past the limit.
    fn add_chat(&mut self, chat: ChatMessage) -> (r: &mut Self)
        requires
            !merges_into_last(old(self)@.history, chat.role) ==> old(self)@.chat_no
                < usize::MAX,
        ensures
            r@ == spec_add_chat(old(self)@, chat@),
            final(r)@ == final(self)@,
    {
        let ghost old_view = self@;
        let len = self.history.len();
        if len > 0 && self.history[len - 1].role == chat.role {
            match deque_back_mut(self.get_history_as_vecdeque_mut()) {
                Some(last_chat) => {
                    last_chat.append_content(chat.content.as_str());
                },
                None => {},
            }
            proof {
                let h = old_view.history;
                let last = h.last();
                assert(self@.history =~= h.update(
                    h.len() - 1,
                    MessageView { content: last.content + chat@.content, ..last },
                ));
            }
            return self;
        }
        let ghost chat_view = chat@;
        self.history.push_back(chat);
        self.chat_no = self.chat_no + 1;
        assert(self@.history =~= old_view.history.push(chat_view));
        if self.history.len() > self.history_limit {
            let ghost pushed = self@.history;
            self.history.pop_front();
            assert(self@.history =~= pushed.drop_first());
        }
        self
    }

    /// Adds a user message; several in a row are joined into one.
    pub fn ask(&mut self, content: String) -> (r: &mut Self)
        requires
            !merges_into_last(old(self)@.history, Role::User) ==> old(self)@.chat_no
                < usize::MAX,
        ensures
            r@ == spec_add_chat(old(self)@, plain_message(Role::User, content@)),
            final(r)@ == final(self)@,
    {
        self.add_chat(ChatMessage::new(Role::User, content, None, None))
    }

    /// Adds an assistant message; several in a row are joined into one.
    pub fn reply(&mut self, content: String) -> (r: &mut Self)
        requires
            !merges_into_last(old(self)@.history, Role::Assistant) ==> old(self)@.chat_no
                < usize::MAX,
        ensures
            r@ == spec_add_chat(old(self)@, plain_message(Role::Assistant, content@)),
            final(r)@ == final(self)@,
    {
        self.add_chat(ChatMessage::new(Role::Assistant, content, None, None))
    }

    /// Records a complete reply: with `remember_reply` its first message is added
    /// and returned; without it a trailing user message is dropped and `None`
    /// is returned.
    pub fn update_with_response<'a>(&mut self, response: &'a ChatGptResponse) -> (r: Option<
        &'a ChatMessage,
    >)
        requires
            old(self)@.remember_reply ==> response.choices@.len() > 0,
            old(self)@.remember_reply && !merges_into_last(
                old(self)@.history,
                response.choices@[0].message.role,
            ) ==> old(self)@.chat_no < usize::MAX,
        ensures
            old(self)@.remember_reply ==> r == Some(&response.choices@[0].message),
            !old(self)@.remember_reply ==> r.is_none(),
            old(self)@.remember_reply ==> final(self)@ == spec_update_with_response(
                old(self)@,
                response.choices@[0].message@,
            ),
            !old(self)@.remember_reply ==> final(self)@ == spec_drop_trailing_prompt(old(self)@),
    {
        if self.remember_reply {
            let message = response.message();
            self.add_chat(message.copied());
            Some(message)
        } else {
            let len = self.history.len();
            if len > 0 && self.history[len - 1].role == Role::User {
                let ghost before = self@.history;
                self.history.pop_back();
                assert(self@.history =~= before.drop_last());
            }
            None
        }
    }

    /// Whether the count of chats stays within `usize` while `chunk` is
    /// recorded (the requirement of `update_stream`).
    pub fn stream_fits(&self, chunk: &ChatGptStreamChunk) -> (r: bool)
        ensures
            r == stream_count_fits(self@, chunk.choices@),
    {
        let ghost s = self@;
        let choices = &chunk.choices;
        let n = choices.len();
        let limit = self.history_limit;
        let mut len = self.history.len();
        let mut last_assistant = len > 0 && self.history[len - 1].role == Role::Assistant;
        let mut count = self.chat_no;
        let ghost mut st = s;
        let mut i: usize = 0;
        assert(choices@.take(0) =~= Seq::<ChoiceDelta>::empty());
        while i < n
            invariant
                n == choices@.len(),
                i <= n,
                s == self@,
                choices@ == chunk.choices@,
                st == spec_update_stream(s, choices@.take(i as int)),
                stream_count_fits(s, choices@.take(i as int)),
                st.history_limit == limit,
                len == st.history.len(),
                last_assistant == merges_into_last(st.history, Role::Assistant),
                count == st.chat_no,
            decreases n - i,
        {
            let ghost post = choices@.take(i + 1);
            assert(post.drop_last() =~= choices@.take(i as int));
            assert(post.last() == choices@[i as int]);
            let ghost next = stream_step(st, choices@[i as int]);
            if choices[i].delta.content.is_some() {
                if !last_assistant {
                    if count == usize::MAX {
                        proof {
                            assert(!stream_count_fits(s, post));
                            if stream_count_fits(s, choices@) {
                                lemma_stream_count_fits_prefix(s, choices@, i + 1);
                            }
                        }
                        return false;
                    }
                    count = count + 1;
                    if len < limit {
                        len = len + 1;
                    }
                    last_assistant = len > 0;
                    proof {
                        let m = plain_message(Role::Assistant, choice_text(choices@[i as int])->0);
                        let pushed = st.history.push(m);
                        assert(pushed.last() == m);
                        if pushed.len() > st.history_limit {
                            assert(pushed.drop_first().len() > 0 ==> pushed.drop_first().last() == m);
                        }
                    }
                }
            }
            proof {
                st = next;
            }
            i = i + 1;
        }
        assert(choices@.take(n as int) =~= choices@);
        true
    }

    /// Records a streamed chunk: the text of each choice is appended to the
    /// trailing assistant message, or starts a new one.
    pub fn update_stream(&mut self, chunk: &ChatGptStreamChunk)
        requires
            stream_count_fits(old(self)@, chunk.choices@),
        ensures
            final(self)@ == spec_update_stream(old(self)@, chunk.choices@),
    {
        let n = chunk.choices.len();
        let mut i: usize = 0;
        while i < n
            invariant
                n == chunk.choices@.len(),
                i <= n,
                self@ == spec_update_stream(old(self)@, chunk.choices@.take(i as int)),
                stream_count_fits(old(self)@, chunk.choices@),
            decreases n - i,
        {
            let ghost post = chunk.choices@.take(i + 1);
            assert(post.drop_last() =~= chunk.choices@.take(i as int));
            assert(post.last() == chunk.choices@[i as int]);
            proof {
                lemma_stream_count_fits_prefix(old(self)@, chunk.choices@, i + 1);
            }
            let choice = &chunk.choices[i];
            match &choice.delta.content {
                Some(content) => {
                    let len = self.history.len();
                    if len > 0 && self.history[len - 1].role == Role::Assistant {
                        let ghost before = self@;
                        match deque_back_mut(&mut self.history) {
                            Some(chat) => {
                                chat.append_content(content.as_str());
                            },
                            None => {},
                        }
                        proof {
                            let h = before.history;
                            let last = h.last();
                            assert(self@.history =~= h.update(
                                h.len() - 1,
                                MessageView { content: last.content + content@, ..last },
                            ));
                        }
                    } else {
                        self.add_chat(ChatMessage::new(Role::Assistant, content.clone(), None, None));
                    }
                },
                None => {},
            }
            i = i + 1;
        }
        assert(chunk.choices@.take(n as int) =~= chunk.choices@);
    }
}

/// The count bound of a chunk holds of each of its prefixes.
proof fn lemma_stream_count_fits_prefix(s: SessionView, choices: Seq<ChoiceDelta>, k: int)
    requires
        stream_count_fits(s, choices),
        0 <= k <= choices.len(),
    ensures
        stream_count_fits(s, choices.take(k)),
    decreases choices.len(),
{
    if k < choices.len() {
        assert(choices.drop_last().take(k) =~= choices.take(k));
        lemma_stream_count_fits_prefix(s, choices.drop_last(), k);
    } else {
        assert(choices.take(k) =~= choices);
    }
}

} // verus!
