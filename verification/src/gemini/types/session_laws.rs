//! What holds of every Gemini session across calls.
use super::request::{ChatView, Role};
use super::sessions::{
    add_chat_pushes, add_chat_refused, dangling_at_front, merges_into_last, spec_add_chat,
    neighbours_ok_at, spec_forget_last_conversation, spec_update, trim_front, SessionView,
};
use vstd::prelude::*;

verus! {

/// Neighbours differ in role and no function response follows a user prompt.
pub open spec fn neighbours_ok(h: Seq<ChatView>) -> bool {
    forall|i: int| 0 <= i < h.len() - 1 ==> #[trigger] neighbours_ok_at(h, i)
}

proof fn lemma_neighbours_ok_skip(h: Seq<ChatView>, k: int)
    requires
        neighbours_ok(h),
        0 <= k <= h.len(),
    ensures
        neighbours_ok(h.skip(k)),
{
    let t = h.skip(k);
    assert forall|i: int| 0 <= i < t.len() - 1 implies #[trigger] neighbours_ok_at(t, i) by {
        assert(t[i] == h[i + k] && t[i + 1] == h[i + k + 1]);
        assert(neighbours_ok_at(h, i + k));
    }
}

/// Trimming keeps a suffix, whose first chat may open a history.
pub proof fn lemma_trim_front_suffix(h: Seq<ChatView>)
    ensures
        trim_front(h).len() <= h.len(),
        trim_front(h) =~= h.skip(h.len() - trim_front(h).len()),
        trim_front(h).len() > 0 ==> !dangling_at_front(trim_front(h)[0]),
    decreases h.len(),
{
    if h.len() > 0 && dangling_at_front(h[0]) {
        lemma_trim_front_suffix(h.drop_first());
        let t = trim_front(h.drop_first());
        assert(h.drop_first().skip(h.drop_first().len() - t.len()) =~= h.skip(h.len() - t.len()));
    } else {
        assert(h.skip(0) =~= h);
    }
}

/// Trimming leaves a history whose last chat is a user prompt untouched at its end.
proof fn lemma_trim_front_keeps_user_last(h: Seq<ChatView>)
    requires
        h.len() > 0,
        h.last().role == Role::User,
    ensures
        trim_front(h).len() > 0,
        trim_front(h).last() == h.last(),
    decreases h.len(),
{
    if dangling_at_front(h[0]) {
        assert(h.len() > 1);
        assert(h.drop_first().last() == h.last());
        lemma_trim_front_keeps_user_last(h.drop_first());
    }
}

/// Trimming depends on the roles and function calls of chats, so replacing the
/// last user prompt by another one commutes with it.
proof fn lemma_trim_front_replace_user_last(h: Seq<ChatView>, c: ChatView)
    requires
        h.len() > 0,
        h.last().role == Role::User,
        c.role == Role::User,
    ensures
        trim_front(h.update(h.len() - 1, c)) == trim_front(h).update(trim_front(h).len() - 1, c),
    decreases h.len(),
{
    lemma_trim_front_keeps_user_last(h);
    let u = h.update(h.len() - 1, c);
    if dangling_at_front(h[0]) {
        assert(h.len() > 1);
        assert(u[0] == h[0]);
        assert(u.drop_first() =~= h.drop_first().update(h.drop_first().len() - 1, c));
        assert(h.drop_first().last() == h.last());
        lemma_trim_front_replace_user_last(h.drop_first(), c);
    } else {
        if h.len() == 1 {
            assert(!dangling_at_front(u[0]));
        } else {
            assert(u[0] == h[0]);
        }
    }
}

/// Every accepted `add_chat` keeps a well-formed session well-formed: at most
/// `history_limit` chats, neighbours of different roles, and no function
/// response first or right after a user prompt.
pub proof fn law_add_chat_keeps_wf(s: SessionView, c: ChatView)
    requires
        s.wf(),
        !add_chat_refused(s.history, c.role),
    ensures
        spec_add_chat(s, c).wf(),
{
    let h = s.history;
    let r = spec_add_chat(s, c);
    if merges_into_last(h, c.role) {
        let h2 = r.history;
        assert forall|i: int| 0 <= i < h2.len() - 1 implies #[trigger] neighbours_ok_at(h2, i) by {
            assert(neighbours_ok_at(h, i));
            assert(h2[i].role == h[i].role && h2[i + 1].role == h[i + 1].role);
        }
        assert(h2.len() > 0 ==> h2[0].role == h[0].role);
    } else {
        let p = h.push(c);
        assert forall|i: int| 0 <= i < p.len() - 1 implies #[trigger] neighbours_ok_at(p, i) by {
            if i < h.len() - 1 {
                assert(neighbours_ok_at(h, i));
                assert(p[i] == h[i] && p[i + 1] == h[i + 1]);
            } else {
                assert(p[i] == h.last());
                assert(p[i + 1] == c);
            }
        }
        assert(neighbours_ok(p));
        if p.len() > s.history_limit {
            let d = p.drop_first();
            lemma_neighbours_ok_skip(p, 1);
            assert(p.skip(1) =~= d);
            lemma_trim_front_suffix(d);
            let t = trim_front(d);
            lemma_neighbours_ok_skip(d, d.len() - t.len());
            assert(r.history == t);
            assert(t.len() > 0 ==> !dangling_at_front(t[0]));
        } else {
            assert(p.len() > 0 ==> p[0].role != Role::Function) by {
                if h.len() > 0 {
                    assert(p[0] == h[0]);
                }
            }
        }
    }
}

/// `update` keeps a well-formed session well-formed.
pub proof fn law_update_keeps_wf(s: SessionView, parts: Seq<super::request::Part>)
    requires
        s.wf(),
    ensures
        spec_update(s, parts).wf(),
{
    if s.remember_reply {
        law_add_chat_keeps_wf(s, ChatView { role: Role::Model, parts });
    } else if s.history.len() > 0 && s.history.last().role == Role::User {
        let h = s.history;
        let d = h.drop_last();
        assert forall|i: int| 0 <= i < d.len() - 1 implies #[trigger] neighbours_ok_at(d, i) by {
            assert(neighbours_ok_at(h, i));
            assert(d[i] == h[i] && d[i + 1] == h[i + 1]);
        }
        assert(d.len() > 0 ==> d[0] == h[0]);
    }
}

/// Asking twice in a row is asking once with both lists of parts, one after
/// the other (for a session that keeps at least one chat).
pub proof fn law_ask_twice_concatenates(
    s: SessionView,
    first: Seq<super::request::Part>,
    second: Seq<super::request::Part>,
)
    requires
        s.history_limit > 0,
        s.wf(),
    ensures
        spec_add_chat(
            spec_add_chat(s, ChatView { role: Role::User, parts: first }),
            ChatView { role: Role::User, parts: second },
        ) == spec_add_chat(s, ChatView { role: Role::User, parts: first + second }),
{
    let a = ChatView { role: Role::User, parts: first };
    let b = ChatView { role: Role::User, parts: second };
    let ab = ChatView { role: Role::User, parts: first + second };
    let h = s.history;
    let s1 = spec_add_chat(s, a);
    if merges_into_last(h, Role::User) {
        let last = h.last();
        assert(s1.history.last() == ChatView { role: Role::User, parts: last.parts + first });
        assert(merges_into_last(s1.history, Role::User));
        assert(last.parts + first + second =~= last.parts + (first + second));
        assert(spec_add_chat(s1, b).history =~= spec_add_chat(s, ab).history);
    } else {
        let p = h.push(a);
        let q = h.push(ab);
        assert(q =~= p.update(p.len() - 1, ab));
        if p.len() > s.history_limit {
            let d = p.drop_first();
            assert(h.len() >= 1);
            assert(d.len() > 0);
            assert(d.last() == a);
            assert(q.drop_first() =~= d.update(d.len() - 1, ab));
            lemma_trim_front_keeps_user_last(d);
            lemma_trim_front_replace_user_last(d, ab);
            let t = trim_front(d);
            assert(s1.history == t);
            assert(merges_into_last(t, Role::User));
            assert(t.last().parts + second =~= first + second);
            assert(spec_add_chat(s1, b).history =~= spec_add_chat(s, ab).history);
        } else {
            assert(s1.history == p);
            assert(p.last().parts + second =~= first + second);
            assert(spec_add_chat(s1, b).history =~= spec_add_chat(s, ab).history);
        }
    }
}

/// With `remember_reply` off, a prompt that was added as a new chat is taken
/// back by `update`, so the history is as it was before the prompt (when the
/// window had room for it).
pub proof fn law_unremembered_reply_restores_history(
    s: SessionView,
    prompt: Seq<super::request::Part>,
    reply: Seq<super::request::Part>,
)
    requires
        !s.remember_reply,
        add_chat_pushes(s.history, Role::User),
        s.history.len() < s.history_limit,
    ensures
        spec_update(spec_add_chat(s, ChatView { role: Role::User, parts: prompt }), reply).history
            == s.history,
{
    let s1 = spec_add_chat(s, ChatView { role: Role::User, parts: prompt });
    assert(s1.history == s.history.push(ChatView { role: Role::User, parts: prompt }));
    assert(s1.history.drop_last() =~= s.history);
}

/// `forget_last_conversation` undoes a prompt and the model's reply to it, when
/// the history did not end with a user prompt and the window had room for both.
pub proof fn law_forget_undoes_exchange(
    s: SessionView,
    prompt: Seq<super::request::Part>,
    reply: Seq<super::request::Part>,
)
    requires
        s.history.len() + 2 <= s.history_limit,
        s.history.len() > 0 ==> s.history.last().role != Role::User,
    ensures
        spec_forget_last_conversation(
            spec_add_chat(
                spec_add_chat(s, ChatView { role: Role::User, parts: prompt }),
                ChatView { role: Role::Model, parts: reply },
            ).history,
        ) == s.history,
{
    let u = ChatView { role: Role::User, parts: prompt };
    let m = ChatView { role: Role::Model, parts: reply };
    let s1 = spec_add_chat(s, u);
    assert(s1.history == s.history.push(u));
    let s2 = spec_add_chat(s1, m);
    assert(s2.history == s.history.push(u).push(m));
    let h2 = s2.history;
    assert(h2[h2.len() - 2] == u);
    assert(h2[h2.len() - 1] == m);
    assert(h2.take(h2.len() - 2) =~= s.history);
}

proof fn lemma_prefix_keeps_wf(s: SessionView, k: int)
    requires
        s.wf(),
        0 <= k <= s.history.len(),
    ensures
        (SessionView { history: s.history.take(k), ..s }).wf(),
{
    let h = s.history;
    let t = h.take(k);
    assert forall|i: int| 0 <= i < t.len() - 1 implies #[trigger] neighbours_ok_at(t, i) by {
        assert(neighbours_ok_at(h, i));
        assert(t[i] == h[i] && t[i + 1] == h[i + 1]);
    }
    assert(t.len() > 0 ==> t[0] == h[0]);
}

/// `forget_last_conversation` keeps a well-formed session well-formed.
pub proof fn law_forget_keeps_wf(s: SessionView)
    requires
        s.wf(),
    ensures
        (SessionView { history: spec_forget_last_conversation(s.history), ..s }).wf(),
{
    let n = s.history.len();
    if n == 0 {
        assert(s.history.take(0) =~= s.history);
        lemma_prefix_keeps_wf(s, 0);
        assert(s.history =~= s.history.take(n as int));
        lemma_prefix_keeps_wf(s, n as int);
    } else if n >= 2 && s.history[n - 1].role == Role::Model && s.history[n - 2].role == Role::User {
        lemma_prefix_keeps_wf(s, n - 2);
    } else {
        lemma_prefix_keeps_wf(s, n - 1);
    }
}

/// `remove_last_chat` keeps a well-formed session well-formed.
pub proof fn law_remove_last_keeps_wf(s: SessionView)
    requires
        s.wf(),
        s.history.len() > 0,
    ensures
        (SessionView { history: s.history.drop_last(), ..s }).wf(),
{
    lemma_prefix_keeps_wf(s, s.history.len() - 1);
    assert(s.history.drop_last() =~= s.history.take(s.history.len() - 1));
}

/// With `remember_reply` on, a new prompt and the model's reply to it end the
/// history, in this order, when the window has room for both.
pub proof fn law_remembered_reply_follows_prompt(
    s: SessionView,
    prompt: Seq<super::request::Part>,
    reply: Seq<super::request::Part>,
)
    requires
        s.remember_reply,
        add_chat_pushes(s.history, Role::User),
        s.history.len() + 2 <= s.history_limit,
    ensures
        spec_update(spec_add_chat(s, ChatView { role: Role::User, parts: prompt }), reply).history
            == s.history.push(ChatView { role: Role::User, parts: prompt }).push(
            ChatView { role: Role::Model, parts: reply },
        ),
{
}

/// The count of chats bounds the history: no more chats are kept than were
/// ever appended.
pub open spec fn count_bounds_history(s: SessionView) -> bool {
    s.history.len() <= s.chat_no
}

proof fn lemma_trim_front_len(h: Seq<ChatView>)
    ensures
        trim_front(h).len() <= h.len(),
    decreases h.len(),
{
    if h.len() > 0 && dangling_at_front(h[0]) {
        lemma_trim_front_len(h.drop_first());
    }
}

/// An accepted `add_chat` (and so `ask`, `ask_parts`, `reply`, `reply_parts`,
/// `add_function_response`) never lowers the count of chats, raises it by one
/// exactly when it appends a new chat, and keeps the history within the count.
pub proof fn law_add_chat_counts(s: SessionView, c: ChatView)
    requires
        count_bounds_history(s),
    ensures
        spec_add_chat(s, c).chat_no == s.chat_no + if merges_into_last(s.history, c.role) {
            0int
        } else {
            1int
        },
        count_bounds_history(spec_add_chat(s, c)),
{
    if !merges_into_last(s.history, c.role) {
        let pushed = s.history.push(c);
        if pushed.len() > s.history_limit {
            lemma_trim_front_len(pushed.drop_first());
        }
    }
}

/// `update` never lowers the count of chats and keeps the history within it.
pub proof fn law_update_counts(s: SessionView, parts: Seq<super::request::Part>)
    requires
        count_bounds_history(s),
    ensures
        spec_update(s, parts).chat_no >= s.chat_no,
        count_bounds_history(spec_update(s, parts)),
{
    law_add_chat_counts(s, ChatView { role: Role::Model, parts });
}

/// `forget_last_conversation` and `remove_last_chat` keep the count of chats
/// and only shorten the history, so the history stays within the count.
pub proof fn law_removals_keep_count_bound(s: SessionView)
    requires
        count_bounds_history(s),
    ensures
        spec_forget_last_conversation(s.history).len() <= s.history.len(),
        s.history.len() > 0 ==> s.history.drop_last().len() <= s.chat_no,
        spec_forget_last_conversation(s.history).len() <= s.chat_no,
{
}

/// A public call that changes a Gemini session: `add_chat` (and so `ask`,
/// `ask_parts`, `reply`, `reply_parts` and `add_function_response`, which add a
/// chat), `update`, `forget_last_conversation` and `remove_last_chat`.
pub enum SessionCall {
    AddChat(ChatView),
    Update(Seq<super::request::Part>),
    Forget,
    RemoveLast,
}

/// The session after one call, as the call's contract states it (a refused
/// `add_chat` leaves the session unchanged).
pub open spec fn apply_call(s: SessionView, call: SessionCall) -> SessionView {
    match call {
        SessionCall::AddChat(c) => if add_chat_refused(s.history, c.role) {
            s
        } else {
            spec_add_chat(s, c)
        },
        SessionCall::Update(parts) => spec_update(s, parts),
        SessionCall::Forget => SessionView {
            history: spec_forget_last_conversation(s.history),
            ..s
        },
        SessionCall::RemoveLast => SessionView {
            history: if s.history.len() > 0 {
                s.history.drop_last()
            } else {
                s.history
            },
            ..s
        },
    }
}

/// The session after the calls in turn.
pub open spec fn apply_calls(s: SessionView, calls: Seq<SessionCall>) -> SessionView
    decreases calls.len(),
{
    if calls.len() == 0 {
        s
    } else {
        apply_call(apply_calls(s, calls.drop_last()), calls.last())
    }
}

proof fn lemma_call_counts(s: SessionView, call: SessionCall)
    requires
        count_bounds_history(s),
    ensures
        apply_call(s, call).chat_no >= s.chat_no,
        count_bounds_history(apply_call(s, call)),
{
    match call {
        SessionCall::AddChat(c) => {
            if !add_chat_refused(s.history, c.role) {
                law_add_chat_counts(s, c);
            }
        },
        SessionCall::Update(parts) => {
            law_update_counts(s, parts);
        },
        SessionCall::Forget => {
            law_removals_keep_count_bound(s);
        },
        SessionCall::RemoveLast => {
            law_removals_keep_count_bound(s);
        },
    }
}

/// Over any sequence of calls, from a session whose history is within its
/// count (as `Session::new` gives it: no chats, count 0), the count of chats
/// never decreases, and the history never holds more chats than the count.
pub proof fn law_calls_count(s: SessionView, calls: Seq<SessionCall>, i: int)
    requires
        count_bounds_history(s),
        0 <= i <= calls.len(),
    ensures
        apply_calls(s, calls.take(i)).chat_no <= apply_calls(s, calls).chat_no,
        s.chat_no <= apply_calls(s, calls.take(i)).chat_no,
        count_bounds_history(apply_calls(s, calls)),
    decreases calls.len(),
{
    if calls.len() == 0 {
        assert(calls.take(i) =~= calls);
    } else if i == calls.len() {
        assert(calls.take(i) =~= calls);
        law_calls_count(s, calls.drop_last(), 0);
        lemma_call_counts(apply_calls(s, calls.drop_last()), calls.last());
    } else {
        law_calls_count(s, calls.drop_last(), i);
        assert(calls.drop_last().take(i) =~= calls.take(i));
        lemma_call_counts(apply_calls(s, calls.drop_last()), calls.last());
    }
}

} // verus!
