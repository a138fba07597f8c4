//! What holds of every ChatGPT session across calls.
use super::request::{MessageView, Role};
use super::response::{choice_text, delta_text, ChoiceDelta};
use super::sessions::{
    merges_into_last, plain_message, roles_differ_at, spec_add_chat, spec_drop_trailing_prompt,
    spec_update_stream, spec_update_with_response, SessionView,
};
use vstd::prelude::*;

verus! {

/// Every `add_chat` keeps a well-formed session well-formed: at most
/// `history_limit` messages, and neighbours of different roles.
pub proof fn law_add_chat_keeps_wf(s: SessionView, m: MessageView)
    requires
        s.wf(),
    ensures
        spec_add_chat(s, m).wf(),
{
    let h = s.history;
    let r = spec_add_chat(s, m).history;
    if merges_into_last(h, m.role) {
        assert forall|i: int| 0 <= i < r.len() - 1 implies #[trigger] roles_differ_at(r, i) by {
            assert(roles_differ_at(h, i));
            assert(r[i].role == h[i].role && r[i + 1].role == h[i + 1].role);
        }
    } else {
        let p = h.push(m);
        assert forall|i: int| 0 <= i < p.len() - 1 implies #[trigger] roles_differ_at(p, i) by {
            if i < h.len() - 1 {
                assert(roles_differ_at(h, i));
            }
            assert(p[i] == h[i]);
        }
        if p.len() > s.history_limit {
            assert forall|i: int| 0 <= i < r.len() - 1 implies #[trigger] roles_differ_at(r, i) by {
                assert(roles_differ_at(p, i + 1));
                assert(r[i] == p[i + 1] && r[i + 1] == p[i + 2]);
            }
        }
    }
}

/// Dropping the trailing user message keeps a session well-formed.
proof fn lemma_drop_trailing_prompt_keeps_wf(s: SessionView)
    requires
        s.wf(),
    ensures
        spec_drop_trailing_prompt(s).wf(),
{
    let h = s.history;
    let r = spec_drop_trailing_prompt(s).history;
    assert forall|i: int| 0 <= i < r.len() - 1 implies #[trigger] roles_differ_at(r, i) by {
        assert(roles_differ_at(h, i));
        assert(r[i] == h[i] && r[i + 1] == h[i + 1]);
    }
}

/// `update_with_response` keeps a well-formed session well-formed.
pub proof fn law_update_with_response_keeps_wf(s: SessionView, m: MessageView)
    requires
        s.wf(),
    ensures
        spec_update_with_response(s, m).wf(),
{
    if s.remember_reply {
        law_add_chat_keeps_wf(s, m);
    } else {
        lemma_drop_trailing_prompt_keeps_wf(s);
    }
}

/// `update_stream` keeps a well-formed session well-formed.
pub proof fn law_update_stream_keeps_wf(s: SessionView, choices: Seq<ChoiceDelta>)
    requires
        s.wf(),
    ensures
        spec_update_stream(s, choices).wf(),
    decreases choices.len(),
{
    if choices.len() > 0 {
        law_update_stream_keeps_wf(s, choices.drop_last());
        let before = spec_update_stream(s, choices.drop_last());
        match choice_text(choices.last()) {
            Some(t) => law_add_chat_keeps_wf(before, plain_message(Role::Assistant, t)),
            None => {},
        }
    }
}

/// Adding two messages of one role in a row is adding one message whose content
/// is both contents, one after the other (for a session that keeps at least one
/// message).
pub proof fn law_add_twice_concatenates(s: SessionView, role: Role, first: Seq<char>, second: Seq<char>)
    requires
        s.history_limit > 0,
    ensures
        spec_add_chat(spec_add_chat(s, plain_message(role, first)), plain_message(role, second))
            == spec_add_chat(s, plain_message(role, first + second)),
{
    let h = s.history;
    let s1 = spec_add_chat(s, plain_message(role, first));
    let lhs = spec_add_chat(s1, plain_message(role, second));
    let rhs = spec_add_chat(s, plain_message(role, first + second));
    if merges_into_last(h, role) {
        let last = h.last();
        assert(last.content + first + second =~= last.content + (first + second));
        assert(lhs.history =~= rhs.history);
    } else {
        assert(s1.history.len() > 0 && s1.history.last() == plain_message(role, first));
        assert(lhs.history =~= rhs.history);
    }
}

/// With `remember_reply` off, a prompt that was added as a new message is taken
/// back by `update_with_response`, so the history is as it was before the
/// prompt (when the window had room for it).
pub proof fn law_unremembered_reply_restores_history(s: SessionView, prompt: Seq<char>, reply: MessageView)
    requires
        !s.remember_reply,
        !merges_into_last(s.history, Role::User),
        s.history.len() < s.history_limit,
    ensures
        spec_update_with_response(spec_add_chat(s, plain_message(Role::User, prompt)), reply).history
            == s.history,
{
    let s1 = spec_add_chat(s, plain_message(Role::User, prompt));
    assert(s1.history == s.history.push(plain_message(Role::User, prompt)));
    assert(s1.history.drop_last() =~= s.history);
}

/// Streaming into a session that ends with an assistant message appends the
/// chunk's `text_delta` to that message and changes nothing else.
pub proof fn law_stream_appends_text_delta(s: SessionView, choices: Seq<ChoiceDelta>)
    requires
        s.history.len() > 0,
        s.history.last().role == Role::Assistant,
    ensures
        spec_update_stream(s, choices) == (SessionView {
            history: s.history.update(
                s.history.len() - 1,
                MessageView { content: s.history.last().content + delta_text(choices), ..s.history.last() },
            ),
            ..s
        }),
    decreases choices.len(),
{
    let last = s.history.last();
    if choices.len() == 0 {
        assert(last.content + delta_text(choices) =~= last.content);
        assert(s.history.update(s.history.len() - 1, last) =~= s.history);
    } else {
        law_stream_appends_text_delta(s, choices.drop_last());
        let before = spec_update_stream(s, choices.drop_last());
        let d = delta_text(choices.drop_last());
        assert(before.history.last() == MessageView { content: last.content + d, ..last });
        match choice_text(choices.last()) {
            Some(t) => {
                assert(last.content + d + t =~= last.content + (d + t));
                assert(spec_update_stream(s, choices).history =~= s.history.update(
                    s.history.len() - 1,
                    MessageView { content: last.content + delta_text(choices), ..last },
                ));
            },
            None => {},
        }
    }
}

/// With `remember_reply` on, a new prompt and the reply to it end the history,
/// in this order, when the window has room for both.
pub proof fn law_remembered_reply_follows_prompt(s: SessionView, prompt: Seq<char>, reply: MessageView)
    requires
        s.remember_reply,
        !merges_into_last(s.history, Role::User),
        reply.role != Role::User,
        s.history.len() + 2 <= s.history_limit,
    ensures
        spec_update_with_response(spec_add_chat(s, plain_message(Role::User, prompt)), reply).history
            == s.history.push(plain_message(Role::User, prompt)).push(reply),
{
}

/// The count of messages bounds the history: no more messages are kept than
/// were ever appended as new entries.
pub open spec fn count_bounds_history(s: SessionView) -> bool {
    s.history.len() <= s.chat_no
}

/// `add_chat` (and so `ask` and `reply`) never lowers the count, raises it by
/// one exactly when it appends a new entry, and keeps the history within it.
pub proof fn law_add_chat_counts(s: SessionView, m: MessageView)
    requires
        count_bounds_history(s),
    ensures
        spec_add_chat(s, m).chat_no == s.chat_no + if merges_into_last(s.history, m.role) {
            0int
        } else {
            1int
        },
        count_bounds_history(spec_add_chat(s, m)),
{
}

/// `update_with_response` never lowers the count and keeps the history within
/// it.
pub proof fn law_update_with_response_counts(s: SessionView, m: MessageView)
    requires
        count_bounds_history(s),
    ensures
        spec_update_with_response(s, m).chat_no >= s.chat_no,
        count_bounds_history(spec_update_with_response(s, m)),
{
}

/// `update_stream` never lowers the count and keeps the history within it.
pub proof fn law_update_stream_counts(s: SessionView, choices: Seq<ChoiceDelta>)
    requires
        count_bounds_history(s),
    ensures
        spec_update_stream(s, choices).chat_no >= s.chat_no,
        count_bounds_history(spec_update_stream(s, choices)),
    decreases choices.len(),
{
    if choices.len() > 0 {
        law_update_stream_counts(s, choices.drop_last());
    }
}

/// Recording a stream chunk by chunk is recording all their choices at once:
/// the session of a stream is its starting session updated by each chunk in
/// turn, however the choices were split into chunks.
pub proof fn law_stream_chunks_compose(s: SessionView, first: Seq<ChoiceDelta>, second: Seq<ChoiceDelta>)
    ensures
        spec_update_stream(spec_update_stream(s, first), second) == spec_update_stream(s, first + second),
    decreases second.len(),
{
    if second.len() == 0 {
        assert(first + second =~= first);
    } else {
        law_stream_chunks_compose(s, first, second.drop_last());
        assert((first + second).drop_last() =~= first + second.drop_last());
        assert((first + second).last() == second.last());
    }
}

} // verus!
