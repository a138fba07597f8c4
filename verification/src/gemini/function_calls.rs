//! Which function calls of the model's last chat are to be run.
use super::types::request::{ChatView, FunctionResponse, Part, PartType, Role};
use super::types::session_laws::lemma_trim_front_suffix;
use super::types::sessions::{
    add_chat_pushes, add_chat_refused, function_response_value, merges_into_last, spec_add_chat,
    trim_front, Session, SessionView,
};
use crate::foreign::{entries_view, json_object, json_object_of, json_string, json_string_of};
use serde_json::Value;
use vstd::prelude::*;
use vstd::string::*;

verus! {

/// The first position of `name` in `names`, from `from` on.
pub open spec fn first_position(names: Seq<Seq<char>>, name: Seq<char>, from: int) -> Option<int>
    decreases names.len() - from,
{
    if from < 0 || from >= names.len() {
        None
    } else if names[from] == name {
        Some(from)
    } else {
        first_position(names, name, from + 1)
    }
}

/// For each function-call part of `parts`, in order, whose function is among
/// `names`: the first position of its name in `names`, and the part's position.
pub open spec fn calls_in(parts: Seq<Part>, names: Seq<Seq<char>>) -> Seq<(int, int)>
    decreases parts.len(),
{
    if parts.len() == 0 {
        Seq::empty()
    } else {
        let head = calls_in(parts.drop_last(), names);
        match parts.last().data {
            PartType::FunctionCall(c) => match first_position(names, c.name@, 0) {
                Some(i) => head.push((i, parts.len() - 1)),
                None => head,
            },
            _ => head,
        }
    }
}

/// Whether `p` calls a function named in `names`.
pub open spec fn calls_named(p: Part, names: Seq<Seq<char>>) -> bool {
    p.data matches PartType::FunctionCall(c) && exists|i: int|
        0 <= i < names.len() && names[i] == c.name@
}

/// The name of the function that `p` calls.
pub open spec fn called_name(p: Part) -> Seq<char> {
    match p.data {
        PartType::FunctionCall(c) => c.name@,
        _ => Seq::empty(),
    }
}

proof fn lemma_first_position(names: Seq<Seq<char>>, name: Seq<char>, from: int)
    requires
        0 <= from,
    ensures
        first_position(names, name, from) matches Some(i) ==> from <= i < names.len()
            && names[i] == name && forall|m: int| from <= m < i ==> names[m] != name,
        first_position(names, name, from) is None ==> forall|m: int|
            from <= m < names.len() ==> names[m] != name,
    decreases names.len() - from,
{
    if from < names.len() && names[from] != name {
        lemma_first_position(names, name, from + 1);
    }
}

/// The calls selected are exactly the parts that call a listed function, each
/// once, in part order, whatever the names repeat: every such part is
/// selected, nothing else is, and each selected call is paired with the first
/// position of its function's name in `names`. (`requested_calls` returns
/// these for the last chat.)
pub proof fn law_every_requested_part_is_selected(parts: Seq<Part>, names: Seq<Seq<char>>)
    ensures
        forall|j: int|
            0 <= j < parts.len() ==> (calls_named(#[trigger] parts[j], names) <==> exists|k: int|
                0 <= k < calls_in(parts, names).len() && calls_in(parts, names)[k].1 == j),
        forall|k1: int, k2: int|
            0 <= k1 < k2 < calls_in(parts, names).len() ==> #[trigger] calls_in(parts, names)[k1].1
                < #[trigger] calls_in(parts, names)[k2].1,
        forall|k: int|
            0 <= k < calls_in(parts, names).len() ==> {
                let (i, j) = #[trigger] calls_in(parts, names)[k];
                &&& 0 <= j < parts.len()
                &&& calls_named(parts[j], names)
                &&& 0 <= i < names.len()
                &&& names[i] == called_name(parts[j])
                &&& forall|m: int| 0 <= m < i ==> names[m] != called_name(parts[j])
            },
    decreases parts.len(),
{
    if parts.len() > 0 {
        let init = parts.drop_last();
        law_every_requested_part_is_selected(init, names);
        let head = calls_in(init, names);
        let calls = calls_in(parts, names);
        let n = parts.len() - 1;
        let p = parts.last();
        assert forall|j: int| 0 <= j < n implies parts[j] == init[j] by {}
        match p.data {
            PartType::FunctionCall(c) => {
                lemma_first_position(names, c.name@, 0);
            },
            _ => {},
        }
        assert(calls.len() >= head.len());
        assert forall|k: int| 0 <= k < head.len() implies calls[k] == head[k] by {}
        assert forall|j: int| 0 <= j < parts.len() implies (calls_named(#[trigger] parts[j], names)
            <==> exists|k: int| 0 <= k < calls.len() && calls[k].1 == j) by {
            if j < n {
                assert(parts[j] == init[j]);
                if calls_named(parts[j], names) {
                    let k = choose|k: int| 0 <= k < head.len() && head[k].1 == j;
                    assert(calls[k] == head[k]);
                }
                if exists|k: int| 0 <= k < calls.len() && calls[k].1 == j {
                    let k = choose|k: int| 0 <= k < calls.len() && calls[k].1 == j;
                    if k < head.len() {
                        assert(calls[k] == head[k]);
                    } else {
                        assert(calls[k].1 == n);
                    }
                }
            } else {
                if calls_named(parts[j], names) {
                    assert(calls[head.len() as int].1 == n);
                }
                if exists|k: int| 0 <= k < calls.len() && calls[k].1 == j {
                    let k = choose|k: int| 0 <= k < calls.len() && calls[k].1 == j;
                    if k < head.len() {
                        assert(calls[k] == head[k]);
                        assert(head[k].1 < n);
                    }
                }
            }
        }
        assert forall|k: int| 0 <= k < calls.len() && k >= head.len() implies calls[k].1 == n by {}
        assert forall|k: int| 0 <= k < calls.len() implies {
            let (i, j) = #[trigger] calls[k];
            &&& 0 <= j < parts.len()
            &&& calls_named(parts[j], names)
            &&& 0 <= i < names.len()
            &&& names[i] == called_name(parts[j])
            &&& forall|m: int| 0 <= m < i ==> names[m] != called_name(parts[j])
        } by {
            if k < head.len() {
                assert(calls[k] == head[k]);
                assert(parts[head[k].1] == init[head[k].1]);
            }
        }
        assert forall|k1: int, k2: int| 0 <= k1 < k2 < calls.len() implies #[trigger] calls[k1].1
            < #[trigger] calls[k2].1 by {
            if k2 < head.len() {
                assert(calls[k1] == head[k1]);
                assert(calls[k2] == head[k2]);
            } else {
                assert(calls[k1] == head[k1]);
            }
        }
    }
}

/// The texts of `names` as characters.
pub open spec fn names_view(names: Seq<String>) -> Seq<Seq<char>> {
    names.map_values(|n: String| n@)
}

fn position_of(names: &Vec<String>, name: &String) -> (r: Option<usize>)
    ensures
        r matches Some(i) ==> first_position(names_view(names@), name@, 0) == Some(i as int),
        r is None ==> first_position(names_view(names@), name@, 0) is None,
{
    let n = names.len();
    let mut i: usize = 0;
    while i < n
        invariant
            n == names@.len(),
            i <= n,
            first_position(names_view(names@), name@, 0) == first_position(
                names_view(names@),
                name@,
                i as int,
            ),
        decreases n - i,
    {
        if names[i] == *name {
            return Some(i);
        }
        i = i + 1;
    }
    None
}

/// The function calls of the last chat of `session` that name one of `names`,
/// in the order of its parts: for each, the position of the function in
/// `names` (the first, if it appears twice) and the position of the part in the
/// chat. Empty when the session is empty.
pub fn requested_calls(session: &Session, names: &Vec<String>) -> (r: Vec<(usize, usize)>)
    ensures
        session.chats().len() == 0 ==> r@.len() == 0,
        session.chats().len() > 0 ==> {
            let expected = calls_in(session.chats().last().parts@, names_view(names@));
            &&& r@.len() == expected.len()
            &&& forall|k: int|
                0 <= k < r@.len() ==> (#[trigger] r@[k]).0 == expected[k].0 && r@[k].1
                    == expected[k].1
        },
{
    let mut out: Vec<(usize, usize)> = Vec::new();
    let chat = match session.get_last_chat() {
        Some(chat) => chat,
        None => return out,
    };
    let parts = chat.parts();
    let n = parts.len();
    let mut j: usize = 0;
    while j < n
        invariant
            n == parts@.len(),
            j <= n,
            out@.len() == calls_in(parts@.take(j as int), names_view(names@)).len(),
            forall|k: int|
                0 <= k < out@.len() ==> (#[trigger] out@[k]).0 == calls_in(
                    parts@.take(j as int),
                    names_view(names@),
                )[k].0 && out@[k].1 == calls_in(parts@.take(j as int), names_view(names@))[k].1,
        decreases n - j,
    {
        let ghost post = parts@.take(j + 1);
        assert(post.drop_last() =~= parts@.take(j as int));
        assert(post.last() == parts@[j as int]);
        match &parts[j].data {
            PartType::FunctionCall(call) => match position_of(names, &call.name) {
                Some(i) => {
                    out.push((i, j));
                },
                None => {},
            },
            _ => {},
        }
        j = j + 1;
    }
    assert(parts@.take(n as int) =~= parts@);
    out
}

/// After an accepted function response, the next one is refused or merges into
/// it: it never appends a new chat.
proof fn lemma_after_function_response(s: SessionView, c: ChatView)
    requires
        c.role == Role::Function,
        !add_chat_refused(s.history, Role::Function),
    ensures
        !add_chat_pushes(spec_add_chat(s, c).history, Role::Function),
{
    if !merges_into_last(s.history, c.role) {
        let pushed = s.history.push(c);
        if pushed.len() > s.history_limit {
            let d = pushed.drop_first();
            lemma_trim_front_suffix(d);
            let t = trim_front(d);
            if t.len() > 0 {
                assert(t.last() == d.last());
            }
        }
    }
}

/// The outcome of one function call that was run: the slot of its function in
/// the list asked for, its name, what it returned, and the value that is to be
/// recorded as its response (what the caller's callback made of the result).
pub struct CallResult {
    pub slot: usize,
    pub name: String,
    pub result: Result<Value, String>,
    pub response: Value,
}

/// The function-response chat recorded for a call.
pub open spec fn response_chat(c: CallResult) -> ChatView {
    ChatView {
        role: Role::Function,
        parts: seq![
            Part {
                data: PartType::FunctionResponse(
                    FunctionResponse { name: c.name, response: function_response_value(c.response) },
                ),
            },
        ],
    }
}

/// The message for a call whose response could not be added to the session.
pub open spec fn refused_message(name: Seq<char>) -> Seq<char> {
    "failed to add function response for `"@ + name
        + "`: FunctionResponse must be after model prompt and not first in session"@
}

/// An outcome with its texts as characters.
pub open spec fn outcome_view(o: Option<Result<Value, String>>) -> Option<Result<Value, Seq<char>>> {
    match o {
        None => None,
        Some(Ok(v)) => Some(Ok(v)),
        Some(Err(e)) => Some(Err(e@)),
    }
}

/// The session and the outcome slots after recording `results` in turn: each
/// response is added to the session as a function response; the slot of its
/// function gets the call's result, or the refusal message when the session
/// refused the response (and is then unchanged).
pub open spec fn recorded(
    s: SessionView,
    slots: Seq<Option<Result<Value, Seq<char>>>>,
    results: Seq<CallResult>,
) -> (SessionView, Seq<Option<Result<Value, Seq<char>>>>)
    decreases results.len(),
{
    if results.len() == 0 {
        (s, slots)
    } else {
        let (s1, slots1) = recorded(s, slots, results.drop_last());
        let c = results.last();
        if add_chat_refused(s1.history, Role::Function) {
            (s1, slots1.update(c.slot as int, Some(Err(refused_message(c.name@)))))
        } else {
            (spec_add_chat(s1, response_chat(c)), slots1.update(c.slot as int, outcome_view(Some(c.result))))
        }
    }
}

proof fn lemma_recorded_slots(s: SessionView, slots: Seq<Option<Result<Value, Seq<char>>>>, results: Seq<CallResult>)
    requires
        forall|k: int| 0 <= k < results.len() ==> (#[trigger] results[k]).slot < slots.len(),
    ensures
        recorded(s, slots, results).1.len() == slots.len(),
    decreases results.len(),
{
    if results.len() > 0 {
        lemma_recorded_slots(s, slots, results.drop_last());
        let prev = recorded(s, slots, results.drop_last());
        let c = results.last();
        if add_chat_refused(prev.0.history, Role::Function) {
            assert(recorded(s, slots, results).1 == prev.1.update(
                c.slot as int,
                Some(Err(refused_message(c.name@))),
            ));
        } else {
            assert(recorded(s, slots, results).1 == prev.1.update(
                c.slot as int,
                outcome_view(Some(c.result)),
            ));
        }
    }
}

/// Records the outcomes of the function calls that were run: adds each
/// response to `session` as a function response, in order, and gives, for
/// each of the `slots` functions asked for, `Some(result)` when it was called
/// (or the refusal message when its response could not be added), `None`
/// otherwise.
pub fn record_call_results(session: &mut Session, slots: usize, results: Vec<CallResult>) -> (r: Vec<Option<Result<Value, String>>>)
    requires
        forall|k: int| 0 <= k < results@.len() ==> (#[trigger] results@[k]).slot < slots,
        results@.len() > 0 && add_chat_pushes(old(session)@.history, Role::Function)
            ==> old(session)@.chat_no < usize::MAX,
    ensures
        r@.len() == slots,
        ({
            let (s, outcomes) = recorded(
                old(session)@,
                Seq::new(slots as nat, |i: int| None::<Result<Value, Seq<char>>>),
                results@,
            );
            &&& final(session)@ == s
            &&& r@.map_values(|o: Option<Result<Value, String>>| outcome_view(o)) == outcomes
        }),
{
    let ghost start = session@;
    let ghost empty = Seq::new(slots as nat, |i: int| None::<Result<Value, Seq<char>>>);
    let mut out: Vec<Option<Result<Value, String>>> = Vec::new();
    let mut k: usize = 0;
    while k < slots
        invariant
            k <= slots,
            out@.len() == k,
            forall|j: int| 0 <= j < k ==> out@[j] is None,
        decreases slots - k,
    {
        out.push(None);
        k = k + 1;
    }
    assert(out@.map_values(|o: Option<Result<Value, String>>| outcome_view(o)) =~= empty);
    let n = results.len();
    let mut results = results;
    let ghost all = results@;
    let mut rest: Vec<CallResult> = Vec::new();
    // Take the results in order by reversing them once.
    while results.len() > 0
        invariant
            all == results@ + rest@.reverse(),
        decreases results@.len(),
    {
        let ghost before = results@;
        let c = results.pop().unwrap();
        proof {
            assert(before =~= results@.push(c));
            assert(rest@.push(c).reverse() =~= seq![c] + rest@.reverse());
            assert(all =~= results@ + rest@.push(c).reverse());
        }
        rest.push(c);
    }
    assert(all =~= rest@.reverse());
    assert(all.skip(0) =~= all);
    let mut i: usize = 0;
    while rest.len() > 0
        invariant
            n == all.len(),
            i + rest@.len() == n,
            rest@.reverse() == all.skip(i as int),
            forall|j: int| 0 <= j < all.len() ==> (#[trigger] all[j]).slot < slots,
            rest@.len() > 0 && add_chat_pushes(session@.history, Role::Function)
                ==> session@.chat_no < usize::MAX,
            empty.len() == slots,
            out@.len() == slots,
            ({
                let (s, outcomes) = recorded(start, empty, all.take(i as int));
                &&& session@ == s
                &&& out@.map_values(|o: Option<Result<Value, String>>| outcome_view(o)) == outcomes
            }),
        decreases rest@.len(),
    {
        let ghost before_rest = rest@;
        let c = rest.pop().unwrap();
        proof {
            assert(before_rest =~= rest@.push(c));
            assert(before_rest.reverse() =~= seq![c] + rest@.reverse());
            assert(rest@.reverse() =~= before_rest.reverse().drop_first());
            assert(all.skip(i as int).drop_first() =~= all.skip(i + 1));
            assert(all.skip(i as int)[0] == all[i as int]);
            assert(all.take(i + 1).drop_last() =~= all.take(i as int));
            assert(all.take(i + 1).last() == all[i as int]);
            assert(all[i as int] == c);
            assert forall|k: int| 0 <= k < all.take(i as int).len() implies (#[trigger] all.take(
                i as int,
            )[k]).slot < empty.len() by {
                assert(all.take(i as int)[k] == all[k]);
            }
            lemma_recorded_slots(start, empty, all.take(i as int));
        }
        let ghost before = session@;
        let ghost before_out = out@;
        let CallResult { slot, name, result, response } = c;
        let mut message = String::from_str("failed to add function response for `");
        message.append(name.as_str());
        message.append("`: FunctionResponse must be after model prompt and not first in session");
        let added = session.add_function_response(name, response);
        let outcome = match added {
            Ok(_) => Some(result),
            Err(_) => Some(Err(message)),
        };
        out.set(slot, outcome);
        proof {
            if !add_chat_refused(before.history, Role::Function) {
                lemma_after_function_response(before, response_chat(c));
            }
            assert(out@.map_values(|o: Option<Result<Value, String>>| outcome_view(o)) =~= before_out.map_values(
                |o: Option<Result<Value, String>>| outcome_view(o),
            ).update(slot as int, outcome_view(outcome)));
            assert(rest@.reverse() =~= all.skip(i + 1));
        }
        i = i + 1;
    }
    assert(all.take(n as int) =~= all);
    out
}

/// The response recorded for a failed call by default: `{"Error": message}`.
pub fn error_response(message: &str) -> (r: Value)
    ensures
        r == json_object_of(seq![("Error"@, json_string_of(message@))]),
{
    let entries = vec![("Error".to_owned(), json_string(message))];
    assert(entries_view(entries@) =~= seq![("Error"@, json_string_of(message@))]);
    json_object(entries)
}

} // verus!
