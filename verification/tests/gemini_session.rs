use llms_client::gemini::types::request::{Chat, FunctionCall, Part, PartType, Role};
use llms_client::gemini::types::sessions::{AddFunctionResponseError, Session};
use serde_json::Value;

fn text(s: &str) -> Part {
    Part::from_text(s)
}

fn text_of(part: &Part) -> String {
    match part.data() {
        PartType::Text(t) => t.clone(),
        _ => panic!("not a text part"),
    }
}

fn json(s: &str) -> Value {
    serde_json::from_str(s).unwrap()
}

fn call(name: &str) -> Part {
    Part::new(PartType::FunctionCall(FunctionCall::new(name.to_string(), Some(json("{}")))))
}

#[test]
fn new_session_is_empty() {
    let s = Session::new(6);
    assert_eq!(s.get_history_length(), 0);
    assert_eq!(s.get_history_limit(), 6);
    assert_eq!(s.get_chat_no(), 0);
    assert!(s.get_remember_reply());
    assert!(s.get_last_chat().is_none());
}

#[test]
fn default_session_keeps_nothing() {
    let mut s = Session::default();
    assert_eq!(s.get_history_limit(), 0);
    assert!(!s.get_remember_reply());
    s.ask(text("hi"));
    assert_eq!(s.get_history_length(), 0);
    assert_eq!(s.get_chat_no(), 1);
}

#[test]
fn limit_two_keeps_last_question_and_reply() {
    let mut s = Session::new(2);
    s.ask(text("q1"));
    s.reply(text("a1"));
    s.ask(text("q2"));
    s.reply(text("a2"));
    let h = s.get_history();
    assert_eq!(h.len(), 2);
    assert_eq!(*h[0].role(), Role::User);
    assert_eq!(text_of(&h[0].parts()[0]), "q2");
    assert_eq!(*h[1].role(), Role::Model);
    assert_eq!(text_of(&h[1].parts()[0]), "a2");
    assert_eq!(s.get_chat_no(), 4);
}

#[test]
fn asking_twice_concatenates_parts() {
    let mut s = Session::new(6);
    s.ask(text("a")).ask(text("b"));
    assert_eq!(s.get_history_length(), 1);
    assert_eq!(s.get_chat_no(), 1);
    let last = s.get_last_chat().unwrap();
    assert_eq!(last.parts().len(), 2);
    assert_eq!(Chat::extract_text_all(last.parts(), "|"), "a|b");
}

#[test]
fn function_chat_cannot_come_first_or_after_user() {
    let mut s = Session::new(6);
    let r = s.add_chat(Chat::new(Role::Function, vec![text("x")]));
    assert_eq!(r.err(), Some("Role::Function cannot be first"));
    s.ask(text("q"));
    let r = s.add_chat(Chat::new(Role::Function, vec![text("x")]));
    assert_eq!(r.err(), Some("Role::Function not allowed after Role::User"));
    assert_eq!(s.get_history_length(), 1);
}

#[test]
fn window_drops_dangling_function_chats() {
    let mut s = Session::new(3);
    s.ask(text("q"));
    s.reply_parts(vec![call("f")]);
    s.add_function_response("f".to_string(), json("{\"ok\":true}")).unwrap();
    assert_eq!(s.get_history_length(), 3);
    s.reply(text("done"));
    // the user prompt leaves, then the model call and the function response at the front
    let h = s.get_history();
    assert_eq!(h.len(), 1);
    assert_eq!(*h[0].role(), Role::Model);
    assert_eq!(s.get_chat_no(), 4);
}

#[test]
fn previous_chat_counts_from_the_end() {
    let mut s = Session::new(6);
    s.ask(text("q"));
    s.reply(text("a"));
    assert_eq!(text_of(&s.get_previous_chat(1).unwrap().parts()[0]), "a");
    assert_eq!(text_of(&s.get_previous_chat(2).unwrap().parts()[0]), "q");
    assert!(s.get_previous_chat(0).is_none());
    assert!(s.get_previous_chat(3).is_none());
    s.get_parts_mut(2).unwrap().push(text("more"));
    assert_eq!(s.get_previous_chat(2).unwrap().parts().len(), 2);
    assert_eq!(s.get_parts_no(0).unwrap().len(), 2);
    assert!(s.get_parts_no(2).is_none());
    assert!(s.get_parts_mut(3).is_none());
}

#[test]
fn forget_last_conversation_removes_prompt_and_reply() {
    let mut s = Session::new(6);
    s.ask(text("q1"));
    s.reply(text("a1"));
    s.ask(text("q2"));
    s.reply(text("a2"));
    let (last, second) = s.forget_last_conversation();
    assert_eq!(text_of(&last.unwrap().parts()[0]), "a2");
    assert_eq!(text_of(&second.unwrap().parts()[0]), "q2");
    assert_eq!(s.get_history_length(), 2);
    s.ask(text("q3"));
    let (last, second) = s.forget_last_conversation();
    assert_eq!(text_of(&last.unwrap().parts()[0]), "q3");
    assert!(second.is_none());
    assert_eq!(s.get_history_length(), 2);
    assert_eq!(text_of(&s.remove_last_chat().unwrap().parts()[0]), "a1");
}

#[test]
fn update_without_remembering_drops_prompt() {
    let mut s = Session::new(6).set_remember_reply(false);
    s.ask(text("q"));
    assert!(!s.update(vec![text("a")]));
    assert_eq!(s.get_history_length(), 0);
    let mut s = Session::new(6);
    s.ask(text("q"));
    assert!(s.update(vec![text("a")]));
    assert_eq!(*s.get_last_chat().unwrap().role(), Role::Model);
}

#[test]
fn function_response_is_wrapped_unless_object() {
    let mut s = Session::new(10);
    s.reply_parts(vec![call("add"), call("greet")]);
    s.add_function_response("add".to_string(), json("30")).unwrap();
    s.add_function_response("greet".to_string(), json("{\"msg\":\"hi\"}")).unwrap();
    let h = s.get_history();
    assert_eq!(h.len(), 2);
    assert_eq!(*h[1].role(), Role::Function);
    assert_eq!(h[1].parts().len(), 2);
    match h[1].parts()[0].data() {
        PartType::FunctionResponse(r) => {
            assert_eq!(r.name(), "add");
            assert_eq!(r.response(), &json("{\"result\":30}"));
        }
        _ => panic!("expected a function response"),
    }
    match h[1].parts()[1].data() {
        PartType::FunctionResponse(r) => assert_eq!(r.response(), &json("{\"msg\":\"hi\"}")),
        _ => panic!("expected a function response"),
    }
}

#[test]
fn function_response_after_user_fails() {
    let mut s = Session::new(10);
    s.ask(text("q"));
    let r = s.add_function_response("f".to_string(), json("1"));
    assert!(matches!(r, Err(AddFunctionResponseError::FunctionResponseAfterUser)));
    let mut empty = Session::new(10);
    assert!(empty.add_function_response("f".to_string(), json("1")).is_err());
}

#[test]
fn has_function_call_and_texts() {
    let c = Chat::new(Role::Model, vec![text("a"), call("f"), text("b")]);
    assert!(c.has_function_call());
    assert_eq!(c.get_text_all("-"), "a-b");
    let d = Chat::new(Role::Model, vec![text("a")]);
    assert!(!d.has_function_call());
    assert_eq!(Chat::extract_text_all(&vec![call("f")], "-"), "");
}

#[test]
fn forget_removes_a_trailing_function_response_alone() {
    let mut s = Session::new(6);
    s.ask(text("q1"));
    s.reply(text("a1"));
    s.ask(text("q2"));
    s.reply(text("a2"));
    s.get_last_chat_mut().unwrap().role = Role::Function;
    let (last, second) = s.forget_last_conversation();
    assert_eq!(text_of(&last.unwrap().parts()[0]), "a2");
    assert!(second.is_none());
    assert_eq!(s.get_history_length(), 3);
    assert_eq!(*s.get_last_chat().unwrap().role(), Role::User);
    let mut empty = Session::new(2);
    let (last, second) = empty.forget_last_conversation();
    assert!(last.is_none() && second.is_none());
}
