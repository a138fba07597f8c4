use llms_client::chatgpt::types::request::{ChatMessage, Role};
use llms_client::chatgpt::types::response::{
    ChatGptResponse, ChatGptStreamChunk, Choice, ChoiceDelta, DeltaMessage,
};
use llms_client::chatgpt::types::sessions::Session;

fn chunk(texts: &[Option<&str>]) -> ChatGptStreamChunk {
    ChatGptStreamChunk {
        id: Some("c".to_string()),
        choices: texts
            .iter()
            .enumerate()
            .map(|(i, t)| ChoiceDelta {
                index: i,
                delta: DeltaMessage { role: None, content: t.map(|s| s.to_string()) },
                finish_reason: None,
            })
            .collect(),
        usage: None,
    }
}

fn response(text: &str) -> ChatGptResponse {
    ChatGptResponse {
        id: "r".to_string(),
        choices: vec![Choice::new(
            0,
            ChatMessage::new(Role::Assistant, text.to_string(), None, None),
            Some("stop".to_string()),
        )],
        usage: None,
    }
}

#[test]
fn append_content_extends_text() {
    let mut m = ChatMessage::new(Role::User, "ab".to_string(), Some("n".to_string()), None);
    m.append_content("cd");
    assert_eq!(m.content(), "abcd");
    assert_eq!(m.name().as_deref(), Some("n"));
    assert_eq!(*m.role(), Role::User);
}

#[test]
fn same_role_messages_merge() {
    let mut s = Session::new(4);
    s.ask("Hello ".to_string()).ask("there".to_string());
    assert_eq!(s.get_history_length(), 1);
    assert_eq!(s.get_chat_no(), 1);
    assert_eq!(s.get_last_chat().unwrap().content(), "Hello there");
}

#[test]
fn limit_keeps_latest_messages() {
    let mut s = Session::new(2);
    s.ask("q1".to_string());
    s.reply("a1".to_string());
    s.ask("q2".to_string());
    let h = s.get_history_cloned();
    assert_eq!(h.len(), 2);
    assert_eq!(h[0].content(), "a1");
    assert_eq!(h[1].content(), "q2");
    assert_eq!(s.get_chat_no(), 3);
    assert_eq!(s.get_history().len(), 2);
    assert_eq!(s.get_history_as_vecdeque().len(), 2);
}

#[test]
fn update_with_response_remembers_reply() {
    let mut s = Session::new(4);
    s.ask("q".to_string());
    let r = response("answer");
    assert_eq!(r.text(), "answer");
    let m = s.update_with_response(&r).unwrap();
    assert_eq!(m.content(), "answer");
    assert_eq!(s.get_history_length(), 2);
    assert_eq!(*s.get_last_chat().unwrap().role(), Role::Assistant);
}

#[test]
fn update_with_response_without_remembering_drops_prompt() {
    let mut s = Session::new(4).set_remember_reply(false);
    s.ask("q".to_string());
    assert!(s.update_with_response(&response("a")).is_none());
    assert_eq!(s.get_history_length(), 0);
    assert_eq!(s.get_chat_no(), 1);
}

#[test]
fn text_delta_joins_contents() {
    let c = chunk(&[Some("Hel"), None, Some("lo")]);
    assert_eq!(c.text_delta(), "Hello");
    assert_eq!(chunk(&[]).text_delta(), "");
}

#[test]
fn stream_appends_to_trailing_assistant_message() {
    let mut s = Session::new(4);
    s.ask("q".to_string());
    s.update_stream(&chunk(&[Some("Hel")]));
    assert_eq!(s.get_history_length(), 2);
    assert_eq!(s.get_last_chat().unwrap().content(), "Hel");
    let c = chunk(&[Some("lo"), None, Some("!")]);
    s.update_stream(&c);
    assert_eq!(s.get_history_length(), 2);
    assert_eq!(s.get_last_chat().unwrap().content(), "Hello!");
    assert_eq!(s.get_chat_no(), 2);
}

#[test]
fn stream_with_zero_limit_counts_each_text() {
    let mut s = Session::new(0);
    s.update_stream(&chunk(&[Some("a"), Some("b")]));
    assert_eq!(s.get_history_length(), 0);
    assert_eq!(s.get_chat_no(), 2);
}

#[test]
fn last_chat_mut_edits_history() {
    let mut s = Session::new(4);
    assert!(s.get_last_chat_mut().is_none());
    s.reply("x".to_string());
    s.get_last_chat_mut().unwrap().append_content("y");
    assert_eq!(s.get_last_chat().unwrap().content(), "xy");
    assert_eq!(Session::default().get_history_limit(), 0);
}

#[test]
fn ordinary_chunks_fit_the_count() {
    let s = Session::new(0);
    assert!(s.stream_fits(&chunk(&[Some("a"), None, Some("b")])));
    let s = Session::new(4);
    assert!(s.stream_fits(&chunk(&[])));
}
