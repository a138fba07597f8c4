use llms_client::gemini::function_calls::{error_response, record_call_results, requested_calls, CallResult};
use serde_json::Value;
use llms_client::gemini::types::request::{FunctionCall, Part, PartType, Role};
use llms_client::gemini::types::sessions::Session;

fn call(name: &str) -> Part {
    Part::new(PartType::FunctionCall(FunctionCall::new(name.to_string(), None)))
}

#[test]
fn calls_of_last_chat_in_part_order() {
    let mut s = Session::new(10);
    s.ask(Part::from_text("go"));
    s.reply_parts(vec![call("greet"), Part::from_text("x"), call("unknown"), call("add_numbers")]);
    let names = vec!["add_numbers".to_string(), "greet".to_string()];
    assert_eq!(requested_calls(&s, &names), vec![(1, 0), (0, 3)]);
}

#[test]
fn no_calls_without_history_or_matches() {
    let s = Session::new(10);
    assert!(requested_calls(&s, &vec!["f".to_string()]).is_empty());
    let mut s = Session::new(10);
    s.ask(Part::from_text("only text"));
    assert!(requested_calls(&s, &vec!["f".to_string()]).is_empty());
}

#[test]
fn duplicate_names_use_the_first_position() {
    let mut s = Session::new(10);
    s.reply_parts(vec![call("f")]);
    let names = vec!["g".to_string(), "f".to_string(), "f".to_string()];
    assert_eq!(requested_calls(&s, &names), vec![(1, 0)]);
}

fn json(s: &str) -> Value {
    serde_json::from_str(s).unwrap()
}

fn outcome(slot: usize, name: &str, result: Result<Value, String>, response: Value) -> CallResult {
    CallResult { slot, name: name.to_string(), result, response }
}

#[test]
fn results_are_recorded_as_function_responses() {
    let mut s = Session::new(10);
    s.ask(Part::from_text("go"));
    s.reply_parts(vec![call("f"), call("g")]);
    let results = vec![
        outcome(1, "g", Err("boom".to_string()), json("{\"Error\":\"boom\"}")),
        outcome(0, "f", Ok(json("3")), json("3")),
    ];
    let r = record_call_results(&mut s, 3, results);
    assert_eq!(r, vec![Some(Ok(json("3"))), Some(Err("boom".to_string())), None]);
    assert_eq!(s.get_history_length(), 3);
    let last = s.get_last_chat().unwrap();
    assert_eq!(*last.role(), Role::Function);
    assert_eq!(last.parts().len(), 2);
    match last.parts()[1].data() {
        PartType::FunctionResponse(resp) => {
            assert_eq!(resp.name(), "f");
            assert_eq!(resp.response(), &json("{\"result\":3}"));
        }
        _ => panic!("not a function response"),
    }
}

#[test]
fn refused_results_leave_the_session_unchanged() {
    let mut s = Session::new(10);
    s.ask(Part::from_text("go"));
    let r = record_call_results(&mut s, 1, vec![outcome(0, "f", Ok(json("1")), json("1"))]);
    assert_eq!(
        r,
        vec![Some(Err(
            "failed to add function response for `f`: FunctionResponse must be after model prompt and not first in session"
                .to_string()
        ))]
    );
    assert_eq!(s.get_history_length(), 1);
}

#[test]
fn failed_calls_answer_with_an_error_object() {
    assert_eq!(error_response("boom"), json("{\"Error\":\"boom\"}"));
}
