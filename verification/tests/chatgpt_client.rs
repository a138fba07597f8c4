use llms_client::chatgpt::ask::ChatGpt;
use llms_client::chatgpt::types::request::Role;
use llms_client::chatgpt::types::sessions::Session;
use llms_client::chatgpt::utils::merge_json;
use serde_json::Value;

fn json(s: &str) -> Value {
    serde_json::from_str(s).unwrap()
}

#[test]
fn builders_set_fields() {
    let gpt = ChatGpt::new("key".to_string(), "gpt-4o-mini".to_string(), None)
        .set_model("other".to_string())
        .set_api_key("k2".to_string())
        .set_tools(vec![json("{\"type\":\"function\"}")]);
    assert_eq!(gpt.model(), "other");
    assert_eq!(gpt.api_key(), "k2");
    assert_eq!(gpt.tools().as_ref().unwrap().len(), 1);
    let gpt = gpt.unset_tools();
    assert!(gpt.tools().is_none());
}

#[test]
fn json_mode_sets_response_format() {
    let gpt = ChatGpt::new("key".to_string(), "m".to_string(), None)
        .set_json_mode(json("{\"type\":\"object\"}"));
    assert_eq!(
        gpt.response_format().as_ref().unwrap(),
        &json("{\"type\":\"json_schema\",\"json_schema\":{\"name\":\"response\",\"schema\":{\"type\":\"object\"},\"strict\":true}}")
    );
    assert!(gpt.unset_json_mode().response_format().is_none());
}

#[test]
fn generation_config_starts_as_empty_object() {
    let mut gpt = ChatGpt::new("key".to_string(), "m".to_string(), None);
    assert!(gpt.generation_config().is_none());
    gpt.set_generation_config()["seed"] = 1.into();
    assert_eq!(gpt.generation_config().as_ref().unwrap(), &json("{\"seed\":1}"));
    gpt.set_generation_config()["top_p"] = 1.into();
    assert_eq!(gpt.generation_config().as_ref().unwrap(), &json("{\"seed\":1,\"top_p\":1}"));
}

#[test]
fn messages_start_with_system_prompt() {
    let gpt = ChatGpt::new("key".to_string(), "m".to_string(), Some("be brief".to_string()));
    let mut s = Session::new(4);
    s.ask("q".to_string());
    let msgs = gpt.build_messages(&s);
    assert_eq!(msgs.len(), 2);
    assert_eq!(*msgs[0].role(), Role::System);
    assert_eq!(msgs[0].content(), "be brief");
    assert_eq!(msgs[1].content(), "q");
    let gpt = gpt.set_sys_prompt(None);
    assert_eq!(gpt.build_messages(&s).len(), 1);
}

#[test]
fn request_body_holds_model_messages_and_options() {
    let mut gpt = ChatGpt::new("key".to_string(), "m".to_string(), None)
        .set_tools(vec![json("{\"type\":\"function\"}")])
        .set_json_mode(json("{\"type\":\"object\"}"));
    gpt.set_generation_config()["seed"] = 1.into();
    let body = gpt.build_body(json("[{\"role\":\"user\",\"content\":\"hi\"}]"), true);
    assert_eq!(
        body,
        json(
            "{\"model\":\"m\",\"messages\":[{\"role\":\"user\",\"content\":\"hi\"}],\"seed\":1,\
             \"tools\":[{\"type\":\"function\"}],\"response_format\":{\"type\":\"json_schema\",\
             \"json_schema\":{\"name\":\"response\",\"schema\":{\"type\":\"object\"},\"strict\":true}},\
             \"stream\":true}"
        )
    );
    let plain = ChatGpt::new("key".to_string(), "m".to_string(), None);
    assert_eq!(
        plain.build_body(json("[]"), false),
        json("{\"model\":\"m\",\"messages\":[]}")
    );
}

#[test]
fn merge_json_copies_entries_of_objects_only() {
    let mut into = json("{\"a\":1,\"b\":2}");
    merge_json(&mut into, &json("{\"b\":3,\"c\":4}"));
    assert_eq!(into, json("{\"a\":1,\"b\":3,\"c\":4}"));
    let mut not_object = json("[1]");
    merge_json(&mut not_object, &json("{\"b\":3}"));
    assert_eq!(not_object, json("[1]"));
    let mut into = json("{\"a\":1}");
    merge_json(&mut into, &json("5"));
    assert_eq!(into, json("{\"a\":1}"));
}
