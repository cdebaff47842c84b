use nerva::session::{Message, Role};
use nerva::wire::{build_request, encode_query, encode_request};

fn msg(role: Role, content: &str) -> Message {
    Message { role, content: content.to_string() }
}

#[test]
fn request_embeds_the_whole_transcript_unchanged() {
    let messages = vec![
        msg(Role::System, "sys"),
        msg(Role::User, "first"),
        msg(Role::Assistant, "reply"),
        msg(Role::User, "second"),
    ];
    let r = build_request(messages);
    assert_eq!(r.model, "deepseek-ai/DeepSeek-R1-Distill-Llama-70B-free");
    assert_eq!(r.temperature_tenths, 8);
    assert!(!r.stream);
    assert_eq!(r.messages.len(), 4);
    assert_eq!(r.messages[0].role, Role::System);
    assert_eq!(r.messages[0].content, "sys");
    assert_eq!(r.messages[1].role, Role::User);
    assert_eq!(r.messages[1].content, "first");
    assert_eq!(r.messages[2].role, Role::Assistant);
    assert_eq!(r.messages[2].content, "reply");
    assert_eq!(r.messages[3].role, Role::User);
    assert_eq!(r.messages[3].content, "second");
}

#[test]
fn encoding_is_the_exact_wire_body() {
    let r = build_request(vec![msg(Role::System, "s"), msg(Role::User, "hi")]);
    let body = encode_request(&r);
    assert_eq!(
        body,
        "{\"model\":\"deepseek-ai/DeepSeek-R1-Distill-Llama-70B-free\",\"messages\":[{\"role\":\"system\",\"content\":\"s\"},{\"role\":\"user\",\"content\":\"hi\"}],\"temperature\":0.8,\"stream\":false}"
    );
}

#[test]
fn encoding_escapes_string_content() {
    let r = build_request(vec![msg(Role::User, "a\"b\\c\nd\te\rf")]);
    let body = encode_request(&r);
    assert!(body.contains("{\"role\":\"user\",\"content\":\"a\\\"b\\\\c\\nd\\te\\rf\"}"));
}

#[test]
fn encoding_escapes_control_characters() {
    let r = build_request(vec![msg(Role::User, "x\u{1}y\u{1f}z")]);
    let body = encode_request(&r);
    assert!(body.contains("\"content\":\"x\\u0001y\\u001fz\""));
}

#[test]
fn empty_transcript_encodes_an_empty_message_list() {
    let r = build_request(vec![]);
    let body = encode_request(&r);
    assert!(body.contains("\"messages\":[]"));
}

#[test]
fn encoding_round_trips_through_a_json_parser_in_order() {
    let r = build_request(vec![
        msg(Role::System, "be brief"),
        msg(Role::User, "what is \"verification\"?\n"),
        msg(Role::Assistant, "proof"),
    ]);
    let body = encode_request(&r);
    let v: serde_json::Value = serde_json::from_str(&body).expect("valid JSON");
    let msgs = v.get("messages").and_then(|m| m.as_array()).expect("array");
    assert_eq!(msgs.len(), 3);
    assert_eq!(msgs[0].get("role").and_then(|x| x.as_str()), Some("system"));
    assert_eq!(msgs[0].get("content").and_then(|x| x.as_str()), Some("be brief"));
    assert_eq!(msgs[1].get("role").and_then(|x| x.as_str()), Some("user"));
    assert_eq!(
        msgs[1].get("content").and_then(|x| x.as_str()),
        Some("what is \"verification\"?\n")
    );
    assert_eq!(msgs[2].get("role").and_then(|x| x.as_str()), Some("assistant"));
    assert_eq!(msgs[2].get("content").and_then(|x| x.as_str()), Some("proof"));
    assert_eq!(v.get("temperature").and_then(|x| x.as_f64()), Some(0.8));
    assert_eq!(v.get("stream").and_then(|x| x.as_bool()), Some(false));
    assert_eq!(
        v.get("model").and_then(|x| x.as_str()),
        Some("deepseek-ai/DeepSeek-R1-Distill-Llama-70B-free")
    );
}

#[test]
fn config_holds_its_values() {
    let c = nerva::config::Config::new("http://localhost/v1".to_string(), "k".to_string());
    assert_eq!(c.api_url, "http://localhost/v1");
    assert_eq!(c.api_key, "k");
}

#[test]
fn chat_record_for_a_turn() {
    let m = nerva::record::ChatMessage::new("q".to_string(), "a".to_string());
    assert_eq!(m.user_query, "q");
    assert_eq!(m.ai_response, "a");
    assert_eq!(m.timestamp, None);
}

#[test]
fn one_shot_query_body_is_the_exact_wire_body() {
    assert_eq!(
        encode_query("sys", "hi"),
        "{\"model\":\"deepseek-ai/DeepSeek-R1-Distill-Llama-70B-free\",\"messages\":[{\"role\":\"system\",\"content\":\"sys\"},{\"role\":\"user\",\"content\":\"hi\"}]}"
    );
}

#[test]
fn one_shot_query_body_escapes_the_prompt() {
    let body = encode_query("s", "line\nwith \"quotes\"");
    assert!(body.contains("\"content\":\"line\\nwith \\\"quotes\\\"\"}"));
    let v: serde_json::Value = serde_json::from_str(&body).expect("valid JSON");
    let msgs = v.get("messages").and_then(|m| m.as_array()).expect("array");
    assert_eq!(
        msgs[1].get("content").and_then(|x| x.as_str()),
        Some("line\nwith \"quotes\"")
    );
}

#[test]
fn bearer_value_prefixes_the_token() {
    assert_eq!(nerva::config::bearer_value("k"), "Bearer k");
    assert_eq!(nerva::config::bearer_value(""), "Bearer ");
}
