use chatbot_llm::data::{ChatConversation, ChatMessage, MessageRole};
use chatbot_llm::request::build_request_body;

fn sp_q_conversation() -> ChatConversation {
    let mut conversation = ChatConversation::new();
    conversation.add_message(ChatMessage::from_system("sp".to_string()));
    conversation.add_message(ChatMessage::from_user("q".to_string()));
    conversation
}

#[test]
fn body_preserves_message_order_and_role_tags() {
    let body = build_request_body(&sp_q_conversation(), "gpt-3.5-turbo", None, None);
    let value: serde_json::Value = serde_json::from_str(&body).unwrap();
    let messages = value["messages"].as_array().unwrap();
    assert_eq!(messages.len(), 2);
    assert_eq!(messages[0]["role"], "system");
    assert_eq!(messages[0]["content"], "sp");
    assert_eq!(messages[1]["role"], "user");
    assert_eq!(messages[1]["content"], "q");
}

#[test]
fn body_text_is_exactly_the_wire_shape() {
    let body = build_request_body(&sp_q_conversation(), "m", Some(5), Some(3));
    assert_eq!(
        body,
        "{\"model\":\"m\",\"messages\":[\
         {\"role\":\"system\",\"content\":\"sp\"},\
         {\"role\":\"user\",\"content\":\"q\"}],\
         \"max_tokens\":5,\"temperature\":0.3,\"stream\":true}"
    );
}

#[test]
fn defaults_are_a_thousand_tokens_and_seven_tenths() {
    let body = build_request_body(&sp_q_conversation(), "m", None, None);
    let value: serde_json::Value = serde_json::from_str(&body).unwrap();
    assert_eq!(value["max_tokens"], 1000);
    assert_eq!(value["temperature"], 0.7);
    assert_eq!(value["stream"], true);
    assert_eq!(value["model"], "m");
}

#[test]
fn content_is_escaped_and_round_trips() {
    let mut conversation = ChatConversation::new();
    conversation.add_message(ChatMessage::from_user(
        "line one\nsaid \"hi\" \\ tab\there\u{1}".to_string(),
    ));
    let body = build_request_body(&conversation, "m", None, None);
    let value: serde_json::Value = serde_json::from_str(&body).unwrap();
    assert_eq!(
        value["messages"][0]["content"],
        "line one\nsaid \"hi\" \\ tab\there\u{1}"
    );
    assert!(body.contains("\\n"));
    assert!(body.contains("\\\""));
    assert!(body.contains("\\u0001"));
}

#[test]
fn assistant_role_is_tagged_on_the_wire() {
    let mut conversation = ChatConversation::new();
    conversation.add_message(ChatMessage::new(MessageRole::Assistant, "a".to_string()));
    let body = build_request_body(&conversation, "m", None, None);
    let value: serde_json::Value = serde_json::from_str(&body).unwrap();
    assert_eq!(value["messages"][0]["role"], "assistant");
}

#[test]
fn empty_conversation_serializes_an_empty_array() {
    let conversation = ChatConversation::new();
    let body = build_request_body(&conversation, "m", Some(1), Some(10));
    assert_eq!(
        body,
        "{\"model\":\"m\",\"messages\":[],\"max_tokens\":1,\"temperature\":1.0,\"stream\":true}"
    );
}
