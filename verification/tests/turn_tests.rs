use chatbot_llm::data::{ChatConversation, ChatMessage, MessageRole};
use chatbot_llm::turn::Turn;

fn conversation_with_system() -> ChatConversation {
    let mut conversation = ChatConversation::new();
    conversation.add_message(ChatMessage::from_system("sp".to_string()));
    conversation
}

#[test]
fn failed_transport_leaves_one_user_message_and_no_assistant() {
    let mut conversation = conversation_with_system();
    let turn = Turn::begin(&mut conversation, "question".to_string());
    // The transport call fails before any bytes: no chunk arrives.
    turn.finish(&mut conversation);
    assert_eq!(conversation.len(), 2);
    assert_eq!(*conversation.get(1).role(), MessageRole::User);
    assert_eq!(conversation.get(1).content(), "question");
}

#[test]
fn streamed_deltas_commit_one_assistant_message() {
    let mut conversation = conversation_with_system();
    let mut turn = Turn::begin(&mut conversation, "q".to_string());
    let first = turn.on_chunk(b"data: {\"choices\":[{\"delta\":{\"content\":\"Hel\"}}]}\n\n");
    assert_eq!(first, vec!["Hel".to_string()]);
    let second = turn.on_chunk(b"data: {\"choices\":[{\"delta\":{\"content\":\"lo\"}}]}\n\n");
    assert_eq!(second, vec!["lo".to_string()]);
    turn.finish(&mut conversation);
    assert_eq!(conversation.len(), 3);
    assert_eq!(*conversation.get(2).role(), MessageRole::Assistant);
    assert_eq!(conversation.get(2).content(), "Hello");
}

#[test]
fn zero_deltas_commit_no_assistant_message() {
    let mut conversation = conversation_with_system();
    let mut turn = Turn::begin(&mut conversation, "q".to_string());
    let deltas = turn.on_chunk(b"data: [DONE]\n\n");
    assert!(deltas.is_empty());
    turn.finish(&mut conversation);
    assert_eq!(conversation.len(), 2);
    assert_eq!(*conversation.get(1).role(), MessageRole::User);
}

#[test]
fn interrupted_stream_commits_what_was_accumulated() {
    let mut conversation = conversation_with_system();
    let mut turn = Turn::begin(&mut conversation, "q".to_string());
    turn.on_chunk(b"data: {\"choices\":[{\"delta\":{\"content\":\"partial\"}}]}\n");
    // A mid-stream failure stops the pumping here.
    assert_eq!(turn.accumulated(), "partial");
    turn.finish(&mut conversation);
    assert_eq!(conversation.len(), 3);
    assert_eq!(*conversation.get(2).role(), MessageRole::Assistant);
    assert_eq!(conversation.get(2).content(), "partial");
}

#[test]
fn user_message_is_appended_immediately() {
    let mut conversation = conversation_with_system();
    let _turn = Turn::begin(&mut conversation, "asked".to_string());
    assert_eq!(conversation.len(), 2);
    assert_eq!(*conversation.get(1).role(), MessageRole::User);
    assert_eq!(conversation.get(1).content(), "asked");
}

#[test]
fn an_empty_delta_accumulates_nothing_and_commits_nothing() {
    let mut conversation = conversation_with_system();
    let mut turn = Turn::begin(&mut conversation, "q".to_string());
    let deltas = turn.on_chunk(b"data: {\"choices\":[{\"delta\":{\"content\":\"\"}}]}\n");
    assert_eq!(deltas, vec![String::new()]);
    turn.finish(&mut conversation);
    assert_eq!(conversation.len(), 2);
}
