use chatbot_llm::chat::ChatSession;
use chatbot_llm::cli::{Cli, Commands};
use chatbot_llm::client::{parse_u64, LlmClient};
use chatbot_llm::data::{ChatConversation, ChatMessage};
use chatbot_llm::error::AppError;

fn client_with_defaults() -> LlmClient {
    LlmClient::from_env_values(Some("sk-test".to_string()), None, None, None).unwrap()
}

#[test]
fn missing_api_key_is_a_fatal_configuration_error() {
    let err = LlmClient::from_env_values(None, None, None, None).unwrap_err();
    assert_eq!(
        err.message(),
        "Configuration error: Missing environment variable: OPENAI_API_KEY"
    );
}

#[test]
fn defaults_fill_url_model_and_timeout() {
    let client = client_with_defaults();
    assert_eq!(client.api_key(), "sk-test");
    assert_eq!(client.base_url(), "https://api.openai.com/v1");
    assert_eq!(client.model(), "gpt-3.5-turbo");
    assert_eq!(client.timeout_seconds(), 120);
}

#[test]
fn given_values_win_over_defaults() {
    let client = LlmClient::from_env_values(
        Some("k".to_string()),
        Some("http://localhost:1234/v1".to_string()),
        Some("other-model".to_string()),
        Some("15".to_string()),
    )
    .unwrap();
    assert_eq!(client.base_url(), "http://localhost:1234/v1");
    assert_eq!(client.model(), "other-model");
    assert_eq!(client.timeout_seconds(), 15);
}

#[test]
fn unparsable_timeout_falls_back_to_the_default() {
    let client =
        LlmClient::from_env_values(Some("k".to_string()), None, None, Some("soon".to_string()))
            .unwrap();
    assert_eq!(client.timeout_seconds(), 120);
}

#[test]
fn completions_url_and_authorization_header() {
    let client = client_with_defaults();
    assert_eq!(
        client.completions_url(),
        "https://api.openai.com/v1/chat/completions"
    );
    assert_eq!(client.authorization_header(), "Bearer sk-test");
}

#[test]
fn request_body_uses_the_client_model() {
    let client = client_with_defaults();
    let mut conversation = ChatConversation::new();
    conversation.add_message(ChatMessage::from_user("q".to_string()));
    let body = client.request_body(&conversation, None, None);
    let value: serde_json::Value = serde_json::from_str(&body).unwrap();
    assert_eq!(value["model"], "gpt-3.5-turbo");
}

#[test]
fn parse_u64_accepts_digits_and_a_plus_sign() {
    assert_eq!(parse_u64("120"), Some(120));
    assert_eq!(parse_u64("+7"), Some(7));
    assert_eq!(parse_u64("0"), Some(0));
    assert_eq!(parse_u64("18446744073709551615"), Some(u64::MAX));
}

#[test]
fn parse_u64_rejects_everything_else() {
    assert_eq!(parse_u64(""), None);
    assert_eq!(parse_u64("+"), None);
    assert_eq!(parse_u64("-3"), None);
    assert_eq!(parse_u64("12a"), None);
    assert_eq!(parse_u64(" 12"), None);
    assert_eq!(parse_u64("18446744073709551616"), None);
    assert_eq!(parse_u64("99999999999999999999999"), None);
}

#[test]
fn error_messages_spell_their_kind_and_cause() {
    assert_eq!(
        AppError::api_response_error(404, "not found".to_string()).message(),
        "Network error: API request failed with status 404: not found"
    );
    assert_eq!(
        AppError::timeout_error(30).message(),
        "Network error: Request timeout after 30 seconds"
    );
    assert_eq!(
        AppError::response_parsing_error("bad".to_string()).message(),
        "Network error: Failed to parse API response: bad"
    );
    assert_eq!(
        AppError::request_error("refused".to_string()).message(),
        "Network error: HTTP request failed: refused"
    );
    assert_eq!(
        AppError::http_client_error("tls".to_string()).message(),
        "Configuration error: HTTP client configuration failed: tls"
    );
    assert_eq!(
        AppError::config_load_error("missing file".to_string()).message(),
        "Configuration error: Failed to load configuration file: missing file"
    );
    assert_eq!(
        AppError::agent_not_found("x".to_string(), "default".to_string()).message(),
        "Agent error: Agent 'x' not found. Available agents: default"
    );
}

#[test]
fn session_begins_a_conversation_with_the_system_prompt() {
    let session = ChatSession::new(client_with_defaults());
    let (agent, conversation) = session.begin_conversation(Some("architect")).unwrap();
    assert_eq!(agent.name(), "solution-architect");
    assert_eq!(conversation.len(), 1);
    assert_eq!(conversation.get(0).content(), agent.system_prompt());
}

#[test]
fn session_defaults_to_the_default_persona() {
    let session = ChatSession::new(client_with_defaults());
    let (agent, _) = session.begin_conversation(None).unwrap();
    assert_eq!(agent.name(), "default");
}

#[test]
fn session_reports_an_unknown_persona() {
    let session = ChatSession::new(client_with_defaults());
    assert!(session.begin_conversation(Some("nobody")).is_err());
}

#[test]
fn exit_commands_are_case_insensitive() {
    let session = ChatSession::new(client_with_defaults());
    assert!(session.is_exit_command("quit"));
    assert!(session.is_exit_command("QUIT"));
    assert!(session.is_exit_command("Exit"));
    assert!(session.is_exit_command("eXiT"));
    assert!(!session.is_exit_command("quit "));
    assert!(!session.is_exit_command("hello"));
    assert!(!session.is_exit_command(""));
}

#[test]
fn cli_defaults_to_a_chat_with_no_persona() {
    let cli = Cli::new(None);
    match cli.command() {
        Commands::Chat { agent } => assert!(agent.is_none()),
        Commands::ListAgents => panic!("expected the default chat command"),
    }
}

#[test]
fn cli_passes_the_given_command_through() {
    let cli = Cli::new(Some(Commands::Chat {
        agent: Some("pirate".to_string()),
    }));
    match cli.command() {
        Commands::Chat { agent } => assert_eq!(agent.as_deref(), Some("pirate")),
        Commands::ListAgents => panic!("expected the chat command"),
    }
    let list = Cli::new(Some(Commands::ListAgents));
    assert!(matches!(list.command(), Commands::ListAgents));
}
