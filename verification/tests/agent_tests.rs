use chatbot_llm::agent::{Agent, AgentManager, DEFAULT_PROMPT};

#[test]
fn default_name_resolves_to_default_persona() {
    let manager = AgentManager::new();
    let agent = manager.get_agent("default").expect("default must resolve");
    assert_eq!(agent.name(), "default");
    assert_eq!(agent.system_prompt(), DEFAULT_PROMPT);
}

#[test]
fn canonical_architect_name_resolves() {
    let manager = AgentManager::new();
    let agent = manager.get_agent("solution-architect").unwrap();
    assert_eq!(agent.name(), "solution-architect");
}

#[test]
fn architect_alias_resolves() {
    let manager = AgentManager::new();
    let agent = manager.get_agent("architect").unwrap();
    assert_eq!(agent.name(), "solution-architect");
}

#[test]
fn pirate_aliases_resolve() {
    let manager = AgentManager::new();
    for alias in ["pirate", "one-piece", "straw-hat"] {
        let agent = manager.get_agent(alias).unwrap();
        assert_eq!(agent.name(), "pirate-explorer", "alias {}", alias);
    }
}

#[test]
fn unknown_name_yields_not_found_with_the_list() {
    let manager = AgentManager::new();
    let err = manager.get_agent("nobody").unwrap_err();
    let message = err.message();
    assert_eq!(
        message,
        "Agent error: Agent 'nobody' not found. Available agents: default, \
         solution-architect (or architect), \
         pirate-explorer (or pirate, one-piece, straw-hat)"
    );
}

#[test]
fn list_agents_names_every_persona_default_first() {
    let manager = AgentManager::new();
    let list = manager.list_agents();
    assert_eq!(
        list,
        vec![
            "default".to_string(),
            "solution-architect (or architect)".to_string(),
            "pirate-explorer (or pirate, one-piece, straw-hat)".to_string(),
        ]
    );
}

#[test]
fn get_default_agent_matches_the_registry_entry() {
    let manager = AgentManager::new();
    let built_in = manager.get_default_agent();
    let resolved = manager.get_agent("default").unwrap();
    assert_eq!(built_in.name(), resolved.name());
    assert_eq!(built_in.system_prompt(), resolved.system_prompt());
}

#[test]
fn agent_keeps_name_and_prompt() {
    let agent = Agent::new("n".to_string(), "p".to_string());
    assert_eq!(agent.name(), "n");
    assert_eq!(agent.system_prompt(), "p");
}
