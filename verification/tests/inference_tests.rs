use oxyde::config::{
    default_embedding_dim, default_max_tokens, default_memory_capacity, default_model,
    default_short_term_capacity, default_timeout, AgentPersonality, EmbeddingModelType,
};
use oxyde::inference::{
    cloud_messages, local_prompt,
    fallback_provider, initial_provider, language_instruction, resolve_provider, retry_provider,
    system_message,
    CloudInferenceProvider, LocalInferenceProvider, ProviderSetupError, ProviderType,
    ResolvedProvider,
};

#[test]
fn default_configuration_values() {
    assert_eq!(default_memory_capacity(), 100);
    assert_eq!(default_short_term_capacity(), 10);
    assert_eq!(default_embedding_dim(), 384);
    assert_eq!(default_model(), "llama2-7b");
    assert_eq!(default_max_tokens(), 256);
    assert_eq!(default_timeout(), 5000);
    assert_eq!(EmbeddingModelType::default(), EmbeddingModelType::MiniBert);
    let p = AgentPersonality {
        name: "Test Agent".to_string(),
        role: "Tester".to_string(),
        backstory: vec!["A test agent".to_string()],
        knowledge: vec!["Testing knowledge".to_string()],
    };
    assert_eq!(p.clone().name, "Test Agent");
}

#[test]
fn provider_choice() {
    assert_eq!(initial_provider(false), ProviderType::Cloud);
    assert_eq!(initial_provider(true), ProviderType::Local);
    assert_eq!(fallback_provider(ProviderType::Cloud), ProviderType::Local);
    assert_eq!(fallback_provider(ProviderType::Local), ProviderType::Cloud);
}

#[test]
fn provider_setup_errors() {
    let none: Option<String> = None;
    let endpoint = Some("https://api.openai.com/v1/chat/completions".to_string());
    match resolve_provider(ProviderType::Local, &none, &endpoint, &none, &none) {
        Err(e) => {
            assert_eq!(e, ProviderSetupError::NoLocalModelPath);
            assert_eq!(e.message(), "No local model path configured");
        }
        Ok(_) => panic!("expected an error"),
    }
    assert!(matches!(
        resolve_provider(ProviderType::Cloud, &none, &none, &none, &none),
        Err(ProviderSetupError::NoApiEndpoint)
    ));
    assert!(matches!(
        resolve_provider(ProviderType::Cloud, &none, &endpoint, &none, &none),
        Err(ProviderSetupError::NoApiKey)
    ));
}

#[test]
fn configured_key_wins_over_environment() {
    let endpoint = Some("https://example.org/llm".to_string());
    let key = Some("SECRET-REDACTED".to_string());
    let env_key = Some("from-env".to_string());
    match resolve_provider(ProviderType::Cloud, &None, &endpoint, &key, &env_key) {
        Ok(ResolvedProvider::Cloud(c)) => {
            assert_eq!(c.api_key(), "SECRET-REDACTED");
            assert_eq!(c.api_endpoint(), "https://example.org/llm");
            assert_eq!(c.model_name(), "llama-2-7b");
        }
        _ => panic!("expected a cloud provider"),
    }
    match resolve_provider(ProviderType::Cloud, &None, &endpoint, &None, &env_key) {
        Ok(ResolvedProvider::Cloud(c)) => assert_eq!(c.api_key(), "from-env"),
        _ => panic!("expected a cloud provider"),
    }
    match resolve_provider(ProviderType::Local, &Some("/models/x".to_string()), &None, &None, &None) {
        Ok(ResolvedProvider::Local(l)) => assert_eq!(l.model_path(), "/models/x"),
        _ => panic!("expected a local provider"),
    }
}

#[test]
fn language_instructions() {
    assert_eq!(language_instruction("es"), "Respond in Spanish.");
    assert_eq!(language_instruction("pt"), "Respond in language code: pt");
    assert_eq!(system_message("You are a test NPC.", "en"), "You are a test NPC.");
    assert_eq!(
        system_message("You are a test NPC.", "fr"),
        "You are a test NPC.\n\nRespond in French."
    );
}

#[test]
fn responses_count_tokens() {
    let local = LocalInferenceProvider::new("/models/a".to_string());
    let r = local.respond("Hello there", 12);
    assert_eq!(r.text, "This is a simulated response to: Hello there");
    assert_eq!(r.tokens, 8);
    assert_eq!(r.provider_name, "local");
    assert_eq!(r.time_ms, 12);
    let cloud = CloudInferenceProvider::new("https://api.openai.com/v1".to_string(), "k".to_string());
    assert_eq!(cloud.model_name(), "gpt-3.5-turbo");
    let r = cloud.respond("Fine, thanks.".to_string(), 3);
    assert_eq!(r.tokens, 2);
    assert_eq!(r.provider_name, "cloud");
}

#[test]
fn chat_messages_with_memories_and_language() {
    let contents = vec!["Met the player".to_string(), "Sold a sword".to_string()];
    let msgs = cloud_messages("You are Bob.", &contents, "Memories: two", "fr", "Bonjour");
    let pairs: Vec<(String, String)> = msgs.iter().map(|m| (m.role.clone(), m.content.clone())).collect();
    assert_eq!(
        pairs,
        vec![
            ("system".to_string(), "You are Bob.\n\nRespond in French.".to_string()),
            ("system".to_string(), "Relevant context:\n- Met the player\n- Sold a sword".to_string()),
            ("system".to_string(), "Memories: two".to_string()),
            ("user".to_string(), "Bonjour".to_string()),
        ]
    );
    let plain = cloud_messages("You are Bob.", &contents, "", "en", "Hi");
    assert_eq!(plain.len(), 2);
    assert_eq!(plain[0].content, "You are Bob.");
    assert_eq!(plain[1].role, "user");
}

#[test]
fn local_prompt_layout() {
    assert_eq!(local_prompt("Sys", "", "Hi"), "Sys\n\nUser: Hi\nAssistant: ");
    assert_eq!(local_prompt("Sys", "Ctx", "Hi"), "Sys\n\nCtx\n\nUser: Hi\nAssistant: ");
}

#[test]
fn retry_only_after_failure_with_fallback_configured() {
    assert_eq!(retry_provider(ProviderType::Local, true, true), Some(ProviderType::Cloud));
    assert_eq!(retry_provider(ProviderType::Cloud, true, true), Some(ProviderType::Local));
    assert_eq!(retry_provider(ProviderType::Local, true, false), None);
    assert_eq!(retry_provider(ProviderType::Cloud, false, true), None);
}
