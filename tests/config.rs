use maach_et::config::{Config, LlmTarget};
use maach_et::Error;

#[test]
fn test_default_values() {
    let config = Config::default();
    assert_eq!(config.model, "ollama/qwen2.5-coder");
    assert_eq!(config.hostname, "localhost");
    assert_eq!(config.port, 11434);
}

#[test]
fn test_custom_values() {
    let config = Config::new(
        "ollama/codellama".to_string(),
        "api.example.com".to_string(),
        8080,
    );
    assert_eq!(config.model, "ollama/codellama");
    assert_eq!(config.hostname, "api.example.com");
    assert_eq!(config.port, 8080);
}

#[test]
fn test_create_ollama_client() {
    let config = Config::new("ollama/codellama".to_string(), "test.local".to_string(), 9999);
    let client = config.create_llm_client().unwrap();
    match client {
        LlmTarget::Ollama { host, port, model } => {
            assert_eq!(host, "test.local");
            assert_eq!(port, 9999);
            assert_eq!(model, "codellama");
        }
        LlmTarget::OpenAi { .. } => panic!("expected the local server"),
    }
}

#[test]
fn test_invalid_model_format() {
    let config = Config::new("invalid-model".to_string(), "localhost".to_string(), 11434);
    assert!(config.create_llm_client().is_err());
}

#[test]
fn test_unsupported_provider() {
    let config = Config::new("unsupported/model".to_string(), "localhost".to_string(), 11434);
    assert!(config.create_llm_client().is_err());
}

#[test]
fn openai_model_selects_the_hosted_service() {
    let config = Config::new("openai/gpt-4".to_string(), "localhost".to_string(), 11434);
    match config.create_llm_client().unwrap() {
        LlmTarget::OpenAi { model } => assert_eq!(model, "gpt-4"),
        LlmTarget::Ollama { .. } => panic!("expected the hosted service"),
    }
}

#[test]
fn model_errors_carry_their_messages() {
    let two_slashes = Config::new("a/b/c".to_string(), "h".to_string(), 1);
    match two_slashes.create_llm_client() {
        Err(Error::Llm(m)) => assert_eq!(m, "Model must be in format provider/model"),
        _ => panic!("expected a format error"),
    }
    let other = Config::new("mistral/large".to_string(), "h".to_string(), 1);
    match other.create_llm_client() {
        Err(e) => assert_eq!(e.message(), "LLM error: Unsupported provider: mistral"),
        Ok(_) => panic!("expected an unsupported provider"),
    }
}
