use lean::provider::{
    CredentialAccess, HttpFailure, MockProvider, ModelProvider, ModelRequest,
    OpenAiCompatibleProvider, ProviderErrorKind, ProviderRegistry, ProviderRegistryError,
    ProviderSpec, MINIMAX_API_KEY_ENV,
};
use lean::config::{ProviderConfig, ProviderKind};

fn provider_config() -> ProviderConfig {
    ProviderConfig {
        name: "fake".to_string(),
        kind: ProviderKind::OpenAiCompatible,
        model: "fake-model".to_string(),
        api_key_env: "FAKE_API_KEY".to_string(),
        base_url: Some("http://127.0.0.1:1/v1".to_string()),
    }
}

fn provider_registry_error(
    result: Result<ProviderSpec, ProviderRegistryError>,
) -> ProviderRegistryError {
    match result {
        Ok(provider) => panic!("provider {} should not resolve", provider.name()),
        Err(error) => error,
    }
}

#[test]
fn mock_provider_returns_configured_final_message() {
    let provider = MockProvider::new("configured final response");
    let response = provider
        .complete(ModelRequest {
            task: "noop".to_string(),
        })
        .expect("mock provider should not fail");

    assert_eq!(response.final_message, "configured final response");
}

#[test]
fn registry_resolves_mock_provider() {
    let provider = ProviderRegistry::with_credentials(Vec::new(), Vec::new())
        .resolve("mock")
        .expect("mock provider should resolve");

    assert_eq!(provider.name(), "mock");
}

#[test]
fn registry_rejects_unknown_provider() {
    let error = provider_registry_error(
        ProviderRegistry::with_credentials(Vec::new(), Vec::new()).resolve("missing"),
    );

    assert_eq!(
        error,
        ProviderRegistryError::UnknownProvider {
            provider: "missing".to_string()
        }
    );
}

#[test]
fn registry_rejects_missing_and_empty_credentials() {
    let provider = provider_config();
    let missing = provider_registry_error(
        ProviderRegistry::with_credentials(vec![provider.clone()], Vec::new()).resolve("fake"),
    );

    assert_eq!(
        missing,
        ProviderRegistryError::MissingCredential {
            provider: "fake".to_string(),
            env_var: "FAKE_API_KEY".to_string(),
        }
    );

    let empty = provider_registry_error(
        ProviderRegistry::with_credentials(
            vec![provider],
            vec![("FAKE_API_KEY".to_string(), " ".to_string())],
        )
        .resolve("fake"),
    );

    assert_eq!(
        empty,
        ProviderRegistryError::EmptyCredential {
            provider: "fake".to_string(),
            env_var: "FAKE_API_KEY".to_string(),
        }
    );
}

#[test]
fn registry_resolves_minimax_opencode_style_model_id() {
    let resolved = ProviderRegistry::with_credentials(
        Vec::new(),
        vec![(MINIMAX_API_KEY_ENV.to_string(), "test-token".to_string())],
    )
    .resolve_with_audit("minimax/MiniMax-M2.7")
    .expect("built-in minimax provider should resolve");

    assert_eq!(
        resolved.credential_access(),
        Some(&CredentialAccess {
            provider: "minimax/MiniMax-M2.7".to_string(),
            env_var: MINIMAX_API_KEY_ENV.to_string(),
        })
    );
    assert_eq!(resolved.into_provider().name(), "minimax/MiniMax-M2.7");
}

#[test]
fn registry_rejects_empty_minimax_model_suffix() {
    let error = provider_registry_error(
        ProviderRegistry::with_credentials(
            Vec::new(),
            vec![(MINIMAX_API_KEY_ENV.to_string(), "test-token".to_string())],
        )
        .resolve("minimax/ "),
    );

    assert_eq!(
        error,
        ProviderRegistryError::InvalidProviderSpec {
            provider: "minimax/ ".to_string(),
            reason: "minimax provider model must not be empty",
        }
    );
}

#[test]
fn openai_compatible_provider_maps_request_and_response() {
    let provider =
        OpenAiCompatibleProvider::new("fake", "fake-model", "http://127.0.0.1:9/v1/", "test-token");

    assert_eq!(
        provider.chat_completions_url(),
        "http://127.0.0.1:9/v1/chat/completions"
    );
    assert_eq!(provider.authorization_header(), "Bearer test-token");

    let body = provider.chat_request(&ModelRequest {
        task: "summarize this".to_string(),
    });
    assert_eq!(body.model, "fake-model");
    assert_eq!(body.messages[0].role, "user");
    assert_eq!(body.messages[0].content, "summarize this");
    assert!(!body.stream);
    assert_eq!(body.reasoning_split, None);

    assert_eq!(provider.status_outcome(Ok(200)), Ok(()));
    let response = provider
        .body_outcome(Ok(vec![Some("real provider completed".to_string())]))
        .expect("fake provider should complete");
    assert_eq!(response.final_message, "real provider completed");
}

#[test]
fn openai_compatible_provider_returns_sanitized_http_errors() {
    let provider =
        OpenAiCompatibleProvider::new("fake", "fake-model", "http://127.0.0.1:9/v1", "secret-token");

    let error = provider
        .status_outcome(Ok(500))
        .expect_err("HTTP status should fail");

    assert_eq!(
        error.kind,
        ProviderErrorKind::HttpStatus { status_code: 500 }
    );
    let message = error.message();
    assert_eq!(message, "provider fake failed: HTTP request failed with status 500");
    assert!(!message.contains("secret-token"));
    assert!(!message.contains("secret request body"));
    assert!(!message.contains("raw response body"));
}

#[test]
fn openai_compatible_provider_rejects_malformed_responses() {
    let provider =
        OpenAiCompatibleProvider::new("fake", "fake-model", "http://127.0.0.1:9/v1", "test-token");

    let error = provider
        .body_outcome(Ok(vec![None]))
        .expect_err("missing content should fail");

    assert_eq!(
        error.kind,
        ProviderErrorKind::MalformedResponse {
            reason: "missing choices[0].message.content"
        }
    );

    let error = provider
        .body_outcome(Ok(Vec::new()))
        .expect_err("no choices should fail");
    assert_eq!(
        error.kind,
        ProviderErrorKind::MalformedResponse {
            reason: "missing choices[0].message.content"
        }
    );

    let error = provider
        .body_outcome(Err(HttpFailure::Decode))
        .expect_err("undecodable body should fail");
    assert_eq!(
        error.kind,
        ProviderErrorKind::MalformedResponse {
            reason: "response JSON was invalid"
        }
    );
    let error = provider
        .status_outcome(Err(HttpFailure::Transport))
        .expect_err("transport failure should fail");
    assert_eq!(error.kind, ProviderErrorKind::HttpTransport);
    assert_eq!(error.message(), "provider fake failed: HTTP transport failed");
}

#[test]
fn configured_provider_takes_precedence_and_defaults_its_base_url() {
    let mut config = provider_config();
    config.name = "minimax".to_string();
    config.base_url = None;
    let resolved = ProviderRegistry::with_credentials(
        vec![config],
        vec![
            ("FAKE_API_KEY".to_string(), "old".to_string()),
            ("FAKE_API_KEY".to_string(), "new".to_string()),
        ],
    )
    .resolve_with_audit("minimax")
    .expect("configured provider should resolve");
    assert_eq!(
        resolved.credential_access(),
        Some(&CredentialAccess {
            provider: "minimax".to_string(),
            env_var: "FAKE_API_KEY".to_string(),
        })
    );
    match resolved.into_provider() {
        ProviderSpec::OpenAiCompatible(p) => {
            assert_eq!(p.chat_completions_url(), "https://api.openai.com/v1/chat/completions");
            assert_eq!(p.authorization_header(), "Bearer new");
            assert_eq!(p.chat_request(&ModelRequest { task: "t".to_string() }).reasoning_split, None);
        }
        ProviderSpec::Mock(_) => panic!("configured provider should be OpenAI-compatible"),
    }
}

#[test]
fn builtin_minimax_reads_its_base_url_from_the_environment() {
    let registry = ProviderRegistry::from_config(
        None,
        vec![
            ("MINIMAX_API_KEY".to_string(), "k".to_string()),
            ("MINIMAX_BASE_URL".to_string(), " http://localhost:8080/v1 ".to_string()),
        ],
    );
    match registry.resolve("minimax").expect("minimax should resolve") {
        ProviderSpec::OpenAiCompatible(p) => {
            assert_eq!(p.chat_completions_url(), "http://localhost:8080/v1/chat/completions");
            let body = p.chat_request(&ModelRequest { task: "t".to_string() });
            assert_eq!(body.model, "MiniMax-M2.7");
            assert_eq!(body.reasoning_split, Some(true));
        }
        ProviderSpec::Mock(_) => panic!("minimax should be OpenAI-compatible"),
    }
    let error = ProviderRegistry::from_config(None, Vec::new())
        .resolve_with_audit("minimax")
        .err()
        .expect("missing key should fail");
    assert_eq!(
        error.message(),
        "provider minimax is missing credential environment variable MINIMAX_API_KEY"
    );
}

#[test]
fn explicit_credentials_can_take_the_minimax_base_url_from_an_environment() {
    let registry = ProviderRegistry::with_credentials(
        Vec::new(),
        vec![(MINIMAX_API_KEY_ENV.to_string(), "k".to_string())],
    )
    .with_environment(vec![(
        "MINIMAX_BASE_URL".to_string(),
        "http://127.0.0.1:7/v1".to_string(),
    )]);
    match registry.resolve("minimax").expect("minimax should resolve") {
        ProviderSpec::OpenAiCompatible(p) => {
            assert_eq!(p.chat_completions_url(), "http://127.0.0.1:7/v1/chat/completions");
        }
        ProviderSpec::Mock(_) => panic!("minimax should be OpenAI-compatible"),
    }
}
