use codex_toolkit::provider::{
    resolve_model_provider, CapabilitySupport, ModelProviderAuthInfo, ModelProviderInfo,
    ProviderCapabilities, ProviderResolutionPolicy, ProviderRuntime, WireApi,
};

const OPENAI_PROVIDER_ID: &str = "openai";
const OLLAMA_OSS_PROVIDER_ID: &str = "ollama";
const LMSTUDIO_OSS_PROVIDER_ID: &str = "lmstudio";

fn provider(name: &str) -> ModelProviderInfo {
    ModelProviderInfo {
        name: name.to_string(),
        base_url: Some("https://example.com/v1".to_string()),
        env_key: None,
        env_key_instructions: None,
        experimental_bearer_token: None,
        auth: None,
        wire_api: WireApi::Responses,
        query_params: None,
        http_headers: None,
        env_http_headers: None,
        request_max_retries: None,
        stream_max_retries: None,
        stream_idle_timeout_ms: None,
        websocket_connect_timeout_ms: None,
        requires_openai_auth: false,
        supports_websockets: false,
    }
}

#[test]
fn empty_policy_keeps_known_providers_on_legacy_runtime() {
    let policy = ProviderResolutionPolicy::disabled();

    for provider_id in [OPENAI_PROVIDER_ID, OLLAMA_OSS_PROVIDER_ID, LMSTUDIO_OSS_PROVIDER_ID] {
        assert_eq!(
            resolve_model_provider(provider_id, &provider(provider_id), &policy),
            ProviderRuntime::Legacy
        );
    }
}

#[test]
fn empty_policy_keeps_custom_env_key_provider_on_legacy_runtime() {
    let provider = ModelProviderInfo {
        env_key: Some("CUSTOM_API_KEY".to_string()),
        ..provider("custom")
    };

    assert_eq!(
        resolve_model_provider("custom", &provider, &ProviderResolutionPolicy::disabled()),
        ProviderRuntime::Legacy
    );
}

#[test]
fn empty_policy_keeps_command_auth_provider_on_legacy_runtime() {
    let provider = ModelProviderInfo {
        auth: Some(ModelProviderAuthInfo {
            command: "print-token".to_string(),
            args: Vec::new(),
            timeout_ms: 1,
            refresh_interval_ms: 0,
            cwd: "/tmp".to_string(),
        }),
        ..provider("custom")
    };

    assert_eq!(
        resolve_model_provider("custom", &provider, &ProviderResolutionPolicy::disabled()),
        ProviderRuntime::Legacy
    );
}

#[test]
fn enabled_policy_is_recorded_but_does_not_activate_framework_yet() {
    let policy =
        ProviderResolutionPolicy::with_enabled_provider_ids(vec![OPENAI_PROVIDER_ID.to_string()]);

    assert!(policy.enables_provider(OPENAI_PROVIDER_ID));
    assert_eq!(
        resolve_model_provider(OPENAI_PROVIDER_ID, &provider(OPENAI_PROVIDER_ID), &policy),
        ProviderRuntime::Legacy
    );
}

#[test]
fn policies_are_sets_of_providers() {
    let once = ProviderResolutionPolicy::with_enabled_provider_ids(vec![
        "a".to_string(),
        "b".to_string(),
    ]);
    let twice = ProviderResolutionPolicy::with_enabled_provider_ids(vec![
        "b".to_string(),
        "a".to_string(),
        "b".to_string(),
    ]);
    assert_eq!(once, twice);
    assert!(!once.enables_provider("c"));
    assert_ne!(once, ProviderResolutionPolicy::disabled());
    assert_eq!(ProviderResolutionPolicy::disabled(), ProviderResolutionPolicy::default());
    assert!(!ProviderResolutionPolicy::disabled().enables_provider("a"));
}

#[test]
fn legacy_capabilities_and_runtime_are_the_default() {
    let capabilities = ProviderCapabilities::legacy_current_behavior();
    assert_eq!(capabilities.realtime, CapabilitySupport::Legacy);
    assert_eq!(capabilities.audio_transcription, CapabilitySupport::Legacy);
    assert_eq!(capabilities.image_generation, CapabilitySupport::Legacy);
    assert_eq!(capabilities.web_search, CapabilitySupport::Legacy);
    assert_eq!(capabilities.js_repl, CapabilitySupport::Legacy);
    assert_eq!(capabilities.prompt_image_input, CapabilitySupport::Legacy);
    assert_eq!(ProviderRuntime::default(), ProviderRuntime::Legacy);
}
