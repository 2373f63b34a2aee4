use codex_toolkit::api_bridge::{
    asks_login, auth_provider_from_api_key, auth_provider_from_auth,
    auth_provider_from_provider_auth, auth_provider_from_runtime, provider_api_key, CodexAuth,
    CodexErr, EnvVarError, LoginToken,
};
use codex_toolkit::auth_env_telemetry::{
    collect_auth_env_telemetry, collect_auth_env_telemetry_for_runtime, AuthEnvNames,
    AuthEnvTelemetry,
};
use codex_toolkit::environment::{EnvReading, EnvSnapshot};
use codex_toolkit::provider::{
    ModelProviderAuthInfo, ModelProviderInfo, ProviderAuthKind, ProviderCapabilities,
    ProviderModelCatalog, ProviderRuntime, ProviderTransport, ResolvedModelProvider, WireApi,
};
use codex_toolkit::provider_auth::{
    auth_manager_for_provider, auth_manager_for_provider_auth, auth_manager_for_provider_runtime,
    required_auth_manager_for_provider, AuthManagerChoice,
};

fn bearer_provider() -> ModelProviderInfo {
    ModelProviderInfo {
        name: "custom".to_string(),
        base_url: Some("https://example.com/v1".to_string()),
        env_key: None,
        env_key_instructions: None,
        experimental_bearer_token: Some("token".to_string()),
        auth: None,
        wire_api: WireApi::Responses,
        query_params: None,
        http_headers: None,
        env_http_headers: None,
        request_max_retries: None,
        stream_max_retries: None,
        stream_idle_timeout_ms: None,
        websocket_connect_timeout_ms: None,
        requires_openai_auth: false,
        supports_websockets: false,
    }
}

fn missing_env_key_provider() -> ModelProviderInfo {
    ModelProviderInfo {
        env_key: Some("MISSING_CODEX_PROVIDER_TEST_KEY".to_string()),
        experimental_bearer_token: None,
        ..bearer_provider()
    }
}

fn command_auth() -> ModelProviderAuthInfo {
    ModelProviderAuthInfo {
        command: "print-token".to_string(),
        args: Vec::new(),
        timeout_ms: 1,
        refresh_interval_ms: 0,
        cwd: "/tmp".to_string(),
    }
}

fn provider_with_command_auth() -> ModelProviderInfo {
    ModelProviderInfo {
        experimental_bearer_token: None,
        auth: Some(command_auth()),
        ..bearer_provider()
    }
}

/// A provider as the framework resolves it.
fn resolved(provider: &ModelProviderInfo, auth: ProviderAuthKind) -> ResolvedModelProvider {
    ResolvedModelProvider {
        id: "custom".to_string(),
        info: provider.clone(),
        auth,
        model_catalog: ProviderModelCatalog::Legacy,
        transport: ProviderTransport {
            base_url: url::Url::parse("https://example.com/v1").ok(),
            wire_api: WireApi::Responses,
            request_timeout: None,
            supports_websockets: false,
        },
        capabilities: ProviderCapabilities::legacy_current_behavior(),
    }
}

fn names() -> AuthEnvNames {
    AuthEnvNames {
        openai_api_key: "OPENAI_API_KEY".to_string(),
        codex_api_key: "CODEX_API_KEY".to_string(),
        refresh_token_url_override: "CODEX_REFRESH_TOKEN_URL_OVERRIDE".to_string(),
    }
}

fn environment(vars: &[(&str, EnvReading)]) -> EnvSnapshot {
    EnvSnapshot {
        vars: vars.iter().map(|(name, reading)| (name.to_string(), reading.clone())).collect(),
    }
}

fn value(text: &str) -> EnvReading {
    EnvReading::Value(text.to_string())
}

fn login(token: &str) -> CodexAuth {
    CodexAuth { token: LoginToken::Token(token.to_string()), account_id: None }
}

#[test]
fn runtime_auth_adapter_uses_resolved_static_bearer_auth() {
    let provider = bearer_provider();
    let env = environment(&[]);
    let mut resolved_provider =
        resolved(&provider, ProviderAuthKind::StaticBearer { token: "token".to_string() });
    resolved_provider.info.experimental_bearer_token = None;
    let runtime = ProviderRuntime::Resolved(resolved_provider);

    let legacy = auth_provider_from_auth(None, &provider, &env).expect("legacy auth");
    let resolved =
        auth_provider_from_runtime(None, &runtime, &provider, &env).expect("runtime auth");

    assert_eq!(resolved.token, legacy.token);
    assert_eq!(resolved.account_id, legacy.account_id);
    assert_eq!(legacy.token, Some("token".to_string()));
}

#[test]
fn runtime_auth_adapter_uses_resolved_env_key_errors() {
    let provider = missing_env_key_provider();
    let env = environment(&[]);
    let mut resolved_provider = resolved(
        &provider,
        ProviderAuthKind::EnvBearer {
            env_key: "MISSING_CODEX_PROVIDER_TEST_KEY".to_string(),
            instructions: None,
        },
    );
    resolved_provider.info.env_key = None;
    resolved_provider.info.env_key_instructions = None;
    let runtime = ProviderRuntime::Resolved(resolved_provider);

    let legacy = match auth_provider_from_auth(None, &provider, &env) {
        Ok(_) => panic!("missing env key should fail"),
        Err(err) => err,
    };
    let resolved = match auth_provider_from_runtime(None, &runtime, &provider, &env) {
        Ok(_) => panic!("missing env key should fail"),
        Err(err) => err,
    };

    assert_eq!(resolved, legacy);
    assert_eq!(
        legacy,
        CodexErr::EnvVar(EnvVarError {
            var: "MISSING_CODEX_PROVIDER_TEST_KEY".to_string(),
            instructions: None,
        })
    );
}

#[test]
fn runtime_auth_adapter_uses_auth_manager_fallback() {
    let provider = ModelProviderInfo {
        experimental_bearer_token: None,
        requires_openai_auth: false,
        ..bearer_provider()
    };
    let env = environment(&[]);
    let runtime = ProviderRuntime::Resolved(resolved(&provider, ProviderAuthKind::AuthManager));
    let auth = Some(login("auth-manager-token"));

    let legacy = auth_provider_from_auth(auth.clone(), &provider, &env).expect("legacy auth");
    let resolved =
        auth_provider_from_runtime(auth, &runtime, &provider, &env).expect("runtime auth");

    assert_eq!(resolved.token, legacy.token);
    assert_eq!(resolved.account_id, legacy.account_id);
    assert_eq!(legacy.token, Some("auth-manager-token".to_string()));
}

#[test]
fn the_variable_comes_before_the_token_and_the_login() {
    let provider = ModelProviderInfo {
        env_key: Some("KEY".to_string()),
        env_key_instructions: Some("get one".to_string()),
        ..bearer_provider()
    };
    let auth = Some(CodexAuth {
        token: LoginToken::Token("login".to_string()),
        account_id: Some("account".to_string()),
    });

    let set = environment(&[("KEY", value("from-env"))]);
    let found = auth_provider_from_auth(auth.clone(), &provider, &set).unwrap();
    assert_eq!(found.token, Some("from-env".to_string()));
    assert_eq!(found.account_id, None);

    for reading in [value("  "), EnvReading::NotUnicode, EnvReading::NotPresent] {
        assert_eq!(
            auth_provider_from_auth(auth.clone(), &provider, &environment(&[("KEY", reading)])),
            Err(CodexErr::EnvVar(EnvVarError {
                var: "KEY".to_string(),
                instructions: Some("get one".to_string()),
            }))
        );
    }
}

#[test]
fn a_login_gives_its_token_and_account() {
    let provider = ModelProviderInfo { experimental_bearer_token: None, ..bearer_provider() };
    let env = environment(&[]);
    let auth = CodexAuth {
        token: LoginToken::Token("login".to_string()),
        account_id: Some("account".to_string()),
    };
    let found = auth_provider_from_auth(Some(auth), &provider, &env).unwrap();
    assert_eq!(found.token, Some("login".to_string()));
    assert_eq!(found.account_id, Some("account".to_string()));

    let none = auth_provider_from_auth(None, &provider, &env).unwrap();
    assert_eq!(none.token, None);
    assert_eq!(none.account_id, None);

    let broken = CodexAuth {
        token: LoginToken::Unavailable { error: "no token".to_string() },
        account_id: None,
    };
    assert_eq!(
        auth_provider_from_auth(Some(broken), &provider, &env),
        Err(CodexErr::Io("no token".to_string()))
    );
}

#[test]
fn collect_auth_env_telemetry_buckets_provider_env_key_name() {
    let provider = ModelProviderInfo {
        name: "Custom".to_string(),
        base_url: None,
        env_key: Some("sk-should-not-leak".to_string()),
        experimental_bearer_token: None,
        ..bearer_provider()
    };

    let telemetry = collect_auth_env_telemetry(&provider, false, &names(), &environment(&[]));

    assert_eq!(telemetry.provider_env_key_name, Some("configured".to_string()));
}

#[test]
fn runtime_auth_env_telemetry_uses_resolved_provider_auth() {
    let provider = ModelProviderInfo {
        name: "Custom".to_string(),
        base_url: None,
        env_key: Some("PATH".to_string()),
        experimental_bearer_token: None,
        ..bearer_provider()
    };
    let mut resolved_provider = resolved(
        &provider,
        ProviderAuthKind::EnvBearer { env_key: "PATH".to_string(), instructions: None },
    );
    resolved_provider.info.env_key = None;
    let runtime = ProviderRuntime::Resolved(resolved_provider);

    let telemetry = collect_auth_env_telemetry_for_runtime(
        &runtime,
        &provider,
        false,
        &names(),
        &environment(&[("PATH", value("/bin"))]),
    );

    assert_eq!(telemetry.provider_env_key_name, Some("configured".to_string()));
    assert_eq!(telemetry.provider_env_key_present, Some(true));
}

#[test]
fn telemetry_tells_presence_and_no_values() {
    let env = environment(&[
        ("OPENAI_API_KEY", value("secret")),
        ("CODEX_API_KEY", value("   ")),
        ("CODEX_REFRESH_TOKEN_URL_OVERRIDE", EnvReading::NotUnicode),
    ]);
    let telemetry = collect_auth_env_telemetry(&bearer_provider(), true, &names(), &env);
    assert_eq!(
        telemetry,
        AuthEnvTelemetry {
            openai_api_key_env_present: true,
            codex_api_key_env_present: false,
            codex_api_key_env_enabled: true,
            provider_env_key_name: None,
            provider_env_key_present: None,
            refresh_token_url_override_present: true,
        }
    );
    let metadata = telemetry.to_otel_metadata();
    assert!(metadata.openai_api_key_env_present);
    assert!(!metadata.codex_api_key_env_present);
    assert!(metadata.codex_api_key_env_enabled);
    assert_eq!(metadata.provider_env_key_name, None);
    assert_eq!(metadata.provider_env_key_present, None);
    assert!(metadata.refresh_token_url_override_present);
}

#[test]
fn telemetry_is_the_same_for_two_variables_that_are_missing() {
    let one = missing_env_key_provider();
    let other = ModelProviderInfo { env_key: Some("OTHER".to_string()), ..one.clone() };
    let env = environment(&[]);
    assert_eq!(
        collect_auth_env_telemetry(&one, false, &names(), &env),
        collect_auth_env_telemetry(&other, false, &names(), &env)
    );
}

#[test]
fn runtime_auth_manager_adapter_uses_resolved_command_auth() {
    let provider = provider_with_command_auth();
    let mut resolved_provider =
        resolved(&provider, ProviderAuthKind::CommandBearer { config: command_auth() });
    resolved_provider.info.auth = None;
    let runtime = ProviderRuntime::Resolved(resolved_provider);

    assert!(auth_manager_for_provider::<u8>(None, &provider).is_some());
    assert!(auth_manager_for_provider_runtime::<u8>(None, &runtime, &provider).is_some());
}

#[test]
fn runtime_auth_manager_adapter_preserves_absent_auth_manager_for_plain_provider() {
    let provider = ModelProviderInfo { auth: None, ..provider_with_command_auth() };
    let runtime = ProviderRuntime::Resolved(resolved(&provider, ProviderAuthKind::AuthManager));

    assert!(auth_manager_for_provider::<u8>(None, &provider).is_none());
    assert!(auth_manager_for_provider_runtime::<u8>(None, &runtime, &provider).is_none());
}

#[test]
fn the_command_comes_before_the_caller_s_manager() {
    let command = provider_with_command_auth();
    let plain = bearer_provider();
    assert_eq!(
        auth_manager_for_provider(Some(7), &command),
        Some(AuthManagerChoice::ExternalBearerOnly(&command_auth()))
    );
    assert_eq!(auth_manager_for_provider(Some(7), &plain), Some(AuthManagerChoice::Base(7)));
    assert_eq!(
        required_auth_manager_for_provider(7, &command),
        AuthManagerChoice::ExternalBearerOnly(&command_auth())
    );
    assert_eq!(required_auth_manager_for_provider(7, &plain), AuthManagerChoice::Base(7));
    assert_eq!(
        auth_manager_for_provider_auth(Some(7), &ProviderAuthKind::NoAuth),
        Some(AuthManagerChoice::Base(7))
    );
    assert_eq!(
        auth_manager_for_provider_runtime(Some(7), &ProviderRuntime::Legacy, &command),
        Some(AuthManagerChoice::ExternalBearerOnly(&command_auth()))
    );
}

#[test]
fn what_reading_the_own_key_gave_decides_first() {
    let provider = bearer_provider();
    let given = |api_key: Result<Option<String>, CodexErr>| {
        auth_provider_from_api_key(api_key, Some(login("login")), &provider)
    };
    assert_eq!(given(Ok(Some("key".to_string()))).unwrap().token, Some("key".to_string()));
    assert_eq!(given(Ok(None)).unwrap().token, Some("token".to_string()));
    let error = CodexErr::Io("broken".to_string());
    assert_eq!(given(Err(error.clone())), Err(error));

    let plain = ModelProviderInfo { experimental_bearer_token: None, ..bearer_provider() };
    assert_eq!(
        auth_provider_from_api_key(Ok(None), Some(login("login")), &plain).unwrap().token,
        Some("login".to_string())
    );
    assert_eq!(provider_api_key(&plain, &environment(&[])), Ok(None));
}

#[test]
fn a_login_is_asked_only_where_it_decides() {
    let bearer = bearer_provider();
    let plain = ModelProviderInfo { experimental_bearer_token: None, ..bearer_provider() };
    assert!(!asks_login(&ProviderRuntime::Legacy, &bearer));
    assert!(!asks_login(&ProviderRuntime::Legacy, &missing_env_key_provider()));
    assert!(asks_login(&ProviderRuntime::Legacy, &plain));
    for (auth, asked) in [
        (ProviderAuthKind::AuthManager, true),
        (ProviderAuthKind::CommandBearer { config: command_auth() }, true),
        (ProviderAuthKind::StaticBearer { token: "t".to_string() }, false),
        (ProviderAuthKind::EnvBearer { env_key: "K".to_string(), instructions: None }, false),
        (ProviderAuthKind::NoAuth, false),
    ] {
        let runtime = ProviderRuntime::Resolved(resolved(&plain, auth));
        assert_eq!(asks_login(&runtime, &plain), asked);
        let env = environment(&[]);
        let with = auth_provider_from_runtime(Some(login("login")), &runtime, &plain, &env);
        let without = auth_provider_from_runtime(None, &runtime, &plain, &env);
        assert_eq!(with != without, asked);
    }
}

#[test]
fn a_provider_without_auth_is_asked_with_none() {
    let found = auth_provider_from_provider_auth(
        Some(login("login")),
        &ProviderAuthKind::NoAuth,
        &environment(&[]),
    )
    .unwrap();
    assert_eq!(found.token, None);
    assert_eq!(found.account_id, None);
}
