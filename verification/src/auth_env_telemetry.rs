//! Which authentication variables are set, for telemetry: never their values,
//! nor the name of a provider's own variable.

use crate::api_bridge::{runtime_auth, AuthModel, CodexAuth, ErrModel};
use crate::environment::{
    env_var_present, first_entry_of, law_only_texts_are_of_use,
    law_the_first_entry_of_a_variable_counts, law_values_are_used_as_they_are, present,
    usable_value, EnvReading, EnvSnapshot,
};
use crate::provider::{ModelProviderInfo, ProviderAuthKind, ProviderRuntime};
use crate::text::{blank, borrowed, copy_optional_text};
use vstd::prelude::*;

verus! {

/// The names of the variables that do not depend on the provider.
#[derive(Clone, Debug, PartialEq, Eq)]
pub struct AuthEnvNames {
    pub openai_api_key: String,
    pub codex_api_key: String,
    pub refresh_token_url_override: String,
}

#[derive(Clone, Debug, PartialEq, Eq)]
pub struct AuthEnvTelemetry {
    pub openai_api_key_env_present: bool,
    pub codex_api_key_env_present: bool,
    pub codex_api_key_env_enabled: bool,
    pub provider_env_key_name: Option<String>,
    pub provider_env_key_present: Option<bool>,
    pub refresh_token_url_override_present: bool,
}

/// The telemetry as it is attached to an event.
#[derive(Clone, Debug, PartialEq, Eq)]
pub struct AuthEnvTelemetryMetadata {
    pub openai_api_key_env_present: bool,
    pub codex_api_key_env_present: bool,
    pub codex_api_key_env_enabled: bool,
    pub provider_env_key_name: Option<String>,
    pub provider_env_key_present: Option<bool>,
    pub refresh_token_url_override_present: bool,
}

pub struct TelemetryModel {
    pub openai_api_key_env_present: bool,
    pub codex_api_key_env_present: bool,
    pub codex_api_key_env_enabled: bool,
    pub provider_env_key_name: Option<Seq<char>>,
    pub provider_env_key_present: Option<bool>,
    pub refresh_token_url_override_present: bool,
}

impl View for AuthEnvTelemetry {
    type V = TelemetryModel;

    open spec fn view(&self) -> TelemetryModel {
        TelemetryModel {
            openai_api_key_env_present: self.openai_api_key_env_present,
            codex_api_key_env_present: self.codex_api_key_env_present,
            codex_api_key_env_enabled: self.codex_api_key_env_enabled,
            provider_env_key_name: self.provider_env_key_name.deep_view(),
            provider_env_key_present: self.provider_env_key_present,
            refresh_token_url_override_present: self.refresh_token_url_override_present,
        }
    }
}

impl View for AuthEnvTelemetryMetadata {
    type V = TelemetryModel;

    open spec fn view(&self) -> TelemetryModel {
        TelemetryModel {
            openai_api_key_env_present: self.openai_api_key_env_present,
            codex_api_key_env_present: self.codex_api_key_env_present,
            codex_api_key_env_enabled: self.codex_api_key_env_enabled,
            provider_env_key_name: self.provider_env_key_name.deep_view(),
            provider_env_key_present: self.provider_env_key_present,
            refresh_token_url_override_present: self.refresh_token_url_override_present,
        }
    }
}

impl Default for AuthEnvTelemetry {
    fn default() -> (r: Self)
        ensures
            r@ == (TelemetryModel {
                openai_api_key_env_present: false,
                codex_api_key_env_present: false,
                codex_api_key_env_enabled: false,
                provider_env_key_name: None,
                provider_env_key_present: None,
                refresh_token_url_override_present: false,
            }),
    {
        AuthEnvTelemetry {
            openai_api_key_env_present: false,
            codex_api_key_env_present: false,
            codex_api_key_env_enabled: false,
            provider_env_key_name: None,
            provider_env_key_present: None,
            refresh_token_url_override_present: false,
        }
    }
}

impl AuthEnvTelemetry {
    pub fn to_otel_metadata(&self) -> (r: AuthEnvTelemetryMetadata)
        ensures
            r@ == self@,
    {
        AuthEnvTelemetryMetadata {
            openai_api_key_env_present: self.openai_api_key_env_present,
            codex_api_key_env_present: self.codex_api_key_env_present,
            codex_api_key_env_enabled: self.codex_api_key_env_enabled,
            provider_env_key_name: copy_optional_text(&self.provider_env_key_name),
            provider_env_key_present: self.provider_env_key_present,
            refresh_token_url_override_present: self.refresh_token_url_override_present,
        }
    }
}

/// What the environment says, for a provider whose key is in the variable
/// `provider_env_key`.
pub open spec fn telemetry(
    provider_env_key: Option<Seq<char>>,
    codex_api_key_env_enabled: bool,
    names: AuthEnvNames,
    env: EnvSnapshot,
) -> TelemetryModel {
    TelemetryModel {
        openai_api_key_env_present: present(env.reads(names.openai_api_key@)),
        codex_api_key_env_present: present(env.reads(names.codex_api_key@)),
        codex_api_key_env_enabled,
        provider_env_key_name: match provider_env_key {
            Some(_) => Some("configured"@),
            None => None,
        },
        provider_env_key_present: match provider_env_key {
            Some(key) => Some(present(env.reads(key))),
            None => None,
        },
        refresh_token_url_override_present: present(env.reads(names.refresh_token_url_override@)),
    }
}

/// The variable that holds the key of a provider with that authentication.
pub open spec fn env_key_of(provider_auth: ProviderAuthKind) -> Option<Seq<char>> {
    match provider_auth {
        ProviderAuthKind::EnvBearer { env_key, .. } => Some(env_key@),
        _ => None,
    }
}

/// The variable that holds the key of the provider in use.
pub open spec fn runtime_env_key(
    provider_runtime: ProviderRuntime,
    legacy_provider: ModelProviderInfo,
) -> Option<Seq<char>> {
    match provider_runtime {
        ProviderRuntime::Legacy => legacy_provider.env_key.deep_view(),
        ProviderRuntime::Resolved(provider) => env_key_of(provider.auth),
    }
}

pub fn collect_auth_env_telemetry(
    provider: &ModelProviderInfo,
    codex_api_key_env_enabled: bool,
    names: &AuthEnvNames,
    env: &EnvSnapshot,
) -> (r: AuthEnvTelemetry)
    ensures
        r@ == telemetry(provider.env_key.deep_view(), codex_api_key_env_enabled, *names, *env),
{
    collect_auth_env_telemetry_for_env_key(
        borrowed(&provider.env_key),
        codex_api_key_env_enabled,
        names,
        env,
    )
}

pub fn collect_auth_env_telemetry_for_runtime(
    provider_runtime: &ProviderRuntime,
    legacy_provider: &ModelProviderInfo,
    codex_api_key_env_enabled: bool,
    names: &AuthEnvNames,
    env: &EnvSnapshot,
) -> (r: AuthEnvTelemetry)
    ensures
        r@ == telemetry(
            runtime_env_key(*provider_runtime, *legacy_provider),
            codex_api_key_env_enabled,
            *names,
            *env,
        ),
{
    match provider_runtime {
        ProviderRuntime::Legacy => collect_auth_env_telemetry(
            legacy_provider,
            codex_api_key_env_enabled,
            names,
            env,
        ),
        ProviderRuntime::Resolved(provider) => collect_auth_env_telemetry_for_provider_auth(
            &provider.auth,
            codex_api_key_env_enabled,
            names,
            env,
        ),
    }
}

pub fn collect_auth_env_telemetry_for_provider_auth(
    provider_auth: &ProviderAuthKind,
    codex_api_key_env_enabled: bool,
    names: &AuthEnvNames,
    env: &EnvSnapshot,
) -> (r: AuthEnvTelemetry)
    ensures
        r@ == telemetry(env_key_of(*provider_auth), codex_api_key_env_enabled, *names, *env),
{
    let provider_env_key = match provider_auth {
        ProviderAuthKind::EnvBearer { env_key, .. } => Some(env_key.as_str()),
        _ => None,
    };
    collect_auth_env_telemetry_for_env_key(provider_env_key, codex_api_key_env_enabled, names, env)
}

pub fn collect_auth_env_telemetry_for_env_key(
    provider_env_key: Option<&str>,
    codex_api_key_env_enabled: bool,
    names: &AuthEnvNames,
    env: &EnvSnapshot,
) -> (r: AuthEnvTelemetry)
    ensures
        r@ == telemetry(provider_env_key.deep_view(), codex_api_key_env_enabled, *names, *env),
{
    AuthEnvTelemetry {
        openai_api_key_env_present: env_var_present(env, names.openai_api_key.as_str()),
        codex_api_key_env_present: env_var_present(env, names.codex_api_key.as_str()),
        codex_api_key_env_enabled,
        provider_env_key_name: match provider_env_key {
            Some(_) => Some("configured".to_owned()),
            None => None,
        },
        provider_env_key_present: match provider_env_key {
            Some(key) => Some(env_var_present(env, key)),
            None => None,
        },
        refresh_token_url_override_present: env_var_present(
            env,
            names.refresh_token_url_override.as_str(),
        ),
    }
}

/// Telemetry does not give a provider's variable away: it is the same for every
/// name of it under which the environment has, or has not, a key.
pub proof fn law_telemetry_hides_the_variable(
    a: Seq<char>,
    b: Seq<char>,
    codex_api_key_env_enabled: bool,
    names: AuthEnvNames,
    env: EnvSnapshot,
)
    requires
        present(env.reads(a)) == present(env.reads(b)),
    ensures
        telemetry(Some(a), codex_api_key_env_enabled, names, env) == telemetry(
            Some(b),
            codex_api_key_env_enabled,
            names,
            env,
        ),
{
}

/// Telemetry tells of each variable whether it is set to something that is not
/// blank, of a provider's own one where it has one, and only under the word
/// `configured`.
pub proof fn law_telemetry_tells_what_is_set(
    key: Seq<char>,
    codex_api_key_env_enabled: bool,
    names: AuthEnvNames,
    env: EnvSnapshot,
    i: int,
)
    requires
        first_entry_of(env.vars@, key, i),
    ensures
        ({
            let set = match env.vars@[i].1 {
                EnvReading::Value(value) => !blank(value@),
                EnvReading::NotUnicode => true,
                EnvReading::NotPresent => false,
            };
            let with_key = telemetry(Some(key), codex_api_key_env_enabled, names, env);
            let without_key = telemetry(None, codex_api_key_env_enabled, names, env);
            &&& with_key.provider_env_key_name == Some("configured"@)
            &&& with_key.provider_env_key_present == Some(set)
            &&& without_key == TelemetryModel {
                provider_env_key_name: None,
                provider_env_key_present: None,
                ..with_key
            }
            &&& with_key.codex_api_key_env_enabled == codex_api_key_env_enabled
            &&& names.openai_api_key@ == key ==> with_key.openai_api_key_env_present == set
            &&& names.codex_api_key@ == key ==> with_key.codex_api_key_env_present == set
            &&& names.refresh_token_url_override@ == key
                ==> with_key.refresh_token_url_override_present == set
        }),
{
    law_the_first_entry_of_a_variable_counts(env.vars@, key, i);
    law_only_texts_are_of_use();
    if let EnvReading::Value(found) = env.vars@[i].1 {
        law_values_are_used_as_they_are(found@);
    }
}

/// A variable that was not found is told as not set.
pub proof fn law_telemetry_tells_what_is_not_set(
    key: Seq<char>,
    codex_api_key_env_enabled: bool,
    names: AuthEnvNames,
    env: EnvSnapshot,
)
    requires
        forall|j: int| 0 <= j < env.vars@.len() ==> (#[trigger] env.vars@[j]).0@ != key,
    ensures
        ({
            let told = telemetry(Some(key), codex_api_key_env_enabled, names, env);
            &&& told.provider_env_key_present == Some(false)
            &&& names.openai_api_key@ == key ==> !told.openai_api_key_env_present
            &&& names.codex_api_key@ == key ==> !told.codex_api_key_env_present
            &&& names.refresh_token_url_override@ == key
                ==> !told.refresh_token_url_override_present
        }),
{
    law_the_first_entry_of_a_variable_counts(env.vars@, key, 0);
    law_only_texts_are_of_use();
}

/// The variable that telemetry asks for is the one that holds the provider's token:
/// where that is set, the provider in use is asked with what stands in it.
pub proof fn law_telemetry_asks_for_the_variable_in_use(
    auth: Option<CodexAuth>,
    provider_runtime: ProviderRuntime,
    legacy_provider: ModelProviderInfo,
    env: EnvSnapshot,
)
    ensures
        match runtime_env_key(provider_runtime, legacy_provider) {
            Some(key) => match usable_value(env.reads(key)) {
                Some(value) => runtime_auth(auth, provider_runtime, legacy_provider, env) == Ok::<
                    AuthModel,
                    ErrModel,
                >(AuthModel { token: Some(value), account_id: None }),
                None => runtime_auth(auth, provider_runtime, legacy_provider, env) matches Err(
                    ErrModel::EnvVar { var, .. },
                ) && var == key,
            },
            None => !(runtime_auth(auth, provider_runtime, legacy_provider, env) matches Err(
                ErrModel::EnvVar { .. },
            )),
        },
{
}

} // verus!
