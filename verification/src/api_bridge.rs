//! The bearer token and account with which a provider is asked.

use crate::environment::{
    first_entry_of, law_only_texts_are_of_use, law_the_first_entry_of_a_variable_counts,
    law_values_are_used_as_they_are, usable_env_value, usable_value, EnvReading, EnvSnapshot,
};
use crate::provider::{ModelProviderInfo, ProviderAuthKind, ProviderRuntime, ResolvedModelProvider};
use crate::text::{blank, copy_optional_text};
use vstd::prelude::*;

verus! {

/// What asking a login for its token gave.
#[derive(Clone, Debug, PartialEq, Eq)]
pub enum LoginToken {
    Token(String),
    Unavailable { error: String },
}

/// The login of the user.
#[derive(Clone, Debug, PartialEq, Eq)]
pub struct CodexAuth {
    pub token: LoginToken,
    pub account_id: Option<String>,
}

/// With what a request is authenticated.
#[derive(Clone, Debug, PartialEq, Eq)]
pub struct CoreAuthProvider {
    pub token: Option<String>,
    pub account_id: Option<String>,
}

/// A variable that should hold a key and does not.
#[derive(Clone, Debug, PartialEq, Eq)]
pub struct EnvVarError {
    pub var: String,
    pub instructions: Option<String>,
}

#[derive(Clone, Debug, PartialEq, Eq)]
pub enum CodexErr {
    EnvVar(EnvVarError),
    /// The login's token could not be had.
    Io(String),
}

/// A token and an account.
pub struct AuthModel {
    pub token: Option<Seq<char>>,
    pub account_id: Option<Seq<char>>,
}

pub enum ErrModel {
    EnvVar { var: Seq<char>, instructions: Option<Seq<char>> },
    Io(Seq<char>),
}

impl View for CoreAuthProvider {
    type V = AuthModel;

    open spec fn view(&self) -> AuthModel {
        AuthModel { token: self.token.deep_view(), account_id: self.account_id.deep_view() }
    }
}

impl View for CodexErr {
    type V = ErrModel;

    open spec fn view(&self) -> ErrModel {
        match *self {
            CodexErr::EnvVar(e) => ErrModel::EnvVar {
                var: e.var@,
                instructions: e.instructions.deep_view(),
            },
            CodexErr::Io(error) => ErrModel::Io(error@),
        }
    }
}

/// The token or the error of `r`.
pub open spec fn outcome(r: Result<CoreAuthProvider, CodexErr>) -> Result<AuthModel, ErrModel> {
    match r {
        Ok(provider) => Ok(provider@),
        Err(e) => Err(e@),
    }
}

/// A token that belongs to no account.
pub open spec fn bare_token(token: Seq<char>) -> AuthModel {
    AuthModel { token: Some(token), account_id: None }
}

/// The token in the variable `env_key`, which must be there.
pub open spec fn token_from_env(
    env_key: Seq<char>,
    instructions: Option<Seq<char>>,
    env: EnvSnapshot,
) -> Result<AuthModel, ErrModel> {
    match usable_value(env.reads(env_key)) {
        Some(token) => Ok(bare_token(token)),
        None => Err(ErrModel::EnvVar { var: env_key, instructions }),
    }
}

/// The token and account of the login; no token where there is no login.
pub open spec fn token_from_login(auth: Option<CodexAuth>) -> Result<AuthModel, ErrModel> {
    match auth {
        Some(login) => match login.token {
            LoginToken::Token(token) => Ok(
                AuthModel { token: Some(token@), account_id: login.account_id.deep_view() },
            ),
            LoginToken::Unavailable { error } => Err(ErrModel::Io(error@)),
        },
        None => Ok(AuthModel { token: None, account_id: None }),
    }
}

/// What reading a provider's own key gave: a key, none, or an error.
pub open spec fn key_reading(r: Result<Option<String>, CodexErr>) -> Result<
    Option<Seq<char>>,
    ErrModel,
> {
    match r {
        Ok(key) => Ok(key.deep_view()),
        Err(e) => Err(e@),
    }
}

/// With what a configured provider is asked, given what reading its own key gave:
/// the key comes before its token, its token before the login.
pub open spec fn auth_given_key(
    api_key: Result<Option<Seq<char>>, ErrModel>,
    auth: Option<CodexAuth>,
    provider: ModelProviderInfo,
) -> Result<AuthModel, ErrModel> {
    match api_key {
        Err(e) => Err(e),
        Ok(Some(key)) => Ok(bare_token(key)),
        Ok(None) => match provider.experimental_bearer_token {
            Some(token) => Ok(bare_token(token@)),
            None => token_from_login(auth),
        },
    }
}

/// A provider's own key: that in its variable, which must be there, or none where
/// it names no variable.
pub open spec fn own_key(provider: ModelProviderInfo, env: EnvSnapshot) -> Result<
    Option<Seq<char>>,
    ErrModel,
> {
    match provider.env_key {
        Some(env_key) => match usable_value(env.reads(env_key@)) {
            Some(key) => Ok(Some(key)),
            None => Err(
                ErrModel::EnvVar {
                    var: env_key@,
                    instructions: provider.env_key_instructions.deep_view(),
                },
            ),
        },
        None => Ok(None),
    }
}

/// With what a configured provider is asked: its variable comes before its
/// token, its token before the login.
pub open spec fn legacy_auth(
    auth: Option<CodexAuth>,
    provider: ModelProviderInfo,
    env: EnvSnapshot,
) -> Result<AuthModel, ErrModel> {
    auth_given_key(own_key(provider, env), auth, provider)
}

/// With what a provider with that authentication is asked. One that has no
/// token of its own uses the login; one that requires no authentication is asked
/// with none.
pub open spec fn resolved_auth(
    auth: Option<CodexAuth>,
    provider_auth: ProviderAuthKind,
    env: EnvSnapshot,
) -> Result<AuthModel, ErrModel> {
    match provider_auth {
        ProviderAuthKind::EnvBearer { env_key, instructions } => token_from_env(
            env_key@,
            instructions.deep_view(),
            env,
        ),
        ProviderAuthKind::StaticBearer { token } => Ok(bare_token(token@)),
        ProviderAuthKind::NoAuth => Ok(AuthModel { token: None, account_id: None }),
        _ => token_from_login(auth),
    }
}

/// The token of the login decides with what the provider is asked.
pub open spec fn login_decides(
    provider_runtime: ProviderRuntime,
    legacy_provider: ModelProviderInfo,
) -> bool {
    match provider_runtime {
        ProviderRuntime::Legacy => legacy_provider.env_key is None
            && legacy_provider.experimental_bearer_token is None,
        ProviderRuntime::Resolved(provider) => !(provider.auth is EnvBearer
            || provider.auth is StaticBearer || provider.auth is NoAuth),
    }
}

/// With what the provider in use is asked.
pub open spec fn runtime_auth(
    auth: Option<CodexAuth>,
    provider_runtime: ProviderRuntime,
    legacy_provider: ModelProviderInfo,
    env: EnvSnapshot,
) -> Result<AuthModel, ErrModel> {
    match provider_runtime {
        ProviderRuntime::Legacy => legacy_auth(auth, legacy_provider, env),
        ProviderRuntime::Resolved(provider) => resolved_auth(auth, provider.auth, env),
    }
}

fn env_token(env_key: &String, instructions: &Option<String>, env: &EnvSnapshot) -> (r: Result<
    CoreAuthProvider,
    CodexErr,
>)
    ensures
        outcome(r) == token_from_env(env_key@, instructions.deep_view(), *env),
{
    match usable_env_value(env, env_key.as_str()) {
        Some(token) => Ok(CoreAuthProvider { token: Some(token), account_id: None }),
        None => Err(missing_variable(env_key, instructions)),
    }
}

fn missing_variable(env_key: &String, instructions: &Option<String>) -> (r: CodexErr)
    ensures
        r@ == (ErrModel::EnvVar { var: env_key@, instructions: instructions.deep_view() }),
{
    CodexErr::EnvVar(
        EnvVarError { var: env_key.clone(), instructions: copy_optional_text(instructions) },
    )
}

fn login_token(auth: Option<CodexAuth>) -> (r: Result<CoreAuthProvider, CodexErr>)
    ensures
        outcome(r) == token_from_login(auth),
{
    match auth {
        Some(login) => match login.token {
            LoginToken::Token(token) => Ok(
                CoreAuthProvider { token: Some(token), account_id: login.account_id },
            ),
            LoginToken::Unavailable { error } => Err(CodexErr::Io(error)),
        },
        None => Ok(CoreAuthProvider { token: None, account_id: None }),
    }
}

pub fn auth_provider_from_auth(
    auth: Option<CodexAuth>,
    provider: &ModelProviderInfo,
    env: &EnvSnapshot,
) -> (r: Result<CoreAuthProvider, CodexErr>)
    ensures
        outcome(r) == legacy_auth(auth, *provider, *env),
{
    auth_provider_from_api_key(provider_api_key(provider, env), auth, provider)
}

/// The provider's own key: that in its variable, or none where it names no
/// variable. A variable that is missing or blank is an error.
pub fn provider_api_key(provider: &ModelProviderInfo, env: &EnvSnapshot) -> (r: Result<
    Option<String>,
    CodexErr,
>)
    ensures
        key_reading(r) == own_key(*provider, *env),
{
    match &provider.env_key {
        Some(env_key) => match usable_env_value(env, env_key.as_str()) {
            Some(key) => Ok(Some(key)),
            None => Err(missing_variable(env_key, &provider.env_key_instructions)),
        },
        None => Ok(None),
    }
}

/// With what a configured provider is asked, given what reading its own key gave.
pub fn auth_provider_from_api_key(
    api_key: Result<Option<String>, CodexErr>,
    auth: Option<CodexAuth>,
    provider: &ModelProviderInfo,
) -> (r: Result<CoreAuthProvider, CodexErr>)
    ensures
        outcome(r) == auth_given_key(key_reading(api_key), auth, *provider),
{
    match api_key {
        Err(e) => Err(e),
        Ok(Some(key)) => Ok(CoreAuthProvider { token: Some(key), account_id: None }),
        Ok(None) => match &provider.experimental_bearer_token {
            Some(token) => Ok(CoreAuthProvider { token: Some(token.clone()), account_id: None }),
            None => login_token(auth),
        },
    }
}

/// Whether the token of the login decides with what the provider is asked. Where
/// it does not, there is no need to have it.
pub fn asks_login(provider_runtime: &ProviderRuntime, legacy_provider: &ModelProviderInfo) -> (r:
    bool)
    ensures
        r == login_decides(*provider_runtime, *legacy_provider),
{
    match provider_runtime {
        ProviderRuntime::Legacy => legacy_provider.env_key.is_none()
            && legacy_provider.experimental_bearer_token.is_none(),
        ProviderRuntime::Resolved(provider) => match &provider.auth {
            ProviderAuthKind::EnvBearer { .. } => false,
            ProviderAuthKind::StaticBearer { .. } => false,
            ProviderAuthKind::NoAuth => false,
            _ => true,
        },
    }
}

pub fn auth_provider_from_runtime(
    auth: Option<CodexAuth>,
    provider_runtime: &ProviderRuntime,
    legacy_provider: &ModelProviderInfo,
    env: &EnvSnapshot,
) -> (r: Result<CoreAuthProvider, CodexErr>)
    ensures
        outcome(r) == runtime_auth(auth, *provider_runtime, *legacy_provider, *env),
{
    match provider_runtime {
        ProviderRuntime::Legacy => auth_provider_from_auth(auth, legacy_provider, env),
        ProviderRuntime::Resolved(provider) => auth_provider_from_provider_auth(
            auth,
            &provider.auth,
            env,
        ),
    }
}

pub fn auth_provider_from_provider_auth(
    auth: Option<CodexAuth>,
    provider_auth: &ProviderAuthKind,
    env: &EnvSnapshot,
) -> (r: Result<CoreAuthProvider, CodexErr>)
    ensures
        outcome(r) == resolved_auth(auth, *provider_auth, *env),
{
    match provider_auth {
        ProviderAuthKind::EnvBearer { env_key, instructions } => env_token(
            env_key,
            instructions,
            env,
        ),
        ProviderAuthKind::StaticBearer { token } => Ok(
            CoreAuthProvider { token: Some(token.clone()), account_id: None },
        ),
        ProviderAuthKind::NoAuth => Ok(CoreAuthProvider { token: None, account_id: None }),
        _ => login_token(auth),
    }
}

/// `provider_auth` is the authentication that `provider` is configured with.
pub open spec fn resolves_to(provider: ModelProviderInfo, provider_auth: ProviderAuthKind) -> bool {
    if let Some(key) = provider.env_key {
        provider_auth matches ProviderAuthKind::EnvBearer { env_key, instructions } && env_key@
            == key@ && instructions.deep_view() == provider.env_key_instructions.deep_view()
    } else if let Some(configured) = provider.experimental_bearer_token {
        provider_auth matches ProviderAuthKind::StaticBearer { token } && token@ == configured@
    } else {
        provider_auth is CommandBearer || provider_auth is AuthManager
    }
}

/// Resolving a provider does not change with what it is asked, nor how asking
/// fails.
pub proof fn law_resolving_keeps_the_auth(
    auth: Option<CodexAuth>,
    provider: ModelProviderInfo,
    provider_auth: ProviderAuthKind,
    env: EnvSnapshot,
)
    requires
        resolves_to(provider, provider_auth),
    ensures
        resolved_auth(auth, provider_auth, env) == legacy_auth(auth, provider, env),
{
}

/// A token from a variable or from the configuration is sent without the
/// account of the login.
pub proof fn law_provider_tokens_name_no_account(
    auth: Option<CodexAuth>,
    provider: ModelProviderInfo,
    env: EnvSnapshot,
)
    requires
        provider.env_key is Some || provider.experimental_bearer_token is Some,
    ensures
        legacy_auth(auth, provider, env) matches Ok(sent) ==> sent.token is Some
            && sent.account_id is None,
{
}

/// Where the token of the login does not decide, the login does not matter.
pub proof fn law_a_login_that_is_not_asked_does_not_matter(
    one: Option<CodexAuth>,
    other: Option<CodexAuth>,
    provider_runtime: ProviderRuntime,
    legacy_provider: ModelProviderInfo,
    env: EnvSnapshot,
)
    requires
        !login_decides(provider_runtime, legacy_provider),
    ensures
        runtime_auth(one, provider_runtime, legacy_provider, env) == runtime_auth(
            other,
            provider_runtime,
            legacy_provider,
            env,
        ),
{
}

/// `env` reads the variable `name` as the text `value`, which is not blank.
pub open spec fn reads_as(env: EnvSnapshot, name: Seq<char>, value: String) -> bool {
    !blank(value@) && exists|i: int| #[trigger]
        first_entry_of(env.vars@, name, i) && env.vars@[i].1 == EnvReading::Value(value)
}

/// `env` reads no text of use in the variable `name`: it is not there, holds no
/// Unicode, or is blank.
pub open spec fn reads_nothing_of_use(env: EnvSnapshot, name: Seq<char>) -> bool {
    ||| forall|j: int| 0 <= j < env.vars@.len() ==> (#[trigger] env.vars@[j]).0@ != name
    ||| exists|i: int| #[trigger]
        first_entry_of(env.vars@, name, i) && match env.vars@[i].1 {
            EnvReading::Value(value) => blank(value@),
            EnvReading::NotUnicode => true,
            EnvReading::NotPresent => true,
        }
}

proof fn lemma_variable(env: EnvSnapshot, name: Seq<char>, value: String)
    ensures
        reads_as(env, name, value) ==> usable_value(env.reads(name)) == Some(value@),
        reads_nothing_of_use(env, name) ==> usable_value(env.reads(name)) is None,
{
    law_only_texts_are_of_use();
    law_values_are_used_as_they_are(value@);
    if reads_as(env, name, value) {
        let i = choose|i: int| #[trigger]
            first_entry_of(env.vars@, name, i) && env.vars@[i].1 == EnvReading::Value(value);
        law_the_first_entry_of_a_variable_counts(env.vars@, name, i);
    }
    if reads_nothing_of_use(env, name) {
        if forall|j: int| 0 <= j < env.vars@.len() ==> (#[trigger] env.vars@[j]).0@ != name {
            law_the_first_entry_of_a_variable_counts(env.vars@, name, 0);
        } else {
            let i = choose|i: int| #[trigger]
                first_entry_of(env.vars@, name, i) && match env.vars@[i].1 {
                    EnvReading::Value(value) => blank(value@),
                    EnvReading::NotUnicode => true,
                    EnvReading::NotPresent => true,
                };
            law_the_first_entry_of_a_variable_counts(env.vars@, name, i);
            if let EnvReading::Value(found) = env.vars@[i].1 {
                law_values_are_used_as_they_are(found@);
            }
        }
    }
}

/// Where a provider's variable reads as a text that is not blank, the token that is
/// sent is that very text, for a configured provider as for a resolved one, and no
/// account comes with it, whatever the login.
pub proof fn law_the_token_is_the_text_of_the_variable(
    auth: Option<CodexAuth>,
    provider: ModelProviderInfo,
    env_key: String,
    instructions: Option<String>,
    env: EnvSnapshot,
    value: String,
)
    requires
        reads_as(env, env_key@, value),
    ensures
        resolved_auth(auth, ProviderAuthKind::EnvBearer { env_key, instructions }, env) == Ok::<
            AuthModel,
            ErrModel,
        >(AuthModel { token: Some(value@), account_id: None }),
        provider.env_key == Some(env_key) ==> {
            &&& own_key(provider, env) == Ok::<Option<Seq<char>>, ErrModel>(Some(value@))
            &&& legacy_auth(auth, provider, env) == Ok::<AuthModel, ErrModel>(
                AuthModel { token: Some(value@), account_id: None },
            )
        },
{
    lemma_variable(env, env_key@, value);
}

/// A provider whose variable holds nothing of use is not asked with anything else:
/// the error names the variable, with the instructions for it.
pub proof fn law_a_missing_variable_is_an_error(
    auth: Option<CodexAuth>,
    provider: ModelProviderInfo,
    env_key: String,
    instructions: Option<String>,
    env: EnvSnapshot,
)
    requires
        reads_nothing_of_use(env, env_key@),
    ensures
        resolved_auth(auth, ProviderAuthKind::EnvBearer { env_key, instructions }, env) == Err::<
            AuthModel,
            ErrModel,
        >(ErrModel::EnvVar { var: env_key@, instructions: instructions.deep_view() }),
        provider.env_key == Some(env_key) ==> legacy_auth(auth, provider, env) == Err::<
            AuthModel,
            ErrModel,
        >(
            ErrModel::EnvVar {
                var: env_key@,
                instructions: provider.env_key_instructions.deep_view(),
            },
        ),
{
    lemma_variable(env, env_key@, env_key);
}

/// A token of the configuration is sent as it is written there, without an account,
/// where the provider has no variable.
pub proof fn law_a_configured_token_is_sent_as_it_is(
    auth: Option<CodexAuth>,
    provider: ModelProviderInfo,
    token: String,
    env: EnvSnapshot,
)
    ensures
        resolved_auth(auth, ProviderAuthKind::StaticBearer { token }, env) == Ok::<
            AuthModel,
            ErrModel,
        >(AuthModel { token: Some(token@), account_id: None }),
        provider.env_key is None && provider.experimental_bearer_token == Some(token)
            ==> legacy_auth(auth, provider, env) == Ok::<AuthModel, ErrModel>(
            AuthModel { token: Some(token@), account_id: None },
        ),
{
}

/// A provider without a variable and a token of its own is asked with the token of
/// the login, as it is, and with its account; with nothing where there is no login.
/// A login whose token cannot be had is an error that says why.
pub proof fn law_the_login_is_used_where_nothing_else_is(
    login: CodexAuth,
    provider: ModelProviderInfo,
    provider_auth: ProviderAuthKind,
    env: EnvSnapshot,
)
    ensures
        ({
            let sent: Result<AuthModel, ErrModel> = match login.token {
                LoginToken::Token(token) => Ok(
                    AuthModel { token: Some(token@), account_id: login.account_id.deep_view() },
                ),
                LoginToken::Unavailable { error } => Err(ErrModel::Io(error@)),
            };
            let nothing: Result<AuthModel, ErrModel> = Ok(
                AuthModel { token: None, account_id: None },
            );
            &&& provider.env_key is None && provider.experimental_bearer_token is None ==> {
                &&& legacy_auth(Some(login), provider, env) == sent
                &&& legacy_auth(None, provider, env) == nothing
                &&& login_decides(ProviderRuntime::Legacy, provider)
            }
            &&& provider_auth is AuthManager || provider_auth is CommandBearer
                || provider_auth is OpenAi || provider_auth is Legacy ==> {
                &&& resolved_auth(Some(login), provider_auth, env) == sent
                &&& resolved_auth(None, provider_auth, env) == nothing
            }
            &&& provider_auth is NoAuth ==> {
                &&& resolved_auth(Some(login), provider_auth, env) == nothing
                &&& resolved_auth(None, provider_auth, env) == nothing
            }
        }),
{
}

/// A provider on the legacy path is asked as it is configured, a resolved one as its
/// own strategy says, whatever the configuration.
pub proof fn law_the_provider_in_use_decides(
    auth: Option<CodexAuth>,
    resolved: ResolvedModelProvider,
    legacy_provider: ModelProviderInfo,
    env: EnvSnapshot,
)
    ensures
        runtime_auth(auth, ProviderRuntime::Legacy, legacy_provider, env) == legacy_auth(
            auth,
            legacy_provider,
            env,
        ),
        runtime_auth(auth, ProviderRuntime::Resolved(resolved), legacy_provider, env)
            == resolved_auth(auth, resolved.auth, env),
        login_decides(ProviderRuntime::Resolved(resolved), legacy_provider) <==> (
        resolved.auth is AuthManager || resolved.auth is CommandBearer || resolved.auth is OpenAi
            || resolved.auth is Legacy),
        login_decides(ProviderRuntime::Legacy, legacy_provider) <==> (
        legacy_provider.env_key is None && legacy_provider.experimental_bearer_token is None),
{
}

/// What reading the provider's own key gave comes first: a key is sent as it is, and
/// an error is passed on, whatever the token of the configuration and the login.
pub proof fn law_a_key_that_was_read_comes_first(
    key: Seq<char>,
    error: ErrModel,
    auth: Option<CodexAuth>,
    provider: ModelProviderInfo,
)
    ensures
        auth_given_key(Ok(Some(key)), auth, provider) == Ok::<AuthModel, ErrModel>(
            AuthModel { token: Some(key), account_id: None },
        ),
        auth_given_key(Err(error), auth, provider) == Err::<AuthModel, ErrModel>(error),
{
}

} // verus!
