//! Which auth manager serves a provider.

use crate::provider::{ModelProviderAuthInfo, ModelProviderInfo, ProviderAuthKind, ProviderRuntime};
use vstd::prelude::*;

verus! {

/// An auth manager to use: the caller's, or one that gets its bearer token from
/// a command and from nothing else.
#[derive(Debug, PartialEq, Eq)]
pub enum AuthManagerChoice<'a, M> {
    Base(M),
    ExternalBearerOnly(&'a ModelProviderAuthInfo),
}

/// The manager where `config` is the provider's own command, if it has one.
pub open spec fn chosen_manager<'a, M>(
    auth_manager: Option<M>,
    config: Option<&'a ModelProviderAuthInfo>,
) -> Option<AuthManagerChoice<'a, M>> {
    match config {
        Some(config) => Some(AuthManagerChoice::ExternalBearerOnly(config)),
        None => match auth_manager {
            Some(manager) => Some(AuthManagerChoice::Base(manager)),
            None => None,
        },
    }
}

/// The command of the provider's configuration.
pub open spec fn legacy_command<'a>(provider: &'a ModelProviderInfo) -> Option<
    &'a ModelProviderAuthInfo,
> {
    match &provider.auth {
        Some(config) => Some(config),
        None => None,
    }
}

/// The command of a resolved provider's authentication.
pub open spec fn resolved_command<'a>(provider_auth: &'a ProviderAuthKind) -> Option<
    &'a ModelProviderAuthInfo,
> {
    match provider_auth {
        ProviderAuthKind::CommandBearer { config } => Some(config),
        _ => None,
    }
}

/// Returns the provider-scoped auth manager when this provider uses
/// command-backed auth.
///
/// Providers without custom auth continue using the caller-supplied base
/// manager.
pub fn auth_manager_for_provider<'a, M>(
    auth_manager: Option<M>,
    provider: &'a ModelProviderInfo,
) -> (r: Option<AuthManagerChoice<'a, M>>)
    ensures
        r == chosen_manager(auth_manager, legacy_command(provider)),
{
    match &provider.auth {
        Some(config) => Some(AuthManagerChoice::ExternalBearerOnly(config)),
        None => match auth_manager {
            Some(manager) => Some(AuthManagerChoice::Base(manager)),
            None => None,
        },
    }
}

pub fn auth_manager_for_provider_runtime<'a, M>(
    auth_manager: Option<M>,
    provider_runtime: &'a ProviderRuntime,
    legacy_provider: &'a ModelProviderInfo,
) -> (r: Option<AuthManagerChoice<'a, M>>)
    ensures
        r == match provider_runtime {
            ProviderRuntime::Legacy => chosen_manager(
                auth_manager,
                legacy_command(legacy_provider),
            ),
            ProviderRuntime::Resolved(provider) => chosen_manager(
                auth_manager,
                resolved_command(&provider.auth),
            ),
        },
{
    match provider_runtime {
        ProviderRuntime::Legacy => auth_manager_for_provider(auth_manager, legacy_provider),
        ProviderRuntime::Resolved(provider) => auth_manager_for_provider_auth(
            auth_manager,
            &provider.auth,
        ),
    }
}

pub fn auth_manager_for_provider_auth<'a, M>(
    auth_manager: Option<M>,
    provider_auth: &'a ProviderAuthKind,
) -> (r: Option<AuthManagerChoice<'a, M>>)
    ensures
        r == chosen_manager(auth_manager, resolved_command(provider_auth)),
{
    match provider_auth {
        ProviderAuthKind::CommandBearer { config } => Some(
            AuthManagerChoice::ExternalBearerOnly(config),
        ),
        _ => match auth_manager {
            Some(manager) => Some(AuthManagerChoice::Base(manager)),
            None => None,
        },
    }
}

/// Returns an auth manager for request paths that always require
/// authentication.
///
/// Providers with command-backed auth get a bearer-only manager; otherwise the
/// caller's manager is reused unchanged.
pub fn required_auth_manager_for_provider<'a, M>(
    auth_manager: M,
    provider: &'a ModelProviderInfo,
) -> (r: AuthManagerChoice<'a, M>)
    ensures
        chosen_manager(Some(auth_manager), legacy_command(provider)) == Some(r),
{
    match &provider.auth {
        Some(config) => AuthManagerChoice::ExternalBearerOnly(config),
        None => AuthManagerChoice::Base(auth_manager),
    }
}

/// A provider with a command of its own is served by a manager that runs exactly
/// that command, whether or not the caller has a manager. Any other provider is
/// served by the caller's, where there is one.
pub proof fn law_a_command_of_its_own_serves_a_provider<M>(
    auth_manager: Option<M>,
    manager: M,
    provider: ModelProviderInfo,
    provider_auth: ProviderAuthKind,
)
    ensures
        match provider.auth {
            Some(config) => chosen_manager(auth_manager, legacy_command(&provider)) == Some(
                AuthManagerChoice::<M>::ExternalBearerOnly(&config),
            ),
            None => {
                &&& chosen_manager(Some(manager), legacy_command(&provider)) == Some(
                    AuthManagerChoice::Base(manager),
                )
                &&& chosen_manager::<M>(None, legacy_command(&provider)) is None
            },
        },
        match provider_auth {
            ProviderAuthKind::CommandBearer { config } => chosen_manager(
                auth_manager,
                resolved_command(&provider_auth),
            ) == Some(AuthManagerChoice::<M>::ExternalBearerOnly(&config)),
            _ => {
                &&& chosen_manager(Some(manager), resolved_command(&provider_auth)) == Some(
                    AuthManagerChoice::Base(manager),
                )
                &&& chosen_manager::<M>(None, resolved_command(&provider_auth)) is None
            },
        },
{
}

} // verus!
