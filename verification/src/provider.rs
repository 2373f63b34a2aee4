//! Runtime provider abstraction for model-provider-specific behavior.
//!
//! The framework is intentionally opt-in. Providers continue through legacy
//! auth, transport, model-listing, and capability paths unless a resolution
//! policy explicitly enables the selected provider.

use crate::text::is_among;
use vstd::prelude::*;

verus! {

/// `url::Url`, a parsed URL. Nothing is claimed of it: it is carried, never
/// looked into.
#[verifier::external_type_specification]
#[verifier::external_body]
pub struct ExUrl(url::Url);

/// The protocol that a provider speaks.
#[derive(Clone, Copy, Debug, PartialEq, Eq, Structural)]
pub enum WireApi {
    Responses,
}

/// A command that prints a bearer token.
#[derive(Clone, Debug, PartialEq, Eq)]
pub struct ModelProviderAuthInfo {
    pub command: String,
    pub args: Vec<String>,
    pub timeout_ms: u64,
    pub refresh_interval_ms: u64,
    pub cwd: String,
}

/// A provider as the configuration describes it.
#[derive(Clone, Debug, PartialEq, Eq)]
pub struct ModelProviderInfo {
    pub name: String,
    pub base_url: Option<String>,
    /// The environment variable that holds the provider's key.
    pub env_key: Option<String>,
    /// How to get a key, for a user who has none.
    pub env_key_instructions: Option<String>,
    pub experimental_bearer_token: Option<String>,
    pub auth: Option<ModelProviderAuthInfo>,
    pub wire_api: WireApi,
    pub query_params: Option<Vec<(String, String)>>,
    pub http_headers: Option<Vec<(String, String)>>,
    pub env_http_headers: Option<Vec<(String, String)>>,
    pub request_max_retries: Option<u64>,
    pub stream_max_retries: Option<u64>,
    pub stream_idle_timeout_ms: Option<u64>,
    pub websocket_connect_timeout_ms: Option<u64>,
    pub requires_openai_auth: bool,
    pub supports_websockets: bool,
}

/// The models of a static catalog, by name.
#[derive(Clone, Debug, PartialEq, Eq)]
pub struct ModelsResponse {
    pub models: Vec<String>,
}

/// Runtime strategy selected for the active model provider.
#[derive(Clone, Debug, PartialEq)]
pub enum ProviderRuntime {
    /// Preserve the existing provider implementation.
    Legacy,
    /// Use provider-owned runtime strategies.
    Resolved(ResolvedModelProvider),
}

impl Default for ProviderRuntime {
    fn default() -> (r: Self)
        ensures
            r is Legacy,
    {
        ProviderRuntime::Legacy
    }
}

/// Runtime provider object resolved from config-facing provider metadata.
#[derive(Clone, Debug, PartialEq)]
pub struct ResolvedModelProvider {
    pub id: String,
    pub info: ModelProviderInfo,
    pub auth: ProviderAuthKind,
    pub model_catalog: ProviderModelCatalog,
    pub transport: ProviderTransport,
    pub capabilities: ProviderCapabilities,
}

/// Provider-owned authentication strategy.
#[derive(Clone, Debug, PartialEq, Eq)]
pub enum ProviderAuthKind {
    /// Preserve the existing provider-auth behavior for resolved test providers.
    Legacy,
    /// OpenAI-managed auth.
    OpenAi,
    /// Auth from the caller's auth manager.
    AuthManager,
    /// Bearer token read from a configured environment variable.
    EnvBearer { env_key: String, instructions: Option<String> },
    /// Bearer token that the configuration holds.
    StaticBearer { token: String },
    /// Command-backed bearer token.
    CommandBearer { config: ModelProviderAuthInfo },
    /// No provider auth is required.
    NoAuth,
}

/// Provider-owned model catalog source.
#[derive(Clone, Debug, PartialEq)]
pub enum ProviderModelCatalog {
    /// Preserve the existing model-listing behavior.
    Legacy,
    /// Use a static catalog as authoritative.
    Static { models: ModelsResponse },
}

/// Provider-owned transport metadata.
#[derive(Clone, Debug, PartialEq)]
pub struct ProviderTransport {
    pub base_url: Option<url::Url>,
    pub wire_api: WireApi,
    pub request_timeout: Option<std::time::Duration>,
    pub supports_websockets: bool,
}

/// Provider-specific capability gates.
#[derive(Clone, Debug, PartialEq, Eq)]
pub struct ProviderCapabilities {
    pub realtime: CapabilitySupport,
    pub audio_transcription: CapabilitySupport,
    pub image_generation: CapabilitySupport,
    pub web_search: CapabilitySupport,
    pub js_repl: CapabilitySupport,
    pub prompt_image_input: CapabilitySupport,
}

impl ProviderCapabilities {
    /// Every capability as features and models decide it.
    pub fn legacy_current_behavior() -> (r: Self)
        ensures
            r.realtime is Legacy,
            r.audio_transcription is Legacy,
            r.image_generation is Legacy,
            r.web_search is Legacy,
            r.js_repl is Legacy,
            r.prompt_image_input is Legacy,
    {
        ProviderCapabilities {
            realtime: CapabilitySupport::Legacy,
            audio_transcription: CapabilitySupport::Legacy,
            image_generation: CapabilitySupport::Legacy,
            web_search: CapabilitySupport::Legacy,
            js_repl: CapabilitySupport::Legacy,
            prompt_image_input: CapabilitySupport::Legacy,
        }
    }
}

/// Whether a provider supports a capability.
#[derive(Clone, Debug, PartialEq, Eq)]
pub enum CapabilitySupport {
    /// Preserve existing feature/model-driven behavior.
    Legacy,
    /// Capability is supported by the provider.
    Supported,
    /// Capability is not supported by the provider.
    Unsupported { reason: String },
}

/// Policy controlling which providers may use the new runtime framework.
#[derive(Clone, Debug)]
pub struct ProviderResolutionPolicy {
    enabled_provider_ids: Vec<String>,
}

impl View for ProviderResolutionPolicy {
    /// The ids of the enabled providers.
    type V = Set<Seq<char>>;

    closed spec fn view(&self) -> Set<Seq<char>> {
        self.enabled_provider_ids.deep_view().to_set()
    }
}

impl Default for ProviderResolutionPolicy {
    fn default() -> (r: Self)
        ensures
            r@ == Set::<Seq<char>>::empty(),
    {
        let r = ProviderResolutionPolicy { enabled_provider_ids: Vec::new() };
        assert(r@ =~= Set::<Seq<char>>::empty());
        r
    }
}

impl PartialEq for ProviderResolutionPolicy {
    /// Two policies are equal where they enable the same providers.
    fn eq(&self, other: &Self) -> (r: bool) {
        let r = self.enables_all_of(other) && other.enables_all_of(self);
        assert(r ==> self@ =~= other@);
        r
    }
}

impl vstd::std_specs::cmp::PartialEqSpecImpl for ProviderResolutionPolicy {
    open spec fn obeys_eq_spec() -> bool {
        true
    }

    open spec fn eq_spec(&self, other: &Self) -> bool {
        self@ == other@
    }
}

impl Eq for ProviderResolutionPolicy {

}

impl ProviderResolutionPolicy {
    /// A policy that enables no provider.
    pub fn disabled() -> (r: Self)
        ensures
            r@ == Set::<Seq<char>>::empty(),
    {
        ProviderResolutionPolicy::default()
    }

    pub fn with_enabled_provider_ids(provider_ids: Vec<String>) -> (r: Self)
        ensures
            r@ == provider_ids.deep_view().to_set(),
    {
        ProviderResolutionPolicy { enabled_provider_ids: provider_ids }
    }

    pub fn enables_provider(&self, provider_id: &str) -> (r: bool)
        ensures
            r == self@.contains(provider_id@),
    {
        is_among(&self.enabled_provider_ids, provider_id)
    }

    /// Whether this policy enables every provider that `other` enables.
    fn enables_all_of(&self, other: &Self) -> (r: bool)
        ensures
            r == other@.subset_of(self@),
    {
        let ids = &other.enabled_provider_ids;
        let mut i: usize = 0;
        while i < ids.len()
            invariant
                i <= ids@.len(),
                *ids == other.enabled_provider_ids,
                forall|j: int| 0 <= j < i ==> self@.contains(#[trigger] ids.deep_view()[j]),
            decreases ids.len() - i,
        {
            if !self.enables_provider(ids[i].as_str()) {
                assert(other@.contains(ids.deep_view()[i as int]));
                return false;
            }
            i = i + 1;
        }
        true
    }
}

/// A policy enables the providers that it was made with, in whatever order and
/// however often they were named, and no others.
pub proof fn law_a_policy_enables_what_was_named(ids: Seq<Seq<char>>, again: Seq<Seq<char>>)
    requires
        forall|id: Seq<char>| ids.contains(id) <==> #[trigger] again.contains(id),
    ensures
        ids.to_set() == again.to_set(),
{
    assert forall|id: Seq<char>| ids.to_set().contains(id) == again.to_set().contains(id) by {
        assert(ids.contains(id) <==> again.contains(id));
    }
    assert(ids.to_set() =~= again.to_set());
}

/// Resolve the config-facing provider into a runtime strategy.
///
/// All providers stay on the legacy path. The policy is accepted so that opt-in
/// resolution can be added without changing callsites.
pub fn resolve_model_provider(
    _provider_id: &str,
    _provider: &ModelProviderInfo,
    _policy: &ProviderResolutionPolicy,
) -> (r: ProviderRuntime)
    ensures
        r is Legacy,
{
    ProviderRuntime::Legacy
}

} // verus!
