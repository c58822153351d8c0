//! The recorder's configuration, and what the environment overrides of it.
pub mod file;

pub use crate::config::file::{
    AudioConfig, OsttConfig, TranscriptionOverrideConfig, VisualizationType,
};
use crate::text::{is_whitespace, law_trim_padding, lemma_trim_fixed, opt_text, trim, trimmed};
use vstd::prelude::*;
use vstd::string::*;

verus! {

/// What the user has set instead of the authorised provider and model.
#[derive(Debug)]
pub struct TranscriptionOverrides {
    pub provider: Option<String>,
    pub model: Option<String>,
    pub endpoint: Option<String>,
    pub api_key: Option<String>,
}

/// The settings of the transcription, each where it is set.
pub struct OverridesModel {
    pub provider: Option<Seq<char>>,
    pub model: Option<Seq<char>>,
    pub endpoint: Option<Seq<char>>,
    pub api_key: Option<Seq<char>>,
}

impl OverridesModel {
    /// Whether anything is set.
    pub open spec fn configured(self) -> bool {
        self.provider is Some || self.model is Some || self.endpoint is Some || self.api_key is Some
    }
}

impl View for TranscriptionOverrides {
    type V = OverridesModel;

    open spec fn view(&self) -> OverridesModel {
        OverridesModel {
            provider: opt_text(self.provider),
            model: opt_text(self.model),
            endpoint: opt_text(self.endpoint),
            api_key: opt_text(self.api_key),
        }
    }
}

impl Default for TranscriptionOverrides {
    /// Nothing is set.
    fn default() -> (r: Self)
        ensures
            r.provider is None,
            r.model is None,
            r.endpoint is None,
            r.api_key is None,
    {
        TranscriptionOverrides { provider: None, model: None, endpoint: None, api_key: None }
    }
}

impl TranscriptionOverrides {
    /// Whether anything is set.
    pub fn is_configured(&self) -> (r: bool)
        ensures
            r == (self.provider is Some || self.model is Some || self.endpoint is Some
                || self.api_key is Some),
            r == self@.configured(),
    {
        self.provider.is_some() || self.model.is_some() || self.endpoint.is_some()
            || self.api_key.is_some()
    }
}

/// The environment's variables for the transcription, where they are set.
#[derive(Debug)]
pub struct TranscriptionEnv {
    /// `OSTT_TRANSCRIPTION_PROVIDER`
    pub provider: Option<String>,
    /// `OSTT_TRANSCRIPTION_MODEL`
    pub model: Option<String>,
    /// `OSTT_TRANSCRIPTION_ENDPOINT`
    pub endpoint: Option<String>,
    /// `OSTT_TRANSCRIPTION_API_KEY`
    pub api_key: Option<String>,
}

impl View for TranscriptionEnv {
    type V = OverridesModel;

    open spec fn view(&self) -> OverridesModel {
        OverridesModel {
            provider: opt_text(self.provider),
            model: opt_text(self.model),
            endpoint: opt_text(self.endpoint),
            api_key: opt_text(self.api_key),
        }
    }
}

/// The trimmed value of a variable, where it is set and not blank.
pub open spec fn env_value(value: Option<Seq<char>>) -> Option<Seq<char>> {
    match value {
        Some(v) if trim(v).len() > 0 => Some(trim(v)),
        _ => None,
    }
}

/// The value that counts: the environment's, or else the configured one.
pub open spec fn override_value(env: Option<Seq<char>>, configured: Option<Seq<char>>) -> Option<
    Seq<char>,
> {
    match env_value(env) {
        Some(v) => Some(v),
        None => configured,
    }
}

/// The trimmed value of a variable, where it is set and not blank.
pub fn env_optional(value: &Option<String>) -> (r: Option<String>)
    ensures
        opt_text(r) == env_value(opt_text(*value)),
{
    match value {
        Some(v) => {
            let t = trimmed(v.as_str());
            if t.as_str().is_empty() {
                None
            } else {
                Some(t)
            }
        },
        None => None,
    }
}

/// Copies an optional text.
fn copied(value: &Option<String>) -> (r: Option<String>)
    ensures
        opt_text(r) == opt_text(*value),
{
    match value {
        Some(v) => Some(v.clone()),
        None => None,
    }
}

/// The value that counts.
fn overridden(env: &Option<String>, configured: &Option<String>) -> (r: Option<String>)
    ensures
        opt_text(r) == override_value(opt_text(*env), opt_text(*configured)),
{
    match env_optional(env) {
        Some(v) => Some(v),
        None => copied(configured),
    }
}

/// The settings that hold, each from the environment or else as configured.
pub open spec fn overrides_of(env: OverridesModel, configured: OverridesModel) -> OverridesModel {
    OverridesModel {
        provider: override_value(env.provider, configured.provider),
        model: override_value(env.model, configured.model),
        endpoint: override_value(env.endpoint, configured.endpoint),
        api_key: override_value(env.api_key, configured.api_key),
    }
}

/// The settings that a configuration file holds.
pub open spec fn configured_overrides(config: TranscriptionOverrideConfig) -> OverridesModel {
    OverridesModel {
        provider: opt_text(config.provider),
        model: opt_text(config.model),
        endpoint: opt_text(config.endpoint),
        api_key: opt_text(config.api_key),
    }
}

/// Takes each override from the environment, or else from the configuration.
pub fn load_transcription_overrides(config: &OsttConfig, env: &TranscriptionEnv) -> (r:
    TranscriptionOverrides)
    ensures
        opt_text(r.provider) == override_value(
            opt_text(env.provider),
            opt_text(config.transcription.provider),
        ),
        opt_text(r.model) == override_value(
            opt_text(env.model),
            opt_text(config.transcription.model),
        ),
        opt_text(r.endpoint) == override_value(
            opt_text(env.endpoint),
            opt_text(config.transcription.endpoint),
        ),
        opt_text(r.api_key) == override_value(
            opt_text(env.api_key),
            opt_text(config.transcription.api_key),
        ),
        r@ == overrides_of(env@, configured_overrides(config.transcription)),
{
    TranscriptionOverrides {
        provider: overridden(&env.provider, &config.transcription.provider),
        model: overridden(&env.model, &config.transcription.model),
        endpoint: overridden(&env.endpoint, &config.transcription.endpoint),
        api_key: overridden(&env.api_key, &config.transcription.api_key),
    }
}

/// A value in the environment comes before the configuration, without the white
/// space around it. Where it is blank or not set, the configuration stays.
pub proof fn law_environment_first(
    before: Seq<char>,
    value: Seq<char>,
    after: Seq<char>,
    configured: Option<Seq<char>>,
)
    requires
        forall|k: int| 0 <= k < before.len() ==> is_whitespace(#[trigger] before[k]),
        forall|k: int| 0 <= k < after.len() ==> is_whitespace(#[trigger] after[k]),
        value.len() > 0 ==> !is_whitespace(value[0]) && !is_whitespace(value.last()),
    ensures
        override_value(Some(before + value + after), configured) == if value.len() > 0 {
            Some(value)
        } else {
            configured
        },
        override_value(None, configured) == configured,
        env_value(Some(before + value + after)) is Some <==> value.len() > 0,
{
    law_trim_padding(before, value, after);
    lemma_trim_fixed(value);
}

/// With an environment that sets nothing, every setting is the configured one;
/// and where all are set, none is.
pub proof fn law_overrides_are_complete(env: OverridesModel, configured: OverridesModel)
    ensures
        !env.configured() ==> overrides_of(env, configured) == configured,
        env_value(env.provider) is Some && env_value(env.model) is Some && env_value(env.endpoint)
            is Some && env_value(env.api_key) is Some ==> forall|other: OverridesModel| #[trigger]
            overrides_of(env, other) == overrides_of(env, configured),
        configured.configured() ==> overrides_of(env, configured).configured(),
{
}

/// Each setting depends on its own variable alone: to set another changes
/// nothing of it.
pub proof fn law_overrides_are_separate(
    env: OverridesModel,
    configured: OverridesModel,
    value: Option<Seq<char>>,
)
    ensures
        ({
            let plain = overrides_of(env, configured);
            &&& overrides_of(OverridesModel { provider: value, ..env }, configured) == (
            OverridesModel { provider: override_value(value, configured.provider), ..plain })
            &&& overrides_of(OverridesModel { model: value, ..env }, configured) == (
            OverridesModel { model: override_value(value, configured.model), ..plain })
            &&& overrides_of(OverridesModel { endpoint: value, ..env }, configured) == (
            OverridesModel { endpoint: override_value(value, configured.endpoint), ..plain })
            &&& overrides_of(OverridesModel { api_key: value, ..env }, configured) == (
            OverridesModel { api_key: override_value(value, configured.api_key), ..plain })
        }),
{
}

/// Settings are configured unless none of them is set.
pub proof fn law_configured(settings: OverridesModel)
    ensures
        !settings.configured() <==> settings == (OverridesModel {
            provider: None,
            model: None,
            endpoint: None,
            api_key: None,
        }),
{
}

} // verus!
