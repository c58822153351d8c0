//! What a transcription request is made with.
use vstd::prelude::*;
use vstd::string::*;

verus! {

/// The providers of transcription.
#[derive(Debug, Clone, Copy, PartialEq, Eq, Structural)]
pub enum TranscriptionProvider {
    OpenAI,
    Deepgram,
    DeepInfra,
    Groq,
}

/// A model of a provider.
#[derive(Debug)]
pub struct TranscriptionModel {
    /// The name by which the user selects the model.
    pub id: String,
    pub provider: TranscriptionProvider,
    /// The name by which the provider knows the model.
    pub api_model_name: String,
    /// Where the provider takes requests.
    pub endpoint: String,
}

/// The configuration of transcription requests. The providers' own settings
/// are carried along in `P`.
#[derive(Debug)]
pub struct TranscriptionConfig<P> {
    /// The model to use.
    pub model: TranscriptionModel,
    /// The key with which to authenticate.
    pub api_key: String,
    /// Keywords that improve the accuracy.
    pub keywords: Vec<String>,
    /// The providers' own settings.
    pub providers: P,
    /// The model name to send instead of the model's own.
    pub api_model_name_override: Option<String>,
    /// The endpoint to use instead of the model's own.
    pub endpoint_override: Option<String>,
    /// Whether overrides are in use.
    pub using_override: bool,
}

/// The override, or else the model's own value.
pub open spec fn overridden(value: Option<String>, own: String) -> Seq<char> {
    match value {
        Some(v) => v@,
        None => own@,
    }
}

impl<P> TranscriptionConfig<P> {
    /// A configuration without overrides.
    pub fn new(
        model: TranscriptionModel,
        api_key: String,
        keywords: Vec<String>,
        providers: P,
    ) -> (r: Self)
        ensures
            r == (TranscriptionConfig {
                model,
                api_key,
                keywords,
                providers,
                api_model_name_override: None,
                endpoint_override: None,
                using_override: false,
            }),
    {
        TranscriptionConfig {
            model,
            api_key,
            keywords,
            providers,
            api_model_name_override: None,
            endpoint_override: None,
            using_override: false,
        }
    }

    /// A configuration with the given overrides.
    pub fn new_with_overrides(
        model: TranscriptionModel,
        api_key: String,
        keywords: Vec<String>,
        providers: P,
        api_model_name_override: Option<String>,
        endpoint_override: Option<String>,
        using_override: bool,
    ) -> (r: Self)
        ensures
            r == (TranscriptionConfig {
                model,
                api_key,
                keywords,
                providers,
                api_model_name_override,
                endpoint_override,
                using_override,
            }),
    {
        TranscriptionConfig {
            model,
            api_key,
            keywords,
            providers,
            api_model_name_override,
            endpoint_override,
            using_override,
        }
    }

    /// The model name to send.
    pub fn api_model_name(&self) -> (r: &str)
        ensures
            r@ == overridden(self.api_model_name_override, self.model.api_model_name),
    {
        match &self.api_model_name_override {
            Some(name) => name.as_str(),
            None => self.model.api_model_name.as_str(),
        }
    }

    /// The endpoint to use.
    pub fn endpoint(&self) -> (r: &str)
        ensures
            r@ == overridden(self.endpoint_override, self.model.endpoint),
    {
        match &self.endpoint_override {
            Some(url) => url.as_str(),
            None => self.model.endpoint.as_str(),
        }
    }

    /// The model's name for the user.
    pub fn model_label(&self) -> (r: &str)
        ensures
            r@ == overridden(self.api_model_name_override, self.model.id),
    {
        match &self.api_model_name_override {
            Some(name) => name.as_str(),
            None => self.model.id.as_str(),
        }
    }

    /// What to do when the provider refuses the key.
    pub fn auth_hint(&self) -> (r: &'static str)
        ensures
            r@ == if self.using_override {
                "Set OSTT_TRANSCRIPTION_API_KEY if your endpoint requires auth."@
            } else {
                "Please run 'ostt auth' to update your API key."@
            },
    {
        if self.using_override {
            "Set OSTT_TRANSCRIPTION_API_KEY if your endpoint requires auth."
        } else {
            "Please run 'ostt auth' to update your API key."
        }
    }

    /// The provider that a request goes to.
    pub fn provider(&self) -> (r: TranscriptionProvider)
        ensures
            r == self.model.provider,
    {
        self.model.provider
    }
}

/// What a provider answers.
#[derive(Debug)]
pub struct TranscriptionResponse {
    /// The transcribed text.
    pub text: String,
}

/// An override always counts, even an empty one; without it the model's own
/// value does.
pub proof fn law_overrides(value: String, own: String)
    ensures
        overridden(Some(value), own) == value@,
        overridden(None, own) == own@,
{
}

} // verus!
