//! Language model provider settings, merged from a sequence of setting
//! sources over built-in defaults.
use vstd::prelude::*;

verus! {

/// A model that the user makes available to a provider.
#[derive(Clone, Debug, PartialEq, Eq)]
pub struct AvailableModel {
    pub name: String,
    pub max_tokens: usize,
}

/// The value a setting takes after `values` are applied in order over
/// `default`: the last value given, or the default when none is.
pub open spec fn merged<T>(values: Seq<Option<T>>, default: T) -> T
    decreases values.len(),
{
    if values.len() == 0 {
        default
    } else {
        match values.last() {
            Some(v) => v,
            None => merged(values.drop_last(), default),
        }
    }
}

/// Overwrites `target` with `value` when one is given.
pub fn merge<T>(target: &mut T, value: Option<T>)
    ensures
        *final(target) == match value {
            Some(v) => v,
            None => *old(target),
        },
{
    if let Some(v) = value {
        *target = v;
    }
}

proof fn lemma_merged_step<A, T>(s: Seq<A>, k: int, f: spec_fn(A) -> Option<T>, default: T)
    requires
        0 <= k < s.len(),
    ensures
        merged(s.subrange(0, k + 1).map_values(f), default) == match f(s[k]) {
            Some(v) => v,
            None => merged(s.subrange(0, k).map_values(f), default),
        },
{
    assert(s.subrange(0, k + 1).map_values(f).drop_last() =~= s.subrange(0, k).map_values(f));
}

/// What a settings source says of Anthropic; an absent field leaves the setting as it was.
#[derive(Clone, Debug, PartialEq, Eq, Default)]
pub struct AnthropicSettingsContent {
    pub api_url: Option<String>,
    pub low_speed_timeout_in_seconds: Option<u64>,
    pub available_models: Option<Vec<AvailableModel>>,
}

/// The Anthropic settings in effect.
#[derive(Debug)]
pub struct AnthropicSettings {
    pub api_url: String,
    pub low_speed_timeout_secs: Option<u64>,
    pub available_models: Vec<AvailableModel>,
}

/// What a settings source says of Ollama; an absent field leaves the setting as it was.
#[derive(Clone, Debug, PartialEq, Eq, Default)]
pub struct OllamaSettingsContent {
    pub api_url: Option<String>,
    pub low_speed_timeout_in_seconds: Option<u64>,
}

/// The Ollama settings in effect.
#[derive(Debug)]
pub struct OllamaSettings {
    pub api_url: String,
    pub low_speed_timeout_secs: Option<u64>,
}

/// What a settings source says of OpenAI; an absent field leaves the setting as it was.
#[derive(Clone, Debug, PartialEq, Eq, Default)]
pub struct OpenAiSettingsContent {
    pub api_url: Option<String>,
    pub low_speed_timeout_in_seconds: Option<u64>,
    pub available_models: Option<Vec<AvailableModel>>,
}

/// The OpenAI settings in effect.
#[derive(Debug)]
pub struct OpenAiSettings {
    pub api_url: String,
    pub low_speed_timeout_secs: Option<u64>,
    pub available_models: Vec<AvailableModel>,
}

/// What a settings source says of zed.dev; an absent field leaves the setting as it was.
#[derive(Clone, Debug, PartialEq, Eq, Default)]
pub struct ZedDotDevSettingsContent {
    pub available_models: Option<Vec<AvailableModel>>,
}

/// The zed.dev settings in effect.
#[derive(Debug)]
pub struct ZedDotDevSettings {
    pub available_models: Vec<AvailableModel>,
}

/// What a settings source says of Google AI; an absent field leaves the setting as it was.
#[derive(Clone, Debug, PartialEq, Eq, Default)]
pub struct GoogleSettingsContent {
    pub api_url: Option<String>,
    pub low_speed_timeout_in_seconds: Option<u64>,
    pub available_models: Option<Vec<AvailableModel>>,
}

/// The Google AI settings in effect.
#[derive(Debug)]
pub struct GoogleSettings {
    pub api_url: String,
    pub low_speed_timeout_secs: Option<u64>,
    pub available_models: Vec<AvailableModel>,
}

/// What a settings source says of Copilot Chat; an absent field leaves the setting as it was.
#[derive(Clone, Debug, PartialEq, Eq, Default)]
pub struct CopilotChatSettingsContent {
    pub low_speed_timeout_in_seconds: Option<u64>,
}

/// The Copilot Chat settings in effect.
#[derive(Debug)]
pub struct CopilotChatSettings {
    pub low_speed_timeout_secs: Option<u64>,
}

/// What one settings source says of all language model providers.
#[derive(Clone, Debug, PartialEq, Eq, Default)]
pub struct AllLanguageModelSettingsContent {
    pub anthropic: Option<AnthropicSettingsContent>,
    pub ollama: Option<OllamaSettingsContent>,
    pub openai: Option<OpenAiSettingsContent>,
    pub zed_dot_dev: Option<ZedDotDevSettingsContent>,
    pub google: Option<GoogleSettingsContent>,
    pub copilot_chat: Option<CopilotChatSettingsContent>,
}

/// The language model settings in effect.
#[derive(Debug)]
pub struct AllLanguageModelSettings {
    pub anthropic: AnthropicSettings,
    pub ollama: OllamaSettings,
    pub openai: OpenAiSettings,
    pub zed_dot_dev: ZedDotDevSettings,
    pub google: GoogleSettings,
    pub copilot_chat: CopilotChatSettings,
}

/// The Anthropic api_url that a source gives, if any.
pub open spec fn anthropic_api_url(c: AllLanguageModelSettingsContent) -> Option<String> {
    match c.anthropic {
        Some(p) => p.api_url,
        None => None,
    }
}

/// The Anthropic low_speed_timeout_in_seconds that a source gives, if any.
pub open spec fn anthropic_low_speed_timeout_in_seconds(c: AllLanguageModelSettingsContent) -> Option<Option<u64>> {
    match c.anthropic {
        Some(p) => match p.low_speed_timeout_in_seconds {
            Some(t) => Some(Some(t)),
            None => None,
        },
        None => None,
    }
}

/// The Anthropic available_models that a source gives, if any.
pub open spec fn anthropic_available_models(c: AllLanguageModelSettingsContent) -> Option<Vec<AvailableModel>> {
    match c.anthropic {
        Some(p) => p.available_models,
        None => None,
    }
}

/// The Ollama api_url that a source gives, if any.
pub open spec fn ollama_api_url(c: AllLanguageModelSettingsContent) -> Option<String> {
    match c.ollama {
        Some(p) => p.api_url,
        None => None,
    }
}

/// The Ollama low_speed_timeout_in_seconds that a source gives, if any.
pub open spec fn ollama_low_speed_timeout_in_seconds(c: AllLanguageModelSettingsContent) -> Option<Option<u64>> {
    match c.ollama {
        Some(p) => match p.low_speed_timeout_in_seconds {
            Some(t) => Some(Some(t)),
            None => None,
        },
        None => None,
    }
}

/// The OpenAI api_url that a source gives, if any.
pub open spec fn openai_api_url(c: AllLanguageModelSettingsContent) -> Option<String> {
    match c.openai {
        Some(p) => p.api_url,
        None => None,
    }
}

/// The OpenAI low_speed_timeout_in_seconds that a source gives, if any.
pub open spec fn openai_low_speed_timeout_in_seconds(c: AllLanguageModelSettingsContent) -> Option<Option<u64>> {
    match c.openai {
        Some(p) => match p.low_speed_timeout_in_seconds {
            Some(t) => Some(Some(t)),
            None => None,
        },
        None => None,
    }
}

/// The OpenAI available_models that a source gives, if any.
pub open spec fn openai_available_models(c: AllLanguageModelSettingsContent) -> Option<Vec<AvailableModel>> {
    match c.openai {
        Some(p) => p.available_models,
        None => None,
    }
}

/// The zed.dev available_models that a source gives, if any.
pub open spec fn zed_dot_dev_available_models(c: AllLanguageModelSettingsContent) -> Option<Vec<AvailableModel>> {
    match c.zed_dot_dev {
        Some(p) => p.available_models,
        None => None,
    }
}

/// The Google AI api_url that a source gives, if any.
pub open spec fn google_api_url(c: AllLanguageModelSettingsContent) -> Option<String> {
    match c.google {
        Some(p) => p.api_url,
        None => None,
    }
}

/// The Google AI low_speed_timeout_in_seconds that a source gives, if any.
pub open spec fn google_low_speed_timeout_in_seconds(c: AllLanguageModelSettingsContent) -> Option<Option<u64>> {
    match c.google {
        Some(p) => match p.low_speed_timeout_in_seconds {
            Some(t) => Some(Some(t)),
            None => None,
        },
        None => None,
    }
}

/// The Google AI available_models that a source gives, if any.
pub open spec fn google_available_models(c: AllLanguageModelSettingsContent) -> Option<Vec<AvailableModel>> {
    match c.google {
        Some(p) => p.available_models,
        None => None,
    }
}

/// The Copilot Chat low_speed_timeout_in_seconds that a source gives, if any.
pub open spec fn copilot_chat_low_speed_timeout_in_seconds(c: AllLanguageModelSettingsContent) -> Option<Option<u64>> {
    match c.copilot_chat {
        Some(p) => match p.low_speed_timeout_in_seconds {
            Some(t) => Some(Some(t)),
            None => None,
        },
        None => None,
    }
}

/// The settings in effect after `sources` are applied in order over the
/// defaults: each setting takes the value of the last source that gives one.
pub open spec fn loaded(
    r: AllLanguageModelSettings,
    defaults: AllLanguageModelSettings,
    sources: Seq<AllLanguageModelSettingsContent>,
) -> bool {
    &&& r.anthropic.api_url == merged(sources.map_values(|c: AllLanguageModelSettingsContent| anthropic_api_url(c)), defaults.anthropic.api_url)
    &&& r.anthropic.low_speed_timeout_secs == merged(sources.map_values(|c: AllLanguageModelSettingsContent| anthropic_low_speed_timeout_in_seconds(c)), defaults.anthropic.low_speed_timeout_secs)
    &&& r.anthropic.available_models == merged(sources.map_values(|c: AllLanguageModelSettingsContent| anthropic_available_models(c)), defaults.anthropic.available_models)
    &&& r.ollama.api_url == merged(sources.map_values(|c: AllLanguageModelSettingsContent| ollama_api_url(c)), defaults.ollama.api_url)
    &&& r.ollama.low_speed_timeout_secs == merged(sources.map_values(|c: AllLanguageModelSettingsContent| ollama_low_speed_timeout_in_seconds(c)), defaults.ollama.low_speed_timeout_secs)
    &&& r.openai.api_url == merged(sources.map_values(|c: AllLanguageModelSettingsContent| openai_api_url(c)), defaults.openai.api_url)
    &&& r.openai.low_speed_timeout_secs == merged(sources.map_values(|c: AllLanguageModelSettingsContent| openai_low_speed_timeout_in_seconds(c)), defaults.openai.low_speed_timeout_secs)
    &&& r.openai.available_models == merged(sources.map_values(|c: AllLanguageModelSettingsContent| openai_available_models(c)), defaults.openai.available_models)
    &&& r.zed_dot_dev.available_models == merged(sources.map_values(|c: AllLanguageModelSettingsContent| zed_dot_dev_available_models(c)), defaults.zed_dot_dev.available_models)
    &&& r.google.api_url == merged(sources.map_values(|c: AllLanguageModelSettingsContent| google_api_url(c)), defaults.google.api_url)
    &&& r.google.low_speed_timeout_secs == merged(sources.map_values(|c: AllLanguageModelSettingsContent| google_low_speed_timeout_in_seconds(c)), defaults.google.low_speed_timeout_secs)
    &&& r.google.available_models == merged(sources.map_values(|c: AllLanguageModelSettingsContent| google_available_models(c)), defaults.google.available_models)
    &&& r.copilot_chat.low_speed_timeout_secs == merged(sources.map_values(|c: AllLanguageModelSettingsContent| copilot_chat_low_speed_timeout_in_seconds(c)), defaults.copilot_chat.low_speed_timeout_secs)
}

impl AllLanguageModelSettings {
    /// Settings with an empty API URL, no timeout and no extra models for
    /// every provider.
    pub open spec fn is_empty_default(&self) -> bool {
        &&& self.anthropic.api_url@.len() == 0
        &&& self.anthropic.low_speed_timeout_secs is None
        &&& self.anthropic.available_models@.len() == 0
        &&& self.ollama.api_url@.len() == 0
        &&& self.ollama.low_speed_timeout_secs is None
        &&& self.openai.api_url@.len() == 0
        &&& self.openai.low_speed_timeout_secs is None
        &&& self.openai.available_models@.len() == 0
        &&& self.zed_dot_dev.available_models@.len() == 0
        &&& self.google.api_url@.len() == 0
        &&& self.google.low_speed_timeout_secs is None
        &&& self.google.available_models@.len() == 0
        &&& self.copilot_chat.low_speed_timeout_secs is None
    }

    /// Applies `sources` in order over the defaults.
    pub fn load(sources: Vec<AllLanguageModelSettingsContent>) -> (r: AllLanguageModelSettings)
        ensures
            exists|d: AllLanguageModelSettings| d.is_empty_default() && loaded(r, d, sources@),
    {
        let mut settings = AllLanguageModelSettings::default();
        let ghost defaults = settings;
        let ghost all = sources@;
        let mut rest = sources;
        let n: usize = rest.len();
        let mut k: usize = 0;
        while rest.len() > 0
            invariant
                k + rest@.len() == all.len(),
                all.len() == n,
                rest@ == all.subrange(k as int, all.len() as int),
                defaults.is_empty_default(),
                loaded(settings, defaults, all.subrange(0, k as int)),
            decreases rest@.len(),
        {
            let value = rest.remove(0);
            proof {
                assert(value == all[k as int]);
                lemma_merged_step(all, k as int, |c: AllLanguageModelSettingsContent| anthropic_api_url(c), defaults.anthropic.api_url);
                lemma_merged_step(all, k as int, |c: AllLanguageModelSettingsContent| anthropic_low_speed_timeout_in_seconds(c), defaults.anthropic.low_speed_timeout_secs);
                lemma_merged_step(all, k as int, |c: AllLanguageModelSettingsContent| anthropic_available_models(c), defaults.anthropic.available_models);
                lemma_merged_step(all, k as int, |c: AllLanguageModelSettingsContent| ollama_api_url(c), defaults.ollama.api_url);
                lemma_merged_step(all, k as int, |c: AllLanguageModelSettingsContent| ollama_low_speed_timeout_in_seconds(c), defaults.ollama.low_speed_timeout_secs);
                lemma_merged_step(all, k as int, |c: AllLanguageModelSettingsContent| openai_api_url(c), defaults.openai.api_url);
                lemma_merged_step(all, k as int, |c: AllLanguageModelSettingsContent| openai_low_speed_timeout_in_seconds(c), defaults.openai.low_speed_timeout_secs);
                lemma_merged_step(all, k as int, |c: AllLanguageModelSettingsContent| openai_available_models(c), defaults.openai.available_models);
                lemma_merged_step(all, k as int, |c: AllLanguageModelSettingsContent| zed_dot_dev_available_models(c), defaults.zed_dot_dev.available_models);
                lemma_merged_step(all, k as int, |c: AllLanguageModelSettingsContent| google_api_url(c), defaults.google.api_url);
                lemma_merged_step(all, k as int, |c: AllLanguageModelSettingsContent| google_low_speed_timeout_in_seconds(c), defaults.google.low_speed_timeout_secs);
                lemma_merged_step(all, k as int, |c: AllLanguageModelSettingsContent| google_available_models(c), defaults.google.available_models);
                lemma_merged_step(all, k as int, |c: AllLanguageModelSettingsContent| copilot_chat_low_speed_timeout_in_seconds(c), defaults.copilot_chat.low_speed_timeout_secs);
            }
            if let Some(p) = value.anthropic {
                merge(&mut settings.anthropic.api_url, p.api_url);
                if let Some(t) = p.low_speed_timeout_in_seconds {
                    settings.anthropic.low_speed_timeout_secs = Some(t);
                }
                merge(&mut settings.anthropic.available_models, p.available_models);
            }
            if let Some(p) = value.ollama {
                merge(&mut settings.ollama.api_url, p.api_url);
                if let Some(t) = p.low_speed_timeout_in_seconds {
                    settings.ollama.low_speed_timeout_secs = Some(t);
                }
            }
            if let Some(p) = value.openai {
                merge(&mut settings.openai.api_url, p.api_url);
                if let Some(t) = p.low_speed_timeout_in_seconds {
                    settings.openai.low_speed_timeout_secs = Some(t);
                }
                merge(&mut settings.openai.available_models, p.available_models);
            }
            if let Some(p) = value.zed_dot_dev {
                merge(&mut settings.zed_dot_dev.available_models, p.available_models);
            }
            if let Some(p) = value.google {
                merge(&mut settings.google.api_url, p.api_url);
                if let Some(t) = p.low_speed_timeout_in_seconds {
                    settings.google.low_speed_timeout_secs = Some(t);
                }
                merge(&mut settings.google.available_models, p.available_models);
            }
            if let Some(p) = value.copilot_chat {
                if let Some(t) = p.low_speed_timeout_in_seconds {
                    settings.copilot_chat.low_speed_timeout_secs = Some(t);
                }
            }
            proof {
                assert(rest@ =~= all.subrange(k + 1, all.len() as int));
            }
            k += 1;
        }
        proof {
            assert(all.subrange(0, k as int) =~= all);
        }
        settings
    }
}

impl Default for AllLanguageModelSettings {
    fn default() -> (r: Self)
        ensures
            r.is_empty_default(),
    {
        AllLanguageModelSettings {
            anthropic: AnthropicSettings { api_url: String::new(), low_speed_timeout_secs: None, available_models: Vec::new() },
            ollama: OllamaSettings { api_url: String::new(), low_speed_timeout_secs: None },
            openai: OpenAiSettings { api_url: String::new(), low_speed_timeout_secs: None, available_models: Vec::new() },
            zed_dot_dev: ZedDotDevSettings { available_models: Vec::new() },
            google: GoogleSettings { api_url: String::new(), low_speed_timeout_secs: None, available_models: Vec::new() },
            copilot_chat: CopilotChatSettings { low_speed_timeout_secs: None },
        }
    }
}

} // verus!
