use billing_sync::settings::{
    AllLanguageModelSettings, AllLanguageModelSettingsContent, AvailableModel, CopilotChatSettingsContent,
    OllamaSettingsContent, OpenAiSettingsContent, ZedDotDevSettingsContent, merge,
};

#[test]
fn load_with_no_sources_gives_defaults() {
    let s = AllLanguageModelSettings::load(vec![]);
    assert_eq!(s.ollama.api_url, "");
    assert_eq!(s.ollama.low_speed_timeout_secs, None);
    assert!(s.zed_dot_dev.available_models.is_empty());
    assert_eq!(s.copilot_chat.low_speed_timeout_secs, None);
}

#[test]
fn later_sources_override_earlier_ones() {
    let defaults = AllLanguageModelSettingsContent {
        ollama: Some(OllamaSettingsContent {
            api_url: Some("http://localhost:11434".to_string()),
            low_speed_timeout_in_seconds: Some(30),
        }),
        openai: Some(OpenAiSettingsContent {
            api_url: Some("https://api.openai.com/v1".to_string()),
            low_speed_timeout_in_seconds: None,
            available_models: None,
        }),
        ..Default::default()
    };
    let user = AllLanguageModelSettingsContent {
        ollama: Some(OllamaSettingsContent { api_url: None, low_speed_timeout_in_seconds: Some(60) }),
        zed_dot_dev: Some(ZedDotDevSettingsContent {
            available_models: Some(vec![AvailableModel { name: "custom".to_string(), max_tokens: 1000 }]),
        }),
        copilot_chat: Some(CopilotChatSettingsContent { low_speed_timeout_in_seconds: Some(5) }),
        ..Default::default()
    };
    let s = AllLanguageModelSettings::load(vec![defaults, user]);
    assert_eq!(s.ollama.api_url, "http://localhost:11434");
    assert_eq!(s.ollama.low_speed_timeout_secs, Some(60));
    assert_eq!(s.openai.api_url, "https://api.openai.com/v1");
    assert_eq!(s.openai.low_speed_timeout_secs, None);
    assert_eq!(s.zed_dot_dev.available_models.len(), 1);
    assert_eq!(s.zed_dot_dev.available_models[0].name, "custom");
    assert_eq!(s.copilot_chat.low_speed_timeout_secs, Some(5));
    assert_eq!(s.anthropic.api_url, "");
}

#[test]
fn merge_overwrites_only_when_given() {
    let mut target = "old".to_string();
    merge(&mut target, None);
    assert_eq!(target, "old");
    merge(&mut target, Some("new".to_string()));
    assert_eq!(target, "new");
}
