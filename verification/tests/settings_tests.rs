use anemone_core::backlog::{BacklogFilter, BacklogStore, LogEntry, StyledText, TextKind, MAX_BACKLOG_ENTRIES};
use anemone_core::hook_config::{HookConfig, SavedHookProfile};
use anemone_core::llm_provider::{LlmProvider, UnknownProvider};
use anemone_core::hotkey::{
    key_name_from_vk, vk_from_key_name, HotkeyConfig, HotkeyParseError, HotkeySlot, HotkeySpec,
    MOD_ALT, MOD_CONTROL, MOD_SHIFT, MOD_WIN, VK_A, VK_C, VK_DOWN, VK_UP,
};
use anemone_core::translation_config::{
    CustomApiConfig, CustomApiSelectionError, DeepLStrategy, LlmConfig, LlmProviderProfile,
    TranslationConfig,
};

fn api(name: &str) -> CustomApiConfig {
    let mut a = CustomApiConfig::default();
    a.name = name.to_string();
    a
}

fn profile(name: &str, hash: Option<&str>, hook: &str) -> SavedHookProfile {
    SavedHookProfile {
        process_name: name.to_string(),
        exe_sha256: hash.map(|h| h.to_string()),
        hook_name: hook.to_string(),
        hook_code: None,
    }
}

#[test]
fn hotkeys_parse_and_print() {
    let spec = HotkeySpec::parse(" ctrl + Shift+a ").unwrap();
    assert_eq!(spec, HotkeySpec::new(true, true, false, false, VK_A));
    assert_eq!(spec.to_text(), "Ctrl+Shift+A");
    assert_eq!(HotkeySpec::parse("Control+Windows+Up").unwrap().to_text(), "Ctrl+Win+Up");
    assert_eq!(HotkeySpec::parse("   "), Err(HotkeyParseError::Empty));
    assert_eq!(HotkeySpec::parse("Ctrl+Shift"), Err(HotkeyParseError::MissingKey));
    assert_eq!(
        HotkeySpec::parse("Ctrl+Hyper"),
        Err(HotkeyParseError::UnknownKey("Hyper".to_string()))
    );
    assert_eq!(HotkeySpec::parse("Alt++F5").unwrap().to_text(), "Alt+F5");
}

#[test]
fn display_and_parse_round_trip() {
    for spec in [
        HotkeySpec::new(true, false, true, true, VK_DOWN),
        HotkeySpec::new(false, false, false, false, 0xBB),
        HotkeySpec::new(false, true, false, false, VK_C),
    ] {
        assert_eq!(HotkeySpec::parse(&spec.to_text()), Ok(spec));
    }
}

#[test]
fn hotkey_modifiers_and_validity() {
    let all = HotkeySpec::new(true, true, true, true, VK_UP);
    assert_eq!(all.modifiers(), MOD_CONTROL | MOD_SHIFT | MOD_ALT | MOD_WIN);
    assert!(all.is_valid());
    assert!(!HotkeySpec::new(true, false, false, false, 0x07).is_valid());
    assert_eq!(HotkeySpec::new(false, false, false, false, 0x07).to_text(), "?");
    assert_eq!(key_name_from_vk(0x70), Some("F1".to_string()));
    assert_eq!(vk_from_key_name(&"space".chars().collect()), Some(0x20));
    assert_eq!(vk_from_key_name(&"nothing".chars().collect()), None);
}

#[test]
fn hotkey_slots_and_conflicts() {
    let mut c = HotkeyConfig::default();
    assert_eq!(c.get(HotkeySlot::ClipboardWatch), HotkeySpec::new(true, true, false, false, VK_C));
    assert_eq!(c.find_conflict(), None);
    c.set(HotkeySlot::TextSizeDown, c.get(HotkeySlot::ToggleWindow));
    assert_eq!(c.find_conflict(), Some((HotkeySlot::ToggleWindow, HotkeySlot::TextSizeDown)));
    let entries = c.entries();
    assert_eq!(entries[3].0, HotkeySlot::ClipboardWatch);
    assert_eq!(HotkeySlot::TextSizeUp.label(), "텍스트 크기 증가");
}

#[test]
fn backlog_renders_by_filter() {
    let mut store = BacklogStore::new();
    let mut entry = LogEntry::new("原文".to_string()).with_translation("번역".to_string());
    entry.name = Some("アリス".to_string());
    store.push(entry);
    let all = store.render(BacklogFilter::All, true);
    let texts: Vec<&str> = all.iter().map(|s| s.text.as_str()).collect();
    assert_eq!(texts, vec!["[アリス] ", "原文", "\r\n", "번역", "\r\n", "\r\n"]);
    assert_eq!(all[0].kind, TextKind::Name);
    let only = store.render(BacklogFilter::Translation, false);
    assert_eq!(only, vec![StyledText { text: "번역".to_string(), kind: TextKind::Translation }]);
    assert_eq!(store.export_text(), "[アリス] 原文\r\n번역\r\n\r\n");
    assert_eq!(BacklogFilter::default(), BacklogFilter::All);
}

#[test]
fn backlog_evicts_the_oldest_entries() {
    let mut store = BacklogStore::new();
    let mut evicted = false;
    for i in 0..=MAX_BACKLOG_ENTRIES {
        evicted = store.push(LogEntry::new(i.to_string()));
    }
    assert!(evicted);
    assert_eq!(store.len(), MAX_BACKLOG_ENTRIES);
    assert!(store.export_text().starts_with("1\r\n"));
    let big = "x".repeat(5 * 1024 * 1024);
    store.push(LogEntry::new(big));
    assert_eq!(store.len(), 1);
    store.clear();
    assert_eq!(store.len(), 0);
}

#[test]
fn hook_profiles_are_found_by_digest_then_name() {
    let mut h = HookConfig::default();
    h.save_profile(profile("Game.exe", None, "old"));
    h.save_profile(profile("other.exe", Some("d1"), "hashed"));
    assert_eq!(h.saved_profile("x.exe", Some("d1")).map(|p| p.hook_name.as_str()), Some("hashed"));
    assert_eq!(h.saved_profile("game.EXE", Some("zz")).map(|p| p.hook_name.as_str()), Some("old"));
    assert_eq!(h.saved_profile("GAME.exe", None).map(|p| p.hook_name.as_str()), Some("old"));
    assert!(h.saved_profile("none.exe", None).is_none());
    h.save_profile(profile("game.exe", None, "new"));
    assert_eq!(h.saved_profiles.len(), 2);
    assert_eq!(h.saved_profiles[1].hook_name, "new");
}

#[test]
fn hook_normalize_drops_invalid_profiles() {
    let mut h = HookConfig::default();
    h.merge_window_ms = 20;
    h.saved_profiles.push(profile("", None, "nameless"));
    h.saved_profiles.push(profile("", Some("d"), "hash only"));
    h.saved_profiles.push(profile("g.exe", None, &"h".repeat(129)));
    h.normalize();
    assert_eq!(h.merge_window_ms, 100);
    assert_eq!(h.saved_profiles.len(), 1);
    assert_eq!(h.saved_profiles[0].hook_name, "hash only");
}

#[test]
fn custom_api_selection() {
    let mut t = TranslationConfig::default();
    assert!(t.active_custom_api().unwrap().is_default());
    assert_eq!(t.select_custom_api(""), Ok(false));
    assert_eq!(t.select_custom_api("x"), Err(CustomApiSelectionError::NotFound("x".to_string())));
    t.custom_apis.push(api("a"));
    t.custom_apis.push(api("b"));
    assert_eq!(t.active_custom_api_index(), Ok(0));
    assert_eq!(t.select_custom_api("b"), Ok(true));
    assert_eq!(t.select_custom_api("b"), Ok(false));
    assert_eq!(t.active_custom_api_index(), Ok(1));
    assert_eq!(t.active_custom_api().unwrap().name, "b");
    t.custom_api = "gone".to_string();
    assert_eq!(t.active_custom_api_index(), Err(CustomApiSelectionError::NotFound("gone".to_string())));
    t.custom_apis.push(api("a"));
    assert_eq!(t.validate_custom_api_names(), Err(CustomApiSelectionError::DuplicateName("a".to_string())));
    t.custom_apis[0].name = "  ".to_string();
    assert_eq!(t.validate_custom_api_names(), Err(CustomApiSelectionError::EmptyName));
}

#[test]
fn deepl_keys_and_strategy() {
    let mut t = TranslationConfig::default();
    assert_eq!(t.deepl_strategy(), DeepLStrategy::Failover);
    t.deepl_strategy = "Round-Robin".to_string();
    assert_eq!(t.deepl_strategy(), DeepLStrategy::RoundRobin);
    t.deepl_api_key = "legacy".to_string();
    assert_eq!(t.deepl_effective_keys(), vec!["legacy".to_string()]);
    t.deepl_keys = vec!["".to_string(), "k1".to_string()];
    assert_eq!(t.deepl_effective_keys(), vec!["k1".to_string()]);
}

#[test]
fn legacy_indices() {
    let mut t = TranslationConfig::default();
    assert_eq!(t.engine_as_u8(), 0);
    t.engine = "DeepL".to_string();
    assert_eq!(t.engine_as_u8(), 2);
    assert_eq!(TranslationConfig::engine_from_u8(1), "google");
    assert_eq!(TranslationConfig::engine_from_u8(9), "eztrans");
    assert_eq!(TranslationConfig::lang_as_u8("ZH-TW"), 4);
    assert_eq!(TranslationConfig::lang_as_u8("jpn"), 0);
    assert_eq!(TranslationConfig::lang_from_u8(4), "zh");
    assert_eq!(t.source_lang_as_u8(), 0);
    assert_eq!(t.target_lang_as_u8(), 1);
}

#[test]
fn legacy_dat_path_becomes_the_sibling_ehnd() {
    let mut t = TranslationConfig::default();
    t.eztrans_ehnd_path = String::new();
    t.eztrans_dat_path = Some("C:\\ez\\Dat\\".to_string());
    t.migrate_legacy_ehnd_path();
    assert_eq!(t.eztrans_ehnd_path, "C:\\ez\\Ehnd");
    assert_eq!(t.eztrans_dat_path, None);
    let mut t = TranslationConfig::default();
    t.eztrans_dat_path = Some("C:\\ez\\Dat".to_string());
    t.migrate_legacy_ehnd_path();
    assert_eq!(t.eztrans_ehnd_path, "eztrans_dll/Ehnd");
    let mut t = TranslationConfig::default();
    t.eztrans_ehnd_path = " ".to_string();
    t.eztrans_dat_path = Some("D:\\dict".to_string());
    t.migrate_legacy_ehnd_path();
    assert_eq!(t.eztrans_ehnd_path, "D:\\dict");
}

#[test]
fn llm_providers_are_named() {
    for p in [
        LlmProvider::OpenAi,
        LlmProvider::Anthropic,
        LlmProvider::Gemini,
        LlmProvider::Grok,
        LlmProvider::OpenRouter,
    ] {
        assert_eq!(LlmProvider::parse_name(p.to_str()), Some(p));
    }
    assert_eq!(LlmProvider::parse_name("OpenAI"), None);
    let mut c = LlmConfig::default();
    assert_eq!(c.get_provider(), Ok(LlmProvider::OpenAi));
    c.provider = "mistral".to_string();
    assert_eq!(c.get_provider(), Err(UnknownProvider { name: "mistral".to_string() }));
}

#[test]
fn switching_provider_keeps_each_providers_settings() {
    let mut c = LlmConfig::default();
    c.model = "model-a".to_string();
    c.api_key = "sk-1".to_string();
    c.max_tokens = 2048;
    c.set_provider(LlmProvider::OpenAi);
    assert_eq!((c.provider.as_str(), c.model.as_str()), ("openai", "model-a"));
    assert!(c.provider_profiles.is_empty());

    c.set_provider(LlmProvider::Anthropic);
    assert_eq!(c.provider, "anthropic");
    assert_eq!(c.model, "");
    assert_eq!(c.api_key, "");
    assert_eq!(c.max_tokens, 1024);
    assert_eq!(c.provider_profiles.len(), 1);
    assert_eq!(c.provider_profiles[0].0, "openai");
    assert_eq!(c.provider_profiles[0].1.model, "model-a");

    c.model = "sonnet-x".to_string();
    c.set_provider(LlmProvider::OpenAi);
    assert_eq!(c.provider, "openai");
    assert_eq!(c.model, "model-a");
    assert_eq!(c.api_key, "sk-1");
    assert_eq!(c.max_tokens, 2048);
    assert_eq!(c.provider_profiles.len(), 1);
    assert_eq!(c.provider_profiles[0].0, "anthropic");
    assert_eq!(c.provider_profiles[0].1.model, "sonnet-x");
    assert_eq!(LlmProviderProfile::default().max_tokens, 1024);
}

#[test]
fn an_unknown_provider_leaves_no_saved_settings() {
    let mut c = LlmConfig::default();
    c.provider = "mistral".to_string();
    c.model = "m".to_string();
    c.set_provider(LlmProvider::Gemini);
    assert_eq!(c.provider, "gemini");
    assert_eq!(c.model, "");
    assert!(c.provider_profiles.is_empty());
}

#[test]
fn hotkeys_parse_through_from_str() {
    let spec: HotkeySpec = "Alt+Up".parse().unwrap();
    assert_eq!(spec, HotkeySpec::new(false, false, true, false, VK_UP));
    assert_eq!("Ctrl+".parse::<HotkeySpec>(), HotkeySpec::parse("Ctrl+"));
}
