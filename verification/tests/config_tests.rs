use anemone_core::config::{is_bundled_eztrans_path, quarantine_file_name, Config, ConfigDecodeError, ScreenshotConfig, CURRENT_SCHEMA_VERSION};
use anemone_core::limits;
use anemone_core::text_style::{ColorType, TextAlign, TextStyle, TextType};
use anemone_core::translation_config::CustomApiConfig;

#[test]
fn defaults_match_the_documented_settings() {
    let c = Config::default();
    assert_eq!(c.schema_version, CURRENT_SCHEMA_VERSION);
    assert!(c.window_visible && c.window_topmost && !c.click_through);
    assert_eq!(c.clipboard_max_length, 300);
    assert_eq!(c.background_color, 0xC828_2828);
    assert_eq!(c.border_width, 2);
    assert_eq!(c.border_color, 0x80AA_AAAA);
    assert_eq!(c.text_align, TextAlign::Left);
    assert_eq!(c.name_style.font_face, "맑은 고딕");
    assert_eq!(c.translation_style.size, 22);
    assert_eq!((c.text_margin_x, c.text_margin_y, c.name_margin), (10, 10, 5));
    assert_eq!(c.window_x, None);
    assert_eq!(c.last_update_check, 0);
}

#[test]
fn normalize_clamps_every_integer_setting() {
    let mut c = Config::default();
    c.border_width = 99;
    c.text_margin_x = -5;
    c.name_margin = 1000;
    c.shadow_offset_y = 21;
    c.translation_style.size = 1;
    c.name_style.outline1_size = -1;
    c.original_style.font_style = 0xFF;
    c.translation.eztrans_process_count = 999_999;
    c.translation.llm.max_tokens = 999_999;
    c.translation.llm.debounce_ms = 999_999;
    c.normalize();
    assert_eq!(c.border_width, limits::BORDER_WIDTH_MAX);
    assert_eq!(c.text_margin_x, 0);
    assert_eq!(c.name_margin, 300);
    assert_eq!(c.shadow_offset_y, 20);
    assert_eq!(c.translation_style.size, 6);
    assert_eq!(c.name_style.outline1_size, 0);
    assert_eq!(c.original_style.font_style, 3);
    assert_eq!(c.translation.eztrans_process_count, 16);
    assert_eq!(c.translation.llm.max_tokens, 32_000);
    assert_eq!(c.translation.llm.debounce_ms, 10_000);
}

#[test]
fn normalize_is_idempotent_and_keeps_valid_settings() {
    let mut c = Config::default();
    let before = c.clone();
    c.normalize();
    assert_eq!(c, before);
    c.border_width = -40;
    c.normalize();
    let once = c.clone();
    c.normalize();
    assert_eq!(c, once);
}

#[test]
fn newer_schema_is_refused() {
    let mut c = Config::default();
    c.schema_version = 7;
    assert_eq!(
        c.migrate(),
        Err(ConfigDecodeError::UnsupportedSchema { found: 7, supported: 1 })
    );
    assert_eq!(c.schema_version, 7);
}

#[test]
fn v0_settings_move_the_legacy_custom_api() {
    let mut c = Config::default();
    c.schema_version = 0;
    c.translation.custom.name = "mine".to_string();
    c.translation.custom.url = "https://example.invalid/t".to_string();
    assert_eq!(c.migrate(), Ok(()));
    assert_eq!(c.schema_version, 1);
    assert_eq!(c.translation.custom_apis.len(), 1);
    assert_eq!(c.translation.custom_apis[0].name, "mine");
    assert_eq!(c.translation.custom_api, "mine");
    assert!(c.translation.custom.is_default());
}

#[test]
fn current_schema_migrates_to_itself() {
    let mut c = Config::default();
    let before = c.clone();
    assert_eq!(c.migrate(), Ok(()));
    assert_eq!(c, before);
}

#[test]
fn toggles_flip_one_flag() {
    let mut c = Config::default();
    c.toggle_window_visible();
    assert!(!c.window_visible);
    c.toggle_click_through();
    assert!(c.click_through);
    c.toggle_clipboard_watch();
    assert!(!c.clipboard_watch);
    c.toggle_background_visible();
    assert!(!c.background_visible);
    c.toggle_border_visible();
    assert!(!c.border_visible);
    c.toggle_magnetic_mode();
    assert!(c.magnetic_mode);
    c.toggle_shadow(TextType::Name);
    assert!(!c.name_style.shadow_enabled);
    assert!(c.translation_style.shadow_enabled);
}

#[test]
fn text_colors_and_sizes_are_addressed_by_kind() {
    let mut c = Config::default();
    c.set_text_color(TextType::Original, ColorType::Outline2, 0x1234_5678);
    assert_eq!(c.get_text_color(TextType::Original, ColorType::Outline2), 0x1234_5678);
    assert_eq!(c.get_text_color(TextType::Name, ColorType::Outline2), 0xFF40_4040);
    c.set_text_size(TextType::Translation, ColorType::Outline1, 7);
    assert_eq!(c.get_text_size(TextType::Translation, ColorType::Outline1), 7);
    c.set_text_size(TextType::Translation, ColorType::Shadow, 9);
    assert_eq!(c.get_text_size(TextType::Translation, ColorType::Shadow), 0);
    c.set_all_text_size(ColorType::Primary, 30);
    assert_eq!(c.name_style.size, 30);
    assert_eq!(c.original_style.size, 30);
    assert_eq!(c.get_text_style(TextType::Translation).size, 30);
    c.get_text_style_mut(TextType::Name).font_face = "Noto".to_string();
    assert_eq!(c.name_style.font_face, "Noto");
}

#[test]
fn text_style_defaults_and_slots() {
    let mut s = TextStyle::default();
    assert_eq!(s.get_color(ColorType::Primary), 0xFFFF_FFFF);
    assert_eq!(s.get_color(ColorType::Shadow), 0x8000_0000);
    assert_eq!(s.get_size(ColorType::Outline2), 4);
    s.set_color(ColorType::Outline1, 1);
    assert_eq!(s.color_outline1, 1);
    s.set_size(ColorType::Shadow, 50);
    assert_eq!(s, {
        let mut t = TextStyle::default();
        t.color_outline1 = 1;
        t
    });
}

#[test]
fn bundled_paths_need_the_eztrans_dll_folder() {
    assert!(is_bundled_eztrans_path("C:\\apps\\anemone\\eztrans_dll\\J2KEngine.dll", "J2KEngine.dll"));
    assert!(is_bundled_eztrans_path("C:/old/EZTRANS_DLL/dat/", "Dat"));
    assert!(!is_bundled_eztrans_path("C:\\apps\\other\\Dat", "Dat"));
    assert!(!is_bundled_eztrans_path("Dat", "Dat"));
    assert!(!is_bundled_eztrans_path("eztrans_dll\\Data", "Dat"));
}

#[test]
fn screenshot_defaults() {
    let s = ScreenshotConfig::default();
    assert_eq!((s.format, s.compression, s.jpeg_quality), (0, 1, 85));
    assert!(s.path.is_empty());
}

#[test]
fn limits_clamp_into_their_ranges() {
    assert_eq!(limits::border_width(-1), 0);
    assert_eq!(limits::margin(150), 150);
    assert_eq!(limits::shadow_offset(25), 20);
    assert_eq!(limits::text_size(200), 100);
    assert_eq!(limits::outline_size(3), 3);
    assert_eq!(limits::eztrans_process_count(0), 1);
    assert_eq!(limits::eztrans_process_count_usize(100), 16);
    assert_eq!(limits::llm_max_tokens(0), 1);
    assert_eq!(limits::llm_debounce_ms(20_000), 10_000);
}

#[test]
fn custom_api_default_is_recognised() {
    let api = CustomApiConfig::default();
    assert!(api.is_default());
    let mut other = api.clone_api();
    other.url = "https://x.invalid".to_string();
    assert!(!other.is_default());
}

#[test]
fn corrupt_settings_are_set_aside_under_numbered_names() {
    assert_eq!(quarantine_file_name("config.toml", 1_700_000_000, 0), "config.toml.corrupt-1700000000");
    assert_eq!(quarantine_file_name("config.toml", 1_700_000_000, 12), "config.toml.corrupt-1700000000-12");
    assert_eq!(quarantine_file_name("a", 0, 0), "a.corrupt-0");
}
