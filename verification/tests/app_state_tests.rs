use anemone_core::app_state::{prune_cutoff, size_in_kb, PruneSchedule, CACHE_TTL_SECS};
use anemone_core::app_state::{
    auto_hook_name, clipboard_capture_active, clipboard_change_action, ClipboardAction,
    PAID_ENGINE_DEBOUNCE_MS, ResizeStep, listener_change_failed, window_sync, ListenerChange,
    WindowSync, TranslationCompletion,
};
use anemone_core::clipboard::ClipboardUpdate;
use anemone_core::hook_config::SavedHookProfile;
use std::collections::VecDeque;

use anemone_core::app_state::{
    advance_pause_session_counter, clipboard_capture_is_paused, correlate_translation,
    debounce_delay_ms, magnetic_action, queue_hook_text, should_watch_clipboard,
    take_queued_hook_text, waits_for_pending_translation, AppAction, AppCommand, AppModel,
    AppState, CacheKey, ClientSize, ClipboardDebounce, DialogKind, Effect, HookSessionInfo,
    MagneticAction, OverlayNotice, PendingTranslation, QueuedHookText, RestartFlag,
    TranslationEngine,
};
use anemone_core::backlog::{BacklogStore, LogEntry};
use anemone_core::config::Config;
use anemone_core::hotkey::{HotkeySlot, HotkeySpec, VK_A};

fn model() -> AppModel {
    AppModel {
        config: Config::default(),
        backlog: BacklogStore::new(),
        runtime: AppState {
            client_size: ClientSize::new(800, 200),
            resizing: false,
            pending_resize: None,
            original_text: String::new(),
            translated_text: String::new(),
            overlay_notice: None,
            pending_translation: None,
            clipboard_debounce: ClipboardDebounce::new(),
            hook_session: None,
            hook_merge_window_ms: 100,
            hook_text_queue: VecDeque::new(),
        },
    }
}

fn session() -> HookSessionInfo {
    HookSessionInfo {
        pid: 42,
        process_name: "game.exe".to_string(),
        exe_sha256: Some("abc".to_string()),
        arch_label: "x86".to_string(),
        detected_engines: Vec::new(),
    }
}

fn key() -> CacheKey {
    CacheKey {
        engine_id: "eztrans".to_string(),
        source_lang: "ja".to_string(),
        target_lang: "ko".to_string(),
        original: "原文".to_string(),
    }
}

#[test]
fn client_sizes_must_be_drawable() {
    assert_eq!(ClientSize::drawable(10, 20), Some(ClientSize { width: 10, height: 20 }));
    assert_eq!(ClientSize::drawable(0, 20), None);
    assert_eq!(ClientSize::drawable(10, -1), None);
}

#[test]
fn window_show_toggles_visibility() {
    let mut m = model();
    assert_eq!(m.update(AppAction::Command(AppCommand::WindowShow)), vec![Effect::SetWindowVisible(false)]);
    assert!(!m.config.window_visible);
    assert_eq!(m.update(AppAction::Command(AppCommand::WindowShow)), vec![Effect::SetWindowVisible(true)]);
    assert!(m.config.window_visible);
}

#[test]
fn clipboard_watch_is_ignored_while_hooking() {
    let mut m = model();
    m.runtime.hook_session = Some(session());
    assert!(m.update(AppAction::Command(AppCommand::ClipboardWatch)).is_empty());
    assert!(m.config.clipboard_watch);
    m.runtime.hook_session = None;
    assert_eq!(
        m.update(AppAction::Command(AppCommand::ClipboardWatch)),
        vec![Effect::SetClipboardWatch(false)]
    );
}

#[test]
fn commands_open_dialogs_and_close() {
    let mut m = model();
    assert_eq!(m.update(AppAction::Command(AppCommand::Settings)), vec![Effect::OpenDialog(DialogKind::Settings)]);
    assert_eq!(m.update(AppAction::Command(AppCommand::FileTrans)), vec![Effect::OpenDialog(DialogKind::FileTranslation)]);
    assert_eq!(m.update(AppAction::Command(AppCommand::HookStop)), vec![Effect::HookStop]);
    assert_eq!(m.update(AppAction::Command(AppCommand::Exit)), vec![Effect::Close]);
    assert_eq!(m.update(AppAction::Command(AppCommand::MagneticMode)), vec![Effect::SetMagnetic(true)]);
}

#[test]
fn text_size_steps_stay_within_limits() {
    let mut m = model();
    m.config.translation_style.size = 100;
    assert_eq!(m.update(AppAction::Command(AppCommand::TextSizeUp)), vec![Effect::Repaint]);
    assert_eq!(m.config.translation_style.size, 100);
    assert_eq!(m.config.name_style.size, 100);
    m.config.translation_style.size = 6;
    m.update(AppAction::Command(AppCommand::TextSizeDown));
    assert_eq!(m.config.original_style.size, 6);
    m.config.translation_style.size = 22;
    m.update(AppAction::Command(AppCommand::TextSizeUp));
    assert_eq!(m.config.name_style.size, 23);
}

#[test]
fn preview_keeps_what_the_settings_window_does_not_edit() {
    let mut m = model();
    m.config.last_update_check = 1_700_000_000;
    m.config.window_x = Some(120);
    m.config.hook.merge_window_ms = 300;
    let mut draft = Config::default();
    draft.clipboard_max_length = 500;
    draft.hotkeys.set(HotkeySlot::ToggleWindow, HotkeySpec::new(false, true, true, false, VK_A));
    let effects = m.update(AppAction::PreviewSettings(draft));
    assert_eq!(effects, vec![Effect::SyncWindowState, Effect::Repaint]);
    assert_eq!(m.config.clipboard_max_length, 500);
    assert_eq!(m.config.last_update_check, 1_700_000_000);
    assert_eq!(m.config.window_x, Some(120));
    assert_eq!(m.config.hook.merge_window_ms, 300);
    assert_eq!(m.config.hotkeys, Config::default().hotkeys);
}

#[test]
fn commit_after_preview_still_registers_changed_hotkeys() {
    let mut m = model();
    let mut draft = Config::default();
    draft.hotkeys.set(HotkeySlot::ToggleWindow, HotkeySpec::new(false, true, true, false, VK_A));
    m.update(AppAction::PreviewSettings(draft.clone()));
    let effects = m.update(AppAction::CommitSettings(draft.clone()));
    assert_eq!(
        effects,
        vec![Effect::SyncWindowState, Effect::Repaint, Effect::SaveConfig, Effect::ReregisterHotkeys]
    );
    assert_eq!(m.config.hotkeys, draft.hotkeys);
    let again = m.update(AppAction::CommitSettings(draft));
    assert_eq!(again, vec![Effect::SyncWindowState, Effect::Repaint, Effect::SaveConfig]);
}

#[test]
fn hook_profile_needs_a_session() {
    let mut m = model();
    let none = m.update(AppAction::SaveHookProfile { hook_name: "H".to_string(), hook_code: None });
    assert!(none.is_empty());
    assert!(m.config.hook.saved_profiles.is_empty());
    m.runtime.hook_session = Some(session());
    let saved = m.update(AppAction::SaveHookProfile {
        hook_name: "H".to_string(),
        hook_code: Some("/HS@0".to_string()),
    });
    assert_eq!(saved, vec![Effect::SaveConfig]);
    assert_eq!(m.config.hook.saved_profiles.len(), 1);
    assert_eq!(m.config.hook.saved_profiles[0].process_name, "game.exe");
    assert_eq!(m.config.hook.saved_profiles[0].exe_sha256.as_deref(), Some("abc"));
}

#[test]
fn merge_window_is_clamped_and_saved_once() {
    let mut m = model();
    assert_eq!(m.update(AppAction::SetHookMergeWindow(9_000)), vec![Effect::SaveConfig]);
    assert_eq!(m.config.hook.merge_window_ms, 5_000);
    assert_eq!(m.runtime.hook_merge_window_ms, 5_000);
    assert!(m.update(AppAction::SetHookMergeWindow(6_000)).is_empty());
    assert_eq!(m.update(AppAction::SetHookMergeWindow(1)), vec![Effect::SaveConfig]);
    assert_eq!(m.config.hook.merge_window_ms, 100);
}

#[test]
fn update_check_time_is_kept_on_failure() {
    let mut m = model();
    assert!(m.update(AppAction::UpdateCheckSettled(None)).is_empty());
    assert_eq!(m.config.last_update_check, 0);
    assert_eq!(m.update(AppAction::UpdateCheckSettled(Some(99))), vec![Effect::SaveConfig]);
    assert_eq!(m.config.last_update_check, 99);
}

#[test]
fn passthrough_actions() {
    let mut m = model();
    assert_eq!(m.update(AppAction::ClearTranslationCache), vec![Effect::ClearTranslationCache]);
    assert_eq!(m.update(AppAction::TranslateDialogClosed(5)), vec![Effect::TranslateDialogClosed(5)]);
    assert_eq!(m.update(AppAction::FileTransDialogClosed(6)), vec![Effect::FileTransDialogClosed(6)]);
    assert_eq!(m.update(AppAction::SettingsDialogClosed), vec![Effect::SettingsDialogClosed]);
    assert_eq!(m.update(AppAction::RequestUpdateCheck), vec![Effect::RequestUpdateCheck]);
    assert_eq!(m.update(AppAction::RequestUpdateApply), vec![Effect::RequestUpdateApply]);
}

#[test]
fn clear_backlog_empties_it() {
    let mut m = model();
    m.backlog.push(LogEntry::new("a".to_string()));
    assert_eq!(m.backlog.len(), 1);
    assert!(m.update(AppAction::ClearBacklog).is_empty());
    assert_eq!(m.backlog.len(), 0);
}

#[test]
fn hooked_sentences_wait_only_for_a_young_request() {
    assert!(!waits_for_pending_translation(None));
    assert!(waits_for_pending_translation(Some(29_999)));
    assert!(!waits_for_pending_translation(Some(30_000)));
}

#[test]
fn answers_are_matched_to_the_pending_request() {
    let mut pending = Some(PendingTranslation::new(7, "原文".to_string(), key(), 1_000));
    assert!(correlate_translation::<String, String>(&mut pending, 6, Ok("x".to_string())).is_none());
    assert!(pending.is_some());
    let done = correlate_translation::<String, String>(&mut pending, 7, Ok("번역".to_string())).unwrap();
    assert_eq!(done.original, "原文");
    assert_eq!(done.cache_key, key());
    assert_eq!(done.result, Ok("번역".to_string()));
    assert!(pending.is_none());
    assert!(correlate_translation::<String, String>(&mut pending, 7, Err("e".to_string())).is_none());
}

#[test]
fn pending_age_never_goes_negative() {
    let p = PendingTranslation::new(1, String::new(), key(), 5_000);
    assert_eq!(p.age_ms(7_500), 2_500);
    assert_eq!(p.age_ms(4_000), 0);
}

#[test]
fn clipboard_policies() {
    assert!(should_watch_clipboard(true, false));
    assert!(!should_watch_clipboard(true, true));
    assert!(!clipboard_capture_is_paused(false, false, false, false, false, false));
    assert!(clipboard_capture_is_paused(false, false, false, false, false, true));
    assert_eq!(magnetic_action(true, false), MagneticAction::Start);
    assert_eq!(magnetic_action(false, true), MagneticAction::Stop);
    assert_eq!(magnetic_action(true, true), MagneticAction::Noop);
}

#[test]
fn pause_sessions_skip_zero() {
    assert_eq!(advance_pause_session_counter(5), (5, 6));
    assert_eq!(advance_pause_session_counter(u64::MAX), (u64::MAX, 1));
}

#[test]
fn debounce_depends_on_the_engine() {
    assert_eq!(debounce_delay_ms(TranslationEngine::Llm, 700), 700);
    assert_eq!(debounce_delay_ms(TranslationEngine::EzTrans, 700), 0);
    assert_eq!(debounce_delay_ms(TranslationEngine::DeepL, 700), 150);
    assert_eq!(debounce_delay_ms(TranslationEngine::Custom, 0), 150);
}

#[test]
fn hook_queue_drops_the_oldest_beyond_eight() {
    let mut q = VecDeque::new();
    for i in 0..8 {
        assert!(queue_hook_text(&mut q, QueuedHookText { text: i.to_string(), full_string: true }).is_none());
    }
    let dropped = queue_hook_text(&mut q, QueuedHookText { text: "8".to_string(), full_string: true });
    assert_eq!(dropped.map(|d| d.text), Some("0".to_string()));
    assert_eq!(q.len(), 8);
}

#[test]
fn queued_pieces_join_by_kind() {
    let mut q = VecDeque::new();
    q.push_back(QueuedHookText { text: "ふ".to_string(), full_string: false });
    q.push_back(QueuedHookText { text: "ふ".to_string(), full_string: false });
    q.push_back(QueuedHookText { text: "次".to_string(), full_string: true });
    assert_eq!(take_queued_hook_text(&mut q), Some("ふふ\n次".to_string()));
    assert!(q.is_empty());
    assert_eq!(take_queued_hook_text(&mut q), None);
    q.push_back(QueuedHookText { text: "一".to_string(), full_string: true });
    assert_eq!(take_queued_hook_text(&mut q), Some("一".to_string()));
}

#[test]
fn debounce_slot_holds_the_latest_text() {
    let mut d = ClipboardDebounce::new();
    d.submit("a".to_string());
    d.submit("b".to_string());
    assert_eq!(d.take(), Some("b".to_string()));
    assert_eq!(d.take(), None);
    d.submit("c".to_string());
    d.clear();
    assert_eq!(d.take(), None);
}

#[test]
fn overlay_notices_have_texts() {
    assert_eq!(OverlayNotice::SelectMagneticTarget.text(), "따라다닐 창을 선택해주세요.");
    assert_eq!(OverlayNotice::MagneticTargetAttached.text(), "해당 창을 따라다닐게요! >.<");
}

#[test]
fn restart_request_is_taken_once() {
    let mut flag = RestartFlag::new();
    assert!(!flag.take_restart_requested());
    flag.request();
    assert!(flag.take_restart_requested());
    assert!(!flag.take_restart_requested());
}

#[test]
fn cache_prunes_every_hundred_puts() {
    let mut s = PruneSchedule::new();
    for _ in 0..99 {
        assert!(!s.record_put());
    }
    assert!(s.record_put());
    assert!(!s.record_put());
    s.reset();
    for _ in 0..99 {
        assert!(!s.record_put());
    }
    assert!(s.record_put());
    assert_eq!(prune_cutoff(CACHE_TTL_SECS + 5), 5);
}

#[test]
fn clipboard_changes_are_handled_only_while_capturing() {
    assert!(clipboard_capture_active(true, true, false));
    assert!(!clipboard_capture_active(true, true, true));
    assert!(!clipboard_capture_active(true, false, false));
    assert!(!clipboard_capture_active(false, true, false));
}

#[test]
fn clipboard_change_actions() {
    let t = |s: &str| ClipboardUpdate::<()>::Text(s.to_string());
    assert_eq!(
        clipboard_change_action(t("こんにちは"), 3, false, Some(TranslationEngine::Llm), 400),
        ClipboardAction::Ignore
    );
    assert_eq!(
        clipboard_change_action(t("こんにちは"), 0, true, Some(TranslationEngine::Llm), 400),
        ClipboardAction::ShowUntranslated("こんにちは".to_string())
    );
    assert_eq!(
        clipboard_change_action(t("abc"), 3, false, Some(TranslationEngine::Llm), 400),
        ClipboardAction::Translate { text: "abc".to_string(), delay_ms: 400 }
    );
    assert_eq!(
        clipboard_change_action(t("abc"), 0, false, Some(TranslationEngine::DeepL), 400),
        ClipboardAction::Translate { text: "abc".to_string(), delay_ms: PAID_ENGINE_DEBOUNCE_MS }
    );
    assert_eq!(
        clipboard_change_action(t("abc"), 0, false, None, 400),
        ClipboardAction::Translate { text: "abc".to_string(), delay_ms: 0 }
    );
    assert_eq!(
        clipboard_change_action(ClipboardUpdate::Retry(()), 0, false, None, 400),
        ClipboardAction::RetryLater
    );
    assert_eq!(
        clipboard_change_action(ClipboardUpdate::<()>::TooLong, 0, false, None, 400),
        ClipboardAction::Ignore
    );
    assert_eq!(
        clipboard_change_action(ClipboardUpdate::Failed(()), 0, false, None, 400),
        ClipboardAction::Ignore
    );
    assert_eq!(
        clipboard_change_action(ClipboardUpdate::<()>::Unchanged, 0, false, None, 400),
        ClipboardAction::Ignore
    );
}

#[test]
fn code_hooks_are_named_user_ui() {
    let mut p = SavedHookProfile {
        process_name: "game.exe".to_string(),
        exe_sha256: None,
        hook_name: "Engine:GetGlyph".to_string(),
        hook_code: None,
    };
    assert_eq!(auto_hook_name(&p), "Engine:GetGlyph");
    p.hook_code = Some("HS8@0:game.exe".to_string());
    assert_eq!(auto_hook_name(&p), "UserUI");
}

#[test]
fn detected_engines_are_noted_once() {
    let mut s = session();
    s.note_detected_engine("KiriKiri".to_string());
    s.note_detected_engine("kirikiri".to_string());
    s.note_detected_engine("RenPy".to_string());
    assert_eq!(s.detected_engines, vec!["KiriKiri".to_string(), "RenPy".to_string()]);
    assert_eq!(s.pid, 42);
}

#[test]
fn attaching_a_hook_session_recalls_the_saved_profile() {
    let mut m = model();
    let saved = SavedHookProfile {
        process_name: "game.exe".to_string(),
        exe_sha256: None,
        hook_name: "H1".to_string(),
        hook_code: None,
    };
    m.config.hook.saved_profiles.push(saved.clone());
    let r = m.attach_hook_session(7, "x86".to_string(), "game.exe".to_string(), None);
    assert_eq!(r, Some(saved));
    assert!(m.config.hook.enabled);
    assert_eq!(m.config.hook.last_target_pid, 7);
    assert_eq!(m.config.hook.last_target_name, "game.exe");
    let s = m.runtime.hook_session.as_ref().unwrap();
    assert_eq!((s.pid, s.arch_label.as_str()), (7, "x86"));
    let none = m.attach_hook_session(8, "x64".to_string(), "other.exe".to_string(), None);
    assert_eq!(none, None);
    m.runtime.hook_text_queue.push_back(QueuedHookText { text: "a".to_string(), full_string: true });
    m.detach_hook_session();
    assert!(m.runtime.hook_session.is_none());
    assert!(m.runtime.hook_text_queue.is_empty());
}

#[test]
fn hooked_text_is_queued_and_sent_when_no_request_waits() {
    let mut m = model();
    assert_eq!(m.queue_hooked_text("あ".to_string(), true), None);
    assert!(m.runtime.hook_text_queue.is_empty());
    m.config.hook.enabled = true;
    m.config.hook.max_text_length = 2;
    assert_eq!(m.queue_hooked_text("長すぎる".to_string(), true), None);
    assert!(m.runtime.hook_text_queue.is_empty());
    assert_eq!(m.queue_hooked_text("あい".to_string(), true), None);
    assert_eq!(m.queue_hooked_text("う".to_string(), true), None);
    assert_eq!(m.next_hook_request(Some(10)), None);
    assert_eq!(m.runtime.hook_text_queue.len(), 2);
    assert_eq!(m.next_hook_request(Some(30_000)), Some("あい\nう".to_string()));
    assert!(m.runtime.hook_text_queue.is_empty());
    assert_eq!(m.next_hook_request(None), None);
}

#[test]
fn sizes_wait_for_the_end_of_an_interactive_resize() {
    let mut m = model();
    let r = &mut m.runtime;
    assert_eq!(r.request_resize(0, 300), ResizeStep::Ignore);
    assert_eq!(r.request_resize(800, 200), ResizeStep::Ignore);
    assert_eq!(r.request_resize(640, 200), ResizeStep::Apply);
    assert_eq!(r.client_size, ClientSize::new(640, 200));
    r.begin_size_move();
    assert_eq!(r.request_resize(700, 300), ResizeStep::Deferred);
    assert_eq!(r.request_resize(720, 310), ResizeStep::Deferred);
    assert_eq!(r.client_size, ClientSize::new(640, 200));
    let waiting = r.end_size_move();
    assert_eq!(waiting, Some(ClientSize::new(720, 310)));
    assert!(!r.resizing);
    assert_eq!(r.request_resize(720, 310), ResizeStep::Apply);
    assert_eq!(r.client_size, ClientSize::new(720, 310));
    assert_eq!(r.end_size_move(), None);
}

#[test]
fn window_state_follows_the_settings() {
    let mut c = Config::default();
    c.window_visible = false;
    c.clipboard_watch = true;
    let w = window_sync(&c, true, false, false);
    assert_eq!(
        w,
        WindowSync {
            click_through: c.click_through,
            topmost: c.window_topmost,
            visible: true,
            listener: ListenerChange::Start,
        }
    );
    assert_eq!(window_sync(&c, false, true, true).listener, ListenerChange::Stop);
    assert_eq!(window_sync(&c, false, false, true).listener, ListenerChange::Keep);
    assert!(!window_sync(&c, false, false, true).visible);
    listener_change_failed(&mut c, ListenerChange::Start);
    assert!(!c.clipboard_watch);
    listener_change_failed(&mut c, ListenerChange::Stop);
    assert!(c.clipboard_watch);
    listener_change_failed(&mut c, ListenerChange::Keep);
    assert!(c.clipboard_watch);
}

#[test]
fn translation_results_are_shown_and_logged() {
    let mut m = model();
    m.config.clipboard_cache_enabled = true;
    m.translation_requested(PendingTranslation::new(3, "原文".to_string(), key(), 1_000));
    assert_eq!(m.runtime.original_text, "原文");
    assert_eq!(m.runtime.translated_text, "[번역 중...]");
    assert_eq!(m.runtime.pending_translation.as_ref().map(|p| p.req_id), Some(3));

    let done = TranslationCompletion::<String, ()> {
        original: "原文".to_string(),
        cache_key: key(),
        result: Ok("원문".to_string()),
    };
    let (evicted, cached) = m.complete_translation(done);
    assert!(!evicted);
    assert_eq!(cached, Some((key(), "원문".to_string())));
    assert_eq!(m.runtime.translated_text, "원문");
    assert!(m.runtime.pending_translation.is_none());
    assert_eq!(m.backlog.export_text(), "原文\r\n원문\r\n\r\n");

    let failed = TranslationCompletion::<String, ()> {
        original: "二".to_string(),
        cache_key: key(),
        result: Err(()),
    };
    assert_eq!(m.complete_translation(failed).1, None);
    assert_eq!(m.runtime.original_text, "二");
    assert_eq!(m.runtime.translated_text, "");
    assert_eq!(m.backlog.len(), 2);

    m.config.clipboard_cache_enabled = false;
    let uncached = TranslationCompletion::<String, ()> {
        original: "三".to_string(),
        cache_key: key(),
        result: Ok("셋".to_string()),
    };
    assert_eq!(m.complete_translation(uncached).1, None);

    m.show_capture("https://example.com".to_string(), None);
    assert_eq!(m.runtime.original_text, "https://example.com");
    assert_eq!(m.runtime.translated_text, "");
    assert_eq!(m.backlog.len(), 4);
}

#[test]
fn small_downloads_are_shown_in_whole_kilobytes() {
    assert_eq!(size_in_kb(0), 0);
    assert_eq!(size_in_kb(1), 1);
    assert_eq!(size_in_kb(1024), 1);
    assert_eq!(size_in_kb(1025), 2);
    assert_eq!(size_in_kb(1_048_575), 1024);
}
