//! The application model without window handles or services: the settings,
//! the backlog and the runtime state, changed only by [`AppModel::update`],
//! which hands the window and I/O work back as [`Effect`]s. Also the small
//! policies the event handlers consult.
use crate::backlog::{retained, BacklogStore, LogEntry};
use crate::config::Config;
use crate::hook_config::{
    opt_view, save_spec, ProfileView, SavedHookProfile, MAX_MERGE_WINDOW_MS, MIN_MERGE_WINDOW_MS,
};
use crate::limits::clamp_spec;
use crate::text::owned;
use crate::text_style::TextStyle;
use std::collections::VecDeque;
use vstd::prelude::*;

verus! {

/// Size of the overlay's client area in pixels.
#[derive(Debug, Clone, Copy, PartialEq, Eq, Structural)]
pub struct ClientSize {
    pub width: i32,
    pub height: i32,
}

impl ClientSize {
    pub fn new(width: i32, height: i32) -> (r: Self)
        ensures
            r == (ClientSize { width, height }),
    {
        ClientSize { width, height }
    }

    /// A size a swap chain can take: both sides positive. Minimised and
    /// malformed sizes give none.
    pub fn drawable(width: i32, height: i32) -> (r: Option<Self>)
        ensures
            r == if width > 0 && height > 0 {
                Some(ClientSize { width, height })
            } else {
                None::<ClientSize>
            },
    {
        if width > 0 && height > 0 {
            Some(ClientSize { width, height })
        } else {
            None
        }
    }
}

/// What identifies a cached translation.
#[derive(Debug, Clone, PartialEq, Eq)]
pub struct CacheKey {
    pub engine_id: String,
    pub source_lang: String,
    pub target_lang: String,
    pub original: String,
}

/// The request whose answer the overlay is waiting for.
#[derive(Debug)]
pub struct PendingTranslation {
    pub req_id: u64,
    pub original: String,
    pub cache_key: CacheKey,
    /// Monotonic clock reading (ms) when the request was sent; used to tell a
    /// lost answer.
    pub requested_at_ms: u64,
}

impl PendingTranslation {
    pub fn new(req_id: u64, original: String, cache_key: CacheKey, now_ms: u64) -> (r: Self)
        ensures
            r.req_id == req_id,
            r.original == original,
            r.cache_key == cache_key,
            r.requested_at_ms == now_ms,
    {
        PendingTranslation { req_id, original, cache_key, requested_at_ms: now_ms }
    }

    /// Milliseconds since the request was sent, by the clock reading `now_ms`
    /// (0 when the clock reads earlier).
    pub fn age_ms(&self, now_ms: u64) -> (r: u64)
        ensures
            r == if now_ms >= self.requested_at_ms {
                (now_ms - self.requested_at_ms) as u64
            } else {
                0
            },
    {
        if now_ms >= self.requested_at_ms {
            now_ms - self.requested_at_ms
        } else {
            0
        }
    }
}

/// One hooked sentence waiting for translation.
#[derive(Debug, Clone, PartialEq, Eq)]
pub struct QueuedHookText {
    pub text: String,
    /// Whether it came from a hook that emits whole sentences. Pieces from
    /// per-character hooks may be a sentence cut by the merge window, so they
    /// are joined without a line break.
    pub full_string: bool,
}

/// Longest wait queue for hooked sentences; the oldest is dropped beyond it.
pub const MAX_QUEUED_HOOK_TEXTS: usize = 8;

/// A request unanswered for this long (ms) counts as lost, and the next
/// hooked sentence is sent anyway.
pub const HOOK_PENDING_TIMEOUT_MS: u64 = 30_000;

/// Whether a hooked sentence must wait for the request in flight: only while
/// one is pending and younger than [`HOOK_PENDING_TIMEOUT_MS`].
pub fn waits_for_pending_translation(pending_age_ms: Option<u64>) -> (r: bool)
    ensures
        r == match pending_age_ms {
            Some(age) => age < HOOK_PENDING_TIMEOUT_MS,
            None => false,
        },
{
    match pending_age_ms {
        Some(age) => age < HOOK_PENDING_TIMEOUT_MS,
        None => false,
    }
}

/// A translation answer matched to the request that the overlay shows.
#[derive(Debug)]
pub struct TranslationCompletion<T, E> {
    pub original: String,
    pub cache_key: CacheKey,
    pub result: Result<T, E>,
}

/// Consumes the answer `req_id` only when it belongs to the pending request;
/// stale answers leave the state untouched.
pub fn correlate_translation<T, E>(
    pending: &mut Option<PendingTranslation>,
    req_id: u64,
    result: Result<T, E>,
) -> (r: Option<TranslationCompletion<T, E>>)
    ensures
        match *old(pending) {
            Some(p) => if p.req_id == req_id {
                &&& *final(pending) is None
                &&& r matches Some(c) && c.original == p.original && c.cache_key == p.cache_key
                    && c.result == result
            } else {
                *final(pending) == *old(pending) && r is None
            },
            None => *final(pending) is None && r is None,
        },
{
    let matches = match pending {
        Some(p) => p.req_id == req_id,
        None => false,
    };
    if !matches {
        return None;
    }
    match pending.take() {
        Some(request) => Some(
            TranslationCompletion {
                original: request.original,
                cache_key: request.cache_key,
                result,
            },
        ),
        None => None,
    }
}

/// Clipboard capture runs when the user enabled it and the manual
/// translation window is closed.
pub fn should_watch_clipboard(configured: bool, translate_dialog_active: bool) -> (r: bool)
    ensures
        r == (configured && !translate_dialog_active),
{
    configured && !translate_dialog_active
}

/// Clipboard capture pauses while any dialog, the context menu or an overlay
/// notice is up, and during a hooking session.
pub fn clipboard_capture_is_paused(
    translation_dialog: bool,
    file_translation_dialog: bool,
    settings_dialog: bool,
    context_menu: bool,
    overlay_notice: bool,
    hook_session: bool,
) -> (r: bool)
    ensures
        r == (translation_dialog || file_translation_dialog || settings_dialog || context_menu
            || overlay_notice || hook_session),
{
    translation_dialog || file_translation_dialog || settings_dialog || context_menu
        || overlay_notice || hook_session
}

/// What to do with the window-following mode.
#[derive(Debug, Clone, Copy, PartialEq, Eq, Structural)]
pub enum MagneticAction {
    Noop,
    Start,
    Stop,
}

/// Start following when enabled but inactive, stop when disabled but active.
pub fn magnetic_action(enabled: bool, active: bool) -> (r: MagneticAction)
    ensures
        r == if enabled && !active {
            MagneticAction::Start
        } else if !enabled && active {
            MagneticAction::Stop
        } else {
            MagneticAction::Noop
        },
{
    match (enabled, active) {
        (true, false) => MagneticAction::Start,
        (false, true) => MagneticAction::Stop,
        _ => MagneticAction::Noop,
    }
}

/// Hands out a clipboard pause session id and computes the next one. 0 means
/// "no session" and is never handed out: the counter skips it when it wraps.
pub fn advance_pause_session_counter(current: u64) -> (r: (u64, u64))
    ensures
        r.0 == current,
        r.1 == if current == u64::MAX {
            1
        } else {
            (current + 1) as u64
        },
        r.1 != 0,
{
    let issued = current;
    let next = if current == u64::MAX {
        1
    } else {
        current + 1
    };
    (issued, next)
}

/// Translation engines, as far as scheduling tells them apart.
#[derive(Debug, Clone, Copy, PartialEq, Eq, Structural)]
pub enum TranslationEngine {
    EzTrans,
    Google,
    DeepL,
    Papago,
    Llm,
    MysTranslater,
    Custom,
}

/// Coalescing delay (ms) for the remote engines that cost money or traffic.
pub const PAID_ENGINE_DEBOUNCE_MS: u32 = 150;

/// Clipboard debounce: the LLM follows its setting, the local EzTrans sends
/// at once, every other (remote) engine waits [`PAID_ENGINE_DEBOUNCE_MS`].
pub fn debounce_delay_ms(engine: TranslationEngine, configured_ms: u32) -> (r: u32)
    ensures
        r == match engine {
            TranslationEngine::Llm => configured_ms,
            TranslationEngine::EzTrans => 0,
            _ => PAID_ENGINE_DEBOUNCE_MS,
        },
{
    match engine {
        TranslationEngine::Llm => configured_ms,
        TranslationEngine::Google | TranslationEngine::DeepL | TranslationEngine::Papago
        | TranslationEngine::MysTranslater | TranslationEngine::Custom => PAID_ENGINE_DEBOUNCE_MS,
        TranslationEngine::EzTrans => 0,
    }
}

/// User commands from the menu, the tray and the hotkeys.
#[derive(Debug, Clone, Copy, PartialEq, Eq, Structural)]
pub enum AppCommand {
    WindowShow,
    ClickThrough,
    ClipboardWatch,
    BackgroundToggle,
    BorderToggle,
    MagneticMode,
    Settings,
    Translate,
    Backlog,
    FileTrans,
    TextSizeUp,
    TextSizeDown,
    /// The combined hook target and hook management window.
    HookFind,
    /// Ends the current hooking session.
    HookStop,
    Exit,
}

/// Display information of the active hooking session.
#[derive(Debug, Clone)]
pub struct HookSessionInfo {
    pub pid: u32,
    pub process_name: String,
    pub exe_sha256: Option<String>,
    pub arch_label: String,
    pub detected_engines: Vec<String>,
}

/// A notice shown on the overlay in place of the text.
#[derive(Debug, Clone, Copy, PartialEq, Eq, Structural)]
pub enum OverlayNotice {
    SelectMagneticTarget,
    MagneticTargetAttached,
}

impl OverlayNotice {
    pub fn text(self) -> (r: String)
        ensures
            r@ == match self {
                OverlayNotice::SelectMagneticTarget => "따라다닐 창을 선택해주세요."@,
                OverlayNotice::MagneticTargetAttached => "해당 창을 따라다닐게요! >.<"@,
            },
    {
        match self {
            OverlayNotice::SelectMagneticTarget => owned("따라다닐 창을 선택해주세요."),
            OverlayNotice::MagneticTargetAttached => owned("해당 창을 따라다닐게요! >.<"),
        }
    }
}

/// The clipboard text waiting for its debounce timer.
#[derive(Debug, Default)]
pub struct ClipboardDebounce {
    pending: Option<String>,
}

impl ClipboardDebounce {
    pub closed spec fn pending_spec(&self) -> Option<String> {
        self.pending
    }

    pub fn new() -> (r: Self)
        ensures
            r.pending_spec() is None,
    {
        ClipboardDebounce { pending: None }
    }

    /// Replaces whatever waited with `text`.
    pub fn submit(&mut self, text: String)
        ensures
            final(self).pending_spec() == Some(text),
    {
        self.pending = Some(text);
    }

    /// Hands out the waiting text, leaving nothing behind.
    pub fn take(&mut self) -> (r: Option<String>)
        ensures
            r == old(self).pending_spec(),
            final(self).pending_spec() is None,
    {
        self.pending.take()
    }

    pub fn clear(&mut self)
        ensures
            final(self).pending_spec() is None,
    {
        self.pending = None;
    }
}

/// The runtime state of the overlay.
pub struct AppState {
    pub client_size: ClientSize,
    /// True during an interactive move or resize; buffer rebuilds wait for its end.
    pub resizing: bool,
    /// The size to apply once the interactive resize ends.
    pub pending_resize: Option<ClientSize>,
    pub original_text: String,
    pub translated_text: String,
    pub overlay_notice: Option<OverlayNotice>,
    pub pending_translation: Option<PendingTranslation>,
    pub clipboard_debounce: ClipboardDebounce,
    /// The game being hooked, if any.
    pub hook_session: Option<HookSessionInfo>,
    /// The merge window (ms) handed to the hooked-text merger.
    pub hook_merge_window_ms: u64,
    /// Hooked sentences waiting for the previous translation.
    pub hook_text_queue: VecDeque<QueuedHookText>,
}

/// What the clipboard listener must do to match the settings.
#[derive(Debug, Clone, Copy, PartialEq, Eq, Structural)]
pub enum ListenerChange {
    Start,
    Stop,
    Keep,
}

/// The window state the settings ask for.
#[derive(Debug, Clone, Copy, PartialEq, Eq, Structural)]
pub struct WindowSync {
    pub click_through: bool,
    pub topmost: bool,
    pub visible: bool,
    pub listener: ListenerChange,
}

/// The window state for `config`: the window shows when configured visible or
/// while an overlay notice is up, and the listener runs while watching is on
/// and capture is not paused.
pub fn window_sync(config: &Config, notice_shown: bool, capture_paused: bool, listening: bool) -> (r:
    WindowSync)
    ensures
        r.click_through == config.click_through,
        r.topmost == config.window_topmost,
        r.visible == (config.window_visible || notice_shown),
        r.listener == {
            let watch = config.clipboard_watch && !capture_paused;
            if watch && !listening {
                ListenerChange::Start
            } else if !watch && listening {
                ListenerChange::Stop
            } else {
                ListenerChange::Keep
            }
        },
{
    let watch = should_watch_clipboard(config.clipboard_watch, capture_paused);
    let listener = if watch && !listening {
        ListenerChange::Start
    } else if !watch && listening {
        ListenerChange::Stop
    } else {
        ListenerChange::Keep
    };
    WindowSync {
        click_through: config.click_through,
        topmost: config.window_topmost,
        visible: config.window_visible || notice_shown,
        listener,
    }
}

/// After a listener change failed, the setting follows the listener: a
/// failed start turns watching off, a failed stop leaves it on.
pub fn listener_change_failed(config: &mut Config, change: ListenerChange)
    ensures
        change == ListenerChange::Start ==> *final(config) == (Config {
            clipboard_watch: false,
            ..*old(config)
        }),
        change == ListenerChange::Stop ==> *final(config) == (Config {
            clipboard_watch: true,
            ..*old(config)
        }),
        change == ListenerChange::Keep ==> *final(config) == *old(config),
{
    match change {
        ListenerChange::Start => {
            config.clipboard_watch = false;
        },
        ListenerChange::Stop => {
            config.clipboard_watch = true;
        },
        ListenerChange::Keep => {},
    }
}

/// What a new client size asks of the renderer.
#[derive(Debug, Clone, Copy, PartialEq, Eq, Structural)]
pub enum ResizeStep {
    /// Nothing to do: the size is undrawable or already current.
    Ignore,
    /// An interactive move or resize is under way; the size waits for its end.
    Deferred,
    /// The size is now the client size; buffers must follow and a frame be drawn.
    Apply,
}

impl AppState {
    /// Records a new client size: undrawable (minimised) sizes and the current
    /// size are ignored, during an interactive move or resize the size is kept
    /// for its end, otherwise it becomes the client size.
    pub fn request_resize(&mut self, width: i32, height: i32) -> (r: ResizeStep)
        ensures
            !(width > 0 && height > 0) || old(self).client_size == (ClientSize { width, height })
                ==> r == ResizeStep::Ignore && *final(self) == *old(self),
            width > 0 && height > 0 && old(self).client_size != (ClientSize { width, height })
                && old(self).resizing ==> r == ResizeStep::Deferred && *final(self) == (AppState {
                pending_resize: Some(ClientSize { width, height }),
                ..*old(self)
            }),
            width > 0 && height > 0 && old(self).client_size != (ClientSize { width, height })
                && !old(self).resizing ==> r == ResizeStep::Apply && *final(self) == (AppState {
                client_size: ClientSize { width, height },
                ..*old(self)
            }),
    {
        let size = match ClientSize::drawable(width, height) {
            Some(s) => s,
            None => {
                return ResizeStep::Ignore;
            },
        };
        if self.client_size == size {
            return ResizeStep::Ignore;
        }
        if self.resizing {
            self.pending_resize = Some(size);
            return ResizeStep::Deferred;
        }
        self.client_size = size;
        ResizeStep::Apply
    }

    /// An interactive move or resize starts.
    pub fn begin_size_move(&mut self)
        ensures
            *final(self) == (AppState { resizing: true, ..*old(self) }),
    {
        self.resizing = true;
    }

    /// An interactive move or resize ends; returns the size it left waiting.
    pub fn end_size_move(&mut self) -> (r: Option<ClientSize>)
        ensures
            r == old(self).pending_resize,
            *final(self) == (AppState { resizing: false, pending_resize: None, ..*old(self) }),
    {
        self.resizing = false;
        self.pending_resize.take()
    }
}

/// The single owner of the application state outside window handles and services.
pub struct AppModel {
    pub config: Config,
    pub backlog: BacklogStore,
    pub runtime: AppState,
}

/// What the UI asks of the model.
pub enum AppAction {
    Command(AppCommand),
    /// Show the settings being edited without saving them.
    PreviewSettings(Config),
    /// Apply and save the edited settings.
    CommitSettings(Config),
    ClearBacklog,
    ClearTranslationCache,
    SaveHookProfile { hook_name: String, hook_code: Option<String> },
    /// A new sentence merge window (ms) from the hook management window.
    SetHookMergeWindow(u32),
    SettingsDialogClosed,
    TranslateDialogClosed(u64),
    FileTransDialogClosed(u64),
    /// An update check ended; the time to record, or none when it failed in
    /// a way that should not delay the next check.
    UpdateCheckSettled(Option<i64>),
    RequestUpdateCheck,
    RequestUpdateApply,
}

/// Dialog windows.
#[derive(Debug, Clone, Copy, PartialEq, Eq, Structural)]
pub enum DialogKind {
    Settings,
    Translate,
    Backlog,
    FileTranslation,
    HookFind,
}

/// Window and I/O work the model asks for.
#[derive(Debug, Clone, Copy, PartialEq, Eq, Structural)]
pub enum Effect {
    Repaint,
    SyncWindowState,
    SaveConfig,
    SetWindowVisible(bool),
    SetClickThrough(bool),
    SetClipboardWatch(bool),
    SetMagnetic(bool),
    /// The hotkey settings changed; register them again.
    ReregisterHotkeys,
    ClearTranslationCache,
    OpenDialog(DialogKind),
    SettingsDialogClosed,
    TranslateDialogClosed(u64),
    FileTransDialogClosed(u64),
    Close,
    RequestUpdateCheck,
    RequestUpdateApply,
    /// End the current hooking session.
    HookStop,
}

/// `c` with all three text sizes set to `size`.
pub open spec fn with_text_size(c: Config, size: i32) -> Config {
    Config {
        name_style: TextStyle { size, ..c.name_style },
        original_style: TextStyle { size, ..c.original_style },
        translation_style: TextStyle { size, ..c.translation_style },
        ..c
    }
}

/// The settings in `draft`, keeping from `cur` what the settings window does
/// not edit: the last update check time, the hook settings, the window
/// placement, and (when `keep_hotkeys`) the hotkeys.
pub open spec fn adopt_draft(cur: Config, draft: Config, keep_hotkeys: bool) -> Config {
    Config {
        last_update_check: cur.last_update_check,
        hook: cur.hook,
        hotkeys: if keep_hotkeys {
            cur.hotkeys
        } else {
            draft.hotkeys
        },
        window_x: cur.window_x,
        window_y: cur.window_y,
        window_width: cur.window_width,
        window_height: cur.window_height,
        ..draft
    }
}

/// The next text size one step up (at most 100) or down (at least 6).
pub open spec fn stepped_size(size: i32, up: bool) -> i32 {
    if up {
        if size + 1 > 100 {
            100
        } else {
            (size + 1) as i32
        }
    } else {
        if size - 1 < 6 {
            6
        } else {
            (size - 1) as i32
        }
    }
}

/// The merge window after clamping.
pub open spec fn clamped_merge_window(w: u32) -> u32 {
    clamp_spec(w as int, MIN_MERGE_WINDOW_MS as int, MAX_MERGE_WINDOW_MS as int) as u32
}

/// `m2` is `m` with the settings replaced by `c`.
pub open spec fn with_config(m: AppModel, m2: AppModel, c: Config) -> bool {
    &&& m2.config == c
    &&& m2.backlog == m.backlog
    &&& m2.runtime == m.runtime
}

/// The model and effects after `command`.
pub open spec fn command_step(m: AppModel, command: AppCommand, m2: AppModel, fx: Seq<Effect>) -> bool {
    let c = m.config;
    match command {
        AppCommand::WindowShow => with_config(m, m2, Config { window_visible: !c.window_visible, ..c }) && fx == seq![Effect::SetWindowVisible(!c.window_visible)],
        AppCommand::ClickThrough => with_config(m, m2, Config { click_through: !c.click_through, ..c }) && fx == seq![Effect::SetClickThrough(!c.click_through)],
        AppCommand::ClipboardWatch => if m.runtime.hook_session is Some {
            m2 == m && fx.len() == 0
        } else {
            with_config(m, m2, Config { clipboard_watch: !c.clipboard_watch, ..c }) && fx
                == seq![Effect::SetClipboardWatch(!c.clipboard_watch)]
        },
        AppCommand::BackgroundToggle => with_config(m, m2, Config { background_visible: !c.background_visible, ..c }) && fx == seq![Effect::Repaint],
        AppCommand::BorderToggle => with_config(m, m2, Config { border_visible: !c.border_visible, ..c }) && fx == seq![Effect::Repaint],
        AppCommand::MagneticMode => with_config(m, m2, Config { magnetic_mode: !c.magnetic_mode, ..c }) && fx == seq![Effect::SetMagnetic(!c.magnetic_mode)],
        AppCommand::Settings => m2 == m && fx == seq![Effect::OpenDialog(DialogKind::Settings)],
        AppCommand::Translate => m2 == m && fx == seq![Effect::OpenDialog(DialogKind::Translate)],
        AppCommand::Backlog => m2 == m && fx == seq![Effect::OpenDialog(DialogKind::Backlog)],
        AppCommand::FileTrans => m2 == m && fx == seq![
            Effect::OpenDialog(DialogKind::FileTranslation),
        ],
        AppCommand::HookFind => m2 == m && fx == seq![Effect::OpenDialog(DialogKind::HookFind)],
        AppCommand::HookStop => m2 == m && fx == seq![Effect::HookStop],
        AppCommand::TextSizeUp => with_config(m, m2, with_text_size(c, stepped_size(c.translation_style.size, true))) && fx == seq![Effect::Repaint],
        AppCommand::TextSizeDown => with_config(m, m2, with_text_size(c, stepped_size(c.translation_style.size, false))) && fx == seq![Effect::Repaint],
        AppCommand::Exit => m2 == m && fx == seq![Effect::Close],
    }
}

/// The model and effects after saving the hook profile `(name, code)`.
pub open spec fn save_hook_step(
    m: AppModel,
    name: Seq<char>,
    code: Option<Seq<char>>,
    m2: AppModel,
    fx: Seq<Effect>,
) -> bool {
    match m.runtime.hook_session {
        None => m2 == m && fx.len() == 0,
        Some(s) => {
            let h = m.config.hook;
            let h2 = m2.config.hook;
            &&& with_config(m, m2, Config { hook: h2, ..m.config })
            &&& h2.profiles() == save_spec(
                h.profiles(),
                ProfileView {
                    process_name: s.process_name@,
                    exe_sha256: opt_view(s.exe_sha256),
                    hook_name: name,
                    hook_code: code,
                },
            )
            &&& h2.merge_window_ms == h.merge_window_ms
            &&& h2.enabled == h.enabled
            &&& h2.auto_attach_last == h.auto_attach_last
            &&& h2.last_target_pid == h.last_target_pid
            &&& h2.last_target_name == h.last_target_name
            &&& h2.max_text_length == h.max_text_length
            &&& h2.debug_log == h.debug_log
            &&& h2.diag_token == h.diag_token
            &&& fx == seq![Effect::SaveConfig]
        },
    }
}

/// The model and effects after a new merge window `w`.
pub open spec fn merge_window_step(m: AppModel, w: u32, m2: AppModel, fx: Seq<Effect>) -> bool {
    let w2 = clamped_merge_window(w);
    if m.config.hook.merge_window_ms == w2 {
        m2 == m && fx.len() == 0
    } else {
        &&& m2.config == Config {
            hook: crate::hook_config::HookConfig { merge_window_ms: w2, ..m.config.hook },
            ..m.config
        }
        &&& m2.runtime == AppState { hook_merge_window_ms: w2 as u64, ..m.runtime }
        &&& m2.backlog == m.backlog
        &&& fx == seq![Effect::SaveConfig]
    }
}

/// The model and effects after `action`.
pub open spec fn update_step(m: AppModel, action: AppAction, m2: AppModel, fx: Seq<Effect>) -> bool {
    match action {
        AppAction::Command(c) => command_step(m, c, m2, fx),
        AppAction::PreviewSettings(d) => with_config(m, m2, adopt_draft(m.config, d, true)) && fx
            == seq![Effect::SyncWindowState, Effect::Repaint],
        AppAction::CommitSettings(d) => with_config(m, m2, adopt_draft(m.config, d, false)) && fx
            == seq![Effect::SyncWindowState, Effect::Repaint, Effect::SaveConfig] + if m.config.hotkeys
            != d.hotkeys {
            seq![Effect::ReregisterHotkeys]
        } else {
            Seq::<Effect>::empty()
        },
        AppAction::ClearBacklog => m2 == AppModel { backlog: m2.backlog, ..m } && m2.backlog.wf()
            && m2.backlog@.len() == 0 && fx.len() == 0,
        AppAction::ClearTranslationCache => m2 == m && fx == seq![Effect::ClearTranslationCache],
        AppAction::SaveHookProfile { hook_name, hook_code } => save_hook_step(
            m,
            hook_name@,
            opt_view(hook_code),
            m2,
            fx,
        ),
        AppAction::SetHookMergeWindow(w) => merge_window_step(m, w, m2, fx),
        AppAction::SettingsDialogClosed => m2 == m && fx == seq![Effect::SettingsDialogClosed],
        AppAction::TranslateDialogClosed(s) => m2 == m && fx == seq![
            Effect::TranslateDialogClosed(s),
        ],
        AppAction::FileTransDialogClosed(s) => m2 == m && fx == seq![
            Effect::FileTransDialogClosed(s),
        ],
        AppAction::UpdateCheckSettled(t) => match t {
            None => m2 == m && fx.len() == 0,
            Some(ts) => with_config(m, m2, Config { last_update_check: ts, ..m.config }) && fx
                == seq![Effect::SaveConfig],
        },
        AppAction::RequestUpdateCheck => m2 == m && fx == seq![Effect::RequestUpdateCheck],
        AppAction::RequestUpdateApply => m2 == m && fx == seq![Effect::RequestUpdateApply],
    }
}

/// What `update` can be asked: a text size step must not overflow.
pub open spec fn update_allowed(m: AppModel, action: AppAction) -> bool {
    match action {
        AppAction::Command(AppCommand::TextSizeUp) => m.config.translation_style.size < i32::MAX,
        AppAction::Command(AppCommand::TextSizeDown) => m.config.translation_style.size > i32::MIN,
        _ => true,
    }
}

fn adopt_into(cur: &mut Config, draft: Config, keep_hotkeys: bool)
    ensures
        *final(cur) == adopt_draft(*old(cur), draft, keep_hotkeys),
{
    let mut next = draft;
    std::mem::swap(&mut next.hook, &mut cur.hook);
    let hotkeys = if keep_hotkeys {
        cur.hotkeys
    } else {
        next.hotkeys
    };
    *cur = Config {
        last_update_check: cur.last_update_check,
        hotkeys,
        window_x: cur.window_x,
        window_y: cur.window_y,
        window_width: cur.window_width,
        window_height: cur.window_height,
        ..next
    };
}

fn set_uniform_text_size(c: &mut Config, size: i32)
    ensures
        *final(c) == with_text_size(*old(c), size),
{
    c.translation_style.size = size;
    c.name_style.size = size;
    c.original_style.size = size;
}

fn clamp_merge_window(window_ms: u32) -> (r: u32)
    ensures
        r == clamped_merge_window(window_ms),
{
    if window_ms < MIN_MERGE_WINDOW_MS {
        MIN_MERGE_WINDOW_MS
    } else if window_ms > MAX_MERGE_WINDOW_MS {
        MAX_MERGE_WINDOW_MS
    } else {
        window_ms
    }
}

fn set_merge_window(h: &mut crate::hook_config::HookConfig, w: u32)
    ensures
        *final(h) == (crate::hook_config::HookConfig { merge_window_ms: w, ..*old(h) }),
{
    h.merge_window_ms = w;
}

/// The effect of a command that only opens a window or ends something.
pub open spec fn passive_command(c: AppCommand) -> bool {
    match c {
        AppCommand::Settings | AppCommand::Translate | AppCommand::Backlog | AppCommand::FileTrans
        | AppCommand::HookFind | AppCommand::HookStop | AppCommand::Exit => true,
        _ => false,
    }
}

fn passive_effect(c: AppCommand) -> (r: Effect)
    requires
        passive_command(c),
    ensures
        forall|m: AppModel| command_step(m, c, m, seq![r]),
{
    match c {
        AppCommand::Settings => Effect::OpenDialog(DialogKind::Settings),
        AppCommand::Translate => Effect::OpenDialog(DialogKind::Translate),
        AppCommand::Backlog => Effect::OpenDialog(DialogKind::Backlog),
        AppCommand::FileTrans => Effect::OpenDialog(DialogKind::FileTranslation),
        AppCommand::HookFind => Effect::OpenDialog(DialogKind::HookFind),
        AppCommand::HookStop => Effect::HookStop,
        _ => Effect::Close,
    }
}

fn one(e: Effect) -> (r: Vec<Effect>)
    ensures
        r@ == seq![e],
{
    let mut v = Vec::new();
    v.push(e);
    v
}

impl AppModel {
    /// Changes the state only; the window and I/O work comes back as effects.
    pub fn update(&mut self, action: AppAction) -> (r: Vec<Effect>)
        requires
            update_allowed(*old(self), action),
        ensures
            update_step(*old(self), action, *final(self), r@),
    {
        match action {
            AppAction::Command(command) => {
                return self.update_command(command);
            },
            AppAction::PreviewSettings(draft) => {
                return self.preview_settings(draft);
            },
            AppAction::CommitSettings(draft) => {
                return self.commit_settings(draft);
            },
            AppAction::ClearBacklog => {
                self.backlog.clear();
                return Vec::new();
            },
            AppAction::ClearTranslationCache => {
                return one(Effect::ClearTranslationCache);
            },
            AppAction::SaveHookProfile { hook_name, hook_code } => {
                return self.save_hook_profile(hook_name, hook_code);
            },
            AppAction::SetHookMergeWindow(window_ms) => {
                return self.set_hook_merge_window(window_ms);
            },
            AppAction::SettingsDialogClosed => {
                return one(Effect::SettingsDialogClosed);
            },
            AppAction::TranslateDialogClosed(session) => {
                return one(Effect::TranslateDialogClosed(session));
            },
            AppAction::FileTransDialogClosed(session) => {
                return one(Effect::FileTransDialogClosed(session));
            },
            AppAction::UpdateCheckSettled(new_last_check) => {
                return self.update_check_settled(new_last_check);
            },
            AppAction::RequestUpdateCheck => {
                return one(Effect::RequestUpdateCheck);
            },
            AppAction::RequestUpdateApply => {
                return one(Effect::RequestUpdateApply);
            },
        }
    }

    /// `draft` with the settings that the settings window does not edit
    /// taken from the current settings (hotkeys too when `keep_hotkeys`).
    fn adopt(&mut self, draft: Config, keep_hotkeys: bool)
        ensures
            with_config(*old(self), *final(self), adopt_draft(old(self).config, draft, keep_hotkeys)),
    {
        adopt_into(&mut self.config, draft, keep_hotkeys);
    }

    fn preview_settings(&mut self, draft: Config) -> (r: Vec<Effect>)
        ensures
            with_config(*old(self), *final(self), adopt_draft(old(self).config, draft, true)),
            r@ == seq![Effect::SyncWindowState, Effect::Repaint],
    {
        self.adopt(draft, true);
        let mut effects = Vec::new();
        effects.push(Effect::SyncWindowState);
        effects.push(Effect::Repaint);
        effects
    }

    fn commit_settings(&mut self, draft: Config) -> (r: Vec<Effect>)
        ensures
            with_config(*old(self), *final(self), adopt_draft(old(self).config, draft, false)),
            r@ == seq![Effect::SyncWindowState, Effect::Repaint, Effect::SaveConfig] + if old(
                self,
            ).config.hotkeys != draft.hotkeys {
                seq![Effect::ReregisterHotkeys]
            } else {
                Seq::<Effect>::empty()
            },
    {
        let hotkeys_changed = self.config.hotkeys != draft.hotkeys;
        self.adopt(draft, false);
        let mut effects = Vec::new();
        effects.push(Effect::SyncWindowState);
        effects.push(Effect::Repaint);
        effects.push(Effect::SaveConfig);
        if hotkeys_changed {
            effects.push(Effect::ReregisterHotkeys);
        }
        proof {
            if !hotkeys_changed {
                assert(effects@ =~= seq![Effect::SyncWindowState, Effect::Repaint, Effect::SaveConfig]
                    + Seq::<Effect>::empty());
            }
        }
        effects
    }

    fn save_hook_profile(&mut self, hook_name: String, hook_code: Option<String>) -> (r: Vec<
        Effect,
    >)
        ensures
            save_hook_step(*old(self), hook_name@, opt_view(hook_code), *final(self), r@),
    {
        let profile = match &self.runtime.hook_session {
            None => {
                return Vec::new();
            },
            Some(session) => {
                let exe_sha256 = match &session.exe_sha256 {
                    Some(h) => Some(h.clone()),
                    None => None,
                };
                SavedHookProfile {
                    process_name: session.process_name.clone(),
                    exe_sha256,
                    hook_name,
                    hook_code,
                }
            },
        };
        self.config.hook.save_profile(profile);
        one(Effect::SaveConfig)
    }

    fn set_hook_merge_window(&mut self, window_ms: u32) -> (r: Vec<Effect>)
        ensures
            merge_window_step(*old(self), window_ms, *final(self), r@),
    {
        let w = clamp_merge_window(window_ms);
        if self.config.hook.merge_window_ms == w {
            return Vec::new();
        }
        self.apply_merge_window(w);
        one(Effect::SaveConfig)
    }

    fn apply_merge_window(&mut self, w: u32)
        ensures
            final(self).config == (Config {
                hook: crate::hook_config::HookConfig { merge_window_ms: w, ..old(self).config.hook },
                ..old(self).config
            }),
            final(self).runtime == (AppState { hook_merge_window_ms: w as u64, ..old(self).runtime }),
            final(self).backlog == old(self).backlog,
    {
        set_merge_window(&mut self.config.hook, w);
        self.runtime.hook_merge_window_ms = w as u64;
    }

    fn update_check_settled(&mut self, new_last_check: Option<i64>) -> (r: Vec<Effect>)
        ensures
            match new_last_check {
                None => *final(self) == *old(self) && r@.len() == 0,
                Some(ts) => with_config(*old(self), *final(self), Config { last_update_check: ts, ..old(self).config }) && r@ == seq![Effect::SaveConfig],
            },
    {
        match new_last_check {
            None => Vec::new(),
            Some(timestamp) => {
                self.config.last_update_check = timestamp;
                one(Effect::SaveConfig)
            },
        }
    }

    fn update_command(&mut self, command: AppCommand) -> (r: Vec<Effect>)
        requires
            command == AppCommand::TextSizeUp ==> old(self).config.translation_style.size
                < i32::MAX,
            command == AppCommand::TextSizeDown ==> old(self).config.translation_style.size
                > i32::MIN,
        ensures
            command_step(*old(self), command, *final(self), r@),
    {
        match command {
            AppCommand::WindowShow => self.cmd_window_show(),
            AppCommand::ClickThrough => self.cmd_click_through(),
            AppCommand::ClipboardWatch => self.cmd_clipboard_watch(),
            AppCommand::BackgroundToggle => self.cmd_background_toggle(),
            AppCommand::BorderToggle => self.cmd_border_toggle(),
            AppCommand::MagneticMode => self.cmd_magnetic_mode(),
            AppCommand::TextSizeUp => self.cmd_text_size_up(),
            AppCommand::TextSizeDown => self.cmd_text_size_down(),
            _ => one(passive_effect(command)),
        }
    }

    fn cmd_window_show(&mut self) -> (r: Vec<Effect>)
        ensures
            command_step(*old(self), AppCommand::WindowShow, *final(self), r@),
    {
        self.config.toggle_window_visible();
        one(Effect::SetWindowVisible(self.config.window_visible))
    }

    fn cmd_click_through(&mut self) -> (r: Vec<Effect>)
        ensures
            command_step(*old(self), AppCommand::ClickThrough, *final(self), r@),
    {
        self.config.toggle_click_through();
        one(Effect::SetClickThrough(self.config.click_through))
    }

    fn cmd_background_toggle(&mut self) -> (r: Vec<Effect>)
        ensures
            command_step(*old(self), AppCommand::BackgroundToggle, *final(self), r@),
    {
        self.config.toggle_background_visible();
        one(Effect::Repaint)
    }

    fn cmd_border_toggle(&mut self) -> (r: Vec<Effect>)
        ensures
            command_step(*old(self), AppCommand::BorderToggle, *final(self), r@),
    {
        self.config.toggle_border_visible();
        one(Effect::Repaint)
    }

    fn cmd_magnetic_mode(&mut self) -> (r: Vec<Effect>)
        ensures
            command_step(*old(self), AppCommand::MagneticMode, *final(self), r@),
    {
        self.config.toggle_magnetic_mode();
        one(Effect::SetMagnetic(self.config.magnetic_mode))
    }

    fn cmd_clipboard_watch(&mut self) -> (r: Vec<Effect>)
        ensures
            command_step(*old(self), AppCommand::ClipboardWatch, *final(self), r@),
    {
        if self.runtime.hook_session.is_some() {
            return Vec::new();
        }
        self.config.toggle_clipboard_watch();
        one(Effect::SetClipboardWatch(self.config.clipboard_watch))
    }

    fn cmd_text_size_up(&mut self) -> (r: Vec<Effect>)
        requires
            old(self).config.translation_style.size < i32::MAX,
        ensures
            command_step(*old(self), AppCommand::TextSizeUp, *final(self), r@),
    {
        let bigger = self.config.translation_style.size + 1;
        let new_size = if bigger > 100 {
            100
        } else {
            bigger
        };
        self.set_all_text_sizes(new_size);
        one(Effect::Repaint)
    }

    fn cmd_text_size_down(&mut self) -> (r: Vec<Effect>)
        requires
            old(self).config.translation_style.size > i32::MIN,
        ensures
            command_step(*old(self), AppCommand::TextSizeDown, *final(self), r@),
    {
        let smaller = self.config.translation_style.size - 1;
        let new_size = if smaller < 6 {
            6
        } else {
            smaller
        };
        self.set_all_text_sizes(new_size);
        one(Effect::Repaint)
    }

    fn set_all_text_sizes(&mut self, size: i32)
        ensures
            with_config(*old(self), *final(self), with_text_size(old(self).config, size)),
    {
        set_uniform_text_size(&mut self.config, size);
    }
}

/// The queue `q2` and the dropped sentence `dropped` after queueing `text`
/// on `q`.
pub open spec fn queued(
    q: Seq<QueuedHookText>,
    text: QueuedHookText,
    q2: Seq<QueuedHookText>,
    dropped: Option<QueuedHookText>,
) -> bool {
    if q.len() >= MAX_QUEUED_HOOK_TEXTS {
        dropped == Some(q[0]) && q2 == q.drop_first().push(text)
    } else {
        dropped is None && q2 == q.push(text)
    }
}

/// A queue within its bound stays within it; the newest sentence is always
/// kept, last.
pub proof fn lemma_queue_stays_bounded(
    q: Seq<QueuedHookText>,
    text: QueuedHookText,
    q2: Seq<QueuedHookText>,
    dropped: Option<QueuedHookText>,
)
    requires
        q.len() <= MAX_QUEUED_HOOK_TEXTS,
        queued(q, text, q2, dropped),
    ensures
        q2.len() <= MAX_QUEUED_HOOK_TEXTS,
        q2.len() > 0 && q2.last() == text,
{
}

/// Queues `text`; when the queue was full, the oldest sentence is dropped
/// and returned.
pub fn queue_hook_text(queue: &mut VecDeque<QueuedHookText>, text: QueuedHookText) -> (r: Option<
    QueuedHookText,
>)
    ensures
        queued(old(queue)@, text, final(queue)@, r),
{
    let dropped = if queue.len() >= MAX_QUEUED_HOOK_TEXTS {
        queue.pop_front()
    } else {
        None
    };
    queue.push_back(text);
    dropped
}

/// The queued pieces joined: a whole-sentence piece starts a new line after
/// earlier text; per-character pieces continue the line.
pub open spec fn joined_hook_text(q: Seq<QueuedHookText>) -> Seq<char>
    decreases q.len(),
{
    if q.len() == 0 {
        Seq::empty()
    } else {
        let prev = joined_hook_text(q.drop_last());
        let p = q.last();
        prev + (if p.full_string && prev.len() > 0 {
            seq!['\n']
        } else {
            Seq::<char>::empty()
        }) + p.text@
    }
}

/// Empties the queue into one request text; none when that text is empty.
pub fn take_queued_hook_text(queue: &mut VecDeque<QueuedHookText>) -> (r: Option<String>)
    ensures
        final(queue)@.len() == 0,
        match r {
            Some(s) => s@ == joined_hook_text(old(queue)@) && s@.len() > 0,
            None => joined_hook_text(old(queue)@).len() == 0,
        },
{
    let ghost q0 = queue@;
    let n0 = queue.len();
    let mut joined = String::new();
    let mut taken: usize = 0;
    while queue.len() > 0
        invariant
            taken <= q0.len(),
            q0.len() == n0,
            queue@ == q0.subrange(taken as int, q0.len() as int),
            joined@ == joined_hook_text(q0.take(taken as int)),
        decreases queue@.len(),
    {
        assert(taken < q0.len());
        let piece = queue.pop_front();
        match piece {
            Some(p) => {
                proof {
                    assert(q0.take(taken + 1).drop_last() =~= q0.take(taken as int));
                    assert(q0.take(taken + 1).last() == p);
                }
                if p.full_string && !joined.as_str().is_empty() {
                    crate::text::push_char(&mut joined, '\n');
                }
                crate::text::append_str(&mut joined, p.text.as_str());
                taken = taken + 1;
                assert(queue@ =~= q0.subrange(taken as int, q0.len() as int));
            },
            None => {},
        }
    }
    assert(q0.take(taken as int) =~= q0);
    if !joined.as_str().is_empty() {
        Some(joined)
    } else {
        None
    }
}

/// Previewing settings and then committing the same draft ends in the state
/// and effects of committing it directly: the preview keeps the registered
/// hotkeys, so the commit still asks to register changed hotkeys again.
pub proof fn lemma_preview_then_commit(
    m: AppModel,
    d: Config,
    m1: AppModel,
    fx1: Seq<Effect>,
    m2: AppModel,
    fx2: Seq<Effect>,
)
    requires
        update_step(m, AppAction::PreviewSettings(d), m1, fx1),
        update_step(m1, AppAction::CommitSettings(d), m2, fx2),
    ensures
        update_step(m, AppAction::CommitSettings(d), m2, fx2),
{
    assert(adopt_draft(m1.config, d, false) == adopt_draft(m.config, d, false));
}

proof fn lemma_window_show_twice(m: AppModel, m1: AppModel, fx1: Seq<Effect>, m2: AppModel, fx2: Seq<Effect>)
    requires
        command_step(m, AppCommand::WindowShow, m1, fx1),
        command_step(m1, AppCommand::WindowShow, m2, fx2),
    ensures
        m2.config == m.config,
        m2.backlog == m.backlog,
        m2.runtime == m.runtime,
{
}

proof fn lemma_click_through_twice(m: AppModel, m1: AppModel, fx1: Seq<Effect>, m2: AppModel, fx2: Seq<Effect>)
    requires
        command_step(m, AppCommand::ClickThrough, m1, fx1),
        command_step(m1, AppCommand::ClickThrough, m2, fx2),
    ensures
        m2.config == m.config,
        m2.backlog == m.backlog,
        m2.runtime == m.runtime,
{
}

proof fn lemma_clipboard_watch_twice(m: AppModel, m1: AppModel, fx1: Seq<Effect>, m2: AppModel, fx2: Seq<Effect>)
    requires
        command_step(m, AppCommand::ClipboardWatch, m1, fx1),
        command_step(m1, AppCommand::ClipboardWatch, m2, fx2),
    ensures
        m2.config == m.config,
        m2.backlog == m.backlog,
        m2.runtime == m.runtime,
{
}

proof fn lemma_background_toggle_twice(m: AppModel, m1: AppModel, fx1: Seq<Effect>, m2: AppModel, fx2: Seq<Effect>)
    requires
        command_step(m, AppCommand::BackgroundToggle, m1, fx1),
        command_step(m1, AppCommand::BackgroundToggle, m2, fx2),
    ensures
        m2.config == m.config,
        m2.backlog == m.backlog,
        m2.runtime == m.runtime,
{
}

proof fn lemma_border_toggle_twice(m: AppModel, m1: AppModel, fx1: Seq<Effect>, m2: AppModel, fx2: Seq<Effect>)
    requires
        command_step(m, AppCommand::BorderToggle, m1, fx1),
        command_step(m1, AppCommand::BorderToggle, m2, fx2),
    ensures
        m2.config == m.config,
        m2.backlog == m.backlog,
        m2.runtime == m.runtime,
{
}

proof fn lemma_magnetic_mode_twice(m: AppModel, m1: AppModel, fx1: Seq<Effect>, m2: AppModel, fx2: Seq<Effect>)
    requires
        command_step(m, AppCommand::MagneticMode, m1, fx1),
        command_step(m1, AppCommand::MagneticMode, m2, fx2),
    ensures
        m2.config == m.config,
        m2.backlog == m.backlog,
        m2.runtime == m.runtime,
{
}

/// A toggle command applied twice restores the model.
pub proof fn lemma_toggle_twice(
    m: AppModel,
    c: AppCommand,
    m1: AppModel,
    fx1: Seq<Effect>,
    m2: AppModel,
    fx2: Seq<Effect>,
)
    requires
        c == AppCommand::WindowShow || c == AppCommand::ClickThrough || c
            == AppCommand::ClipboardWatch || c == AppCommand::BackgroundToggle || c
            == AppCommand::BorderToggle || c == AppCommand::MagneticMode,
        command_step(m, c, m1, fx1),
        command_step(m1, c, m2, fx2),
    ensures
        m2.config == m.config,
        m2.backlog == m.backlog,
        m2.runtime == m.runtime,
{
    if c == AppCommand::WindowShow {
        lemma_window_show_twice(m, m1, fx1, m2, fx2);
    } else if c == AppCommand::ClickThrough {
        lemma_click_through_twice(m, m1, fx1, m2, fx2);
    } else if c == AppCommand::ClipboardWatch {
        lemma_clipboard_watch_twice(m, m1, fx1, m2, fx2);
    } else if c == AppCommand::BackgroundToggle {
        lemma_background_toggle_twice(m, m1, fx1, m2, fx2);
    } else if c == AppCommand::BorderToggle {
        lemma_border_toggle_twice(m, m1, fx1, m2, fx2);
    } else if c == AppCommand::MagneticMode {
        lemma_magnetic_mode_twice(m, m1, fx1, m2, fx2);
    }
}

/// Whether a restart was asked for while an update was being applied.
pub struct RestartFlag {
    requested: bool,
}

impl RestartFlag {
    pub closed spec fn requested_spec(&self) -> bool {
        self.requested
    }

    pub fn new() -> (r: Self)
        ensures
            !r.requested_spec(),
    {
        RestartFlag { requested: false }
    }

    /// Asks for a restart once the application has shut down.
    pub fn request(&mut self)
        ensures
            final(self).requested_spec(),
    {
        self.requested = true;
    }

    /// Whether a restart was asked for; the request is consumed.
    pub fn take_restart_requested(&mut self) -> (r: bool)
        ensures
            r == old(self).requested_spec(),
            !final(self).requested_spec(),
    {
        let r = self.requested;
        self.requested = false;
        r
    }
}

/// How long (s) a cached translation is kept after its last update.
pub const CACHE_TTL_SECS: i64 = 30 * 24 * 60 * 60;

/// Most rows the translation cache keeps; the least recently updated go first.
pub const CACHE_MAX_ROWS: i64 = 10_000;

/// Stores between two prunes of the translation cache.
pub const PUTS_PER_PRUNE: u64 = 100;

/// The oldest update time (s) a cached translation may have at time `now`.
pub fn prune_cutoff(now: i64) -> (r: i64)
    requires
        now >= i64::MIN + CACHE_TTL_SECS,
    ensures
        r == now - CACHE_TTL_SECS,
{
    now - CACHE_TTL_SECS
}

/// Counts stores to the translation cache so that it is pruned every
/// [`PUTS_PER_PRUNE`] stores rather than on each.
pub struct PruneSchedule {
    puts_since_prune: u64,
}

impl PruneSchedule {
    pub closed spec fn count(&self) -> u64 {
        self.puts_since_prune
    }

    #[verifier::type_invariant]
    spec fn below_period(&self) -> bool {
        self.puts_since_prune < PUTS_PER_PRUNE
    }

    pub fn new() -> (r: Self)
        ensures
            r.count() == 0,
    {
        PruneSchedule { puts_since_prune: 0 }
    }

    /// Records one store; true when it is time to prune, which restarts the count.
    pub fn record_put(&mut self) -> (prune: bool)
        ensures
            prune == (old(self).count() + 1 >= PUTS_PER_PRUNE),
            prune ==> final(self).count() == 0,
            !prune ==> final(self).count() == old(self).count() + 1,
    {
        proof {
            use_type_invariant(&*self);
        }
        let puts = self.puts_since_prune + 1;
        if puts >= PUTS_PER_PRUNE {
            self.puts_since_prune = 0;
            true
        } else {
            self.puts_since_prune = puts;
            false
        }
    }

    /// Restarts the count (the cache was emptied).
    pub fn reset(&mut self)
        ensures
            final(self).count() == 0,
    {
        self.puts_since_prune = 0;
    }
}

/// What to do with a clipboard change.
#[derive(Debug, PartialEq, Eq)]
pub enum ClipboardAction {
    /// Nothing to show.
    Ignore,
    /// The read failed for now; read again shortly.
    RetryLater,
    /// Show the text as it is, without translating it.
    ShowUntranslated(String),
    /// Translate the text after the debounce delay (ms).
    Translate { text: String, delay_ms: u32 },
}

/// Clipboard changes are handled only while watching is on, the listener is
/// registered and capture is not paused.
pub fn clipboard_capture_active(configured: bool, listening: bool, paused: bool) -> (r: bool)
    ensures
        r == (configured && listening && !paused),
{
    configured && listening && !paused
}

/// The action for a handled clipboard change: text longer than `max_len`
/// characters (0 for no limit) is ignored, text the source-language guard
/// rejects (`bypasses`) is shown untranslated, other text is translated after
/// the engine's debounce (none when the engine setting is unusable).
pub fn clipboard_change_action<E>(
    update: crate::clipboard::ClipboardUpdate<E>,
    max_len: usize,
    bypasses: bool,
    engine: Option<TranslationEngine>,
    llm_debounce_ms: u32,
) -> (r: ClipboardAction)
    ensures
        match update {
            crate::clipboard::ClipboardUpdate::Text(t) => if max_len > 0 && t@.len() > max_len {
                r == ClipboardAction::Ignore
            } else if bypasses {
                r == ClipboardAction::ShowUntranslated(t)
            } else {
                r == ClipboardAction::Translate {
                    text: t,
                    delay_ms: match engine {
                        Some(TranslationEngine::Llm) => llm_debounce_ms,
                        Some(TranslationEngine::EzTrans) => 0,
                        Some(_) => PAID_ENGINE_DEBOUNCE_MS,
                        None => 0,
                    },
                }
            },
            crate::clipboard::ClipboardUpdate::Retry(_) => r == ClipboardAction::RetryLater,
            _ => r == ClipboardAction::Ignore,
        },
{
    match update {
        crate::clipboard::ClipboardUpdate::Text(text) => {
            let n = crate::text::chars_of(text.as_str()).len();
            if max_len > 0 && n > max_len {
                return ClipboardAction::Ignore;
            }
            if bypasses {
                return ClipboardAction::ShowUntranslated(text);
            }
            let delay_ms = match engine {
                Some(e) => debounce_delay_ms(e, llm_debounce_ms),
                None => 0,
            };
            ClipboardAction::Translate { text, delay_ms }
        },
        crate::clipboard::ClipboardUpdate::Retry(_) => ClipboardAction::RetryLater,
        _ => ClipboardAction::Ignore,
    }
}

/// The hook name to select automatically for a saved profile: `UserUI` for
/// a profile with a hook code (its hook is installed under that name),
/// otherwise the saved name.
pub fn auto_hook_name(profile: &SavedHookProfile) -> (r: String)
    ensures
        r@ == match profile.hook_code {
            Some(_) => "UserUI"@,
            None => profile.hook_name@,
        },
{
    match &profile.hook_code {
        Some(_) => owned("UserUI"),
        None => profile.hook_name.clone(),
    }
}

/// `names` holds `name` up to ASCII case.
pub open spec fn has_engine(names: Seq<String>, name: Seq<char>) -> bool {
    exists|i: int| 0 <= i < names.len() && crate::text::eq_ignore_case(names[i]@, name)
}

impl HookSessionInfo {
    /// Remembers an engine detected in the hooked game, once (ASCII case
    /// ignored).
    pub fn note_detected_engine(&mut self, engine_name: String)
        ensures
            has_engine(old(self).detected_engines@, engine_name@) ==> *final(self) == *old(self),
            !has_engine(old(self).detected_engines@, engine_name@) ==> final(self).detected_engines@
                == old(self).detected_engines@.push(engine_name),
            final(self).pid == old(self).pid,
            final(self).process_name == old(self).process_name,
            final(self).exe_sha256 == old(self).exe_sha256,
            final(self).arch_label == old(self).arch_label,
    {
        let n = self.detected_engines.len();
        let mut i: usize = 0;
        while i < n
            invariant
                n == self.detected_engines@.len(),
                i <= n,
                forall|k: int|
                    0 <= k < i ==> !crate::text::eq_ignore_case(
                        #[trigger] self.detected_engines@[k]@,
                        engine_name@,
                    ),
            decreases n - i,
        {
            if crate::text::str_eq_ignore_case(
                self.detected_engines[i].as_str(),
                engine_name.as_str(),
            ) {
                return;
            }
            i = i + 1;
        }
        self.detected_engines.push(engine_name);
    }
}

impl AppModel {
    /// Starts a hooking session: remembers the target, turns hooking on and
    /// records the target for the next start. Returns the profile saved for
    /// this game, if any.
    pub fn attach_hook_session(
        &mut self,
        pid: u32,
        arch_label: String,
        process_name: String,
        exe_sha256: Option<String>,
    ) -> (r: Option<SavedHookProfile>)
        ensures
            final(self).runtime.hook_session matches Some(s) && s.pid == pid && s.process_name
                == process_name && s.exe_sha256 == exe_sha256 && s.arch_label == arch_label
                && s.detected_engines@.len() == 0,
            final(self).config.hook.enabled,
            final(self).config.hook.last_target_pid == pid,
            final(self).config.hook.last_target_name == process_name,
            final(self).config.hook.saved_profiles == old(self).config.hook.saved_profiles,
            final(self).config.hook.merge_window_ms == old(self).config.hook.merge_window_ms,
            match r {
                Some(p) => exists|i: int|
                    0 <= i < old(self).config.hook.saved_profiles@.len() && p@
                        == (#[trigger] old(self).config.hook.saved_profiles@[i])@
                        && crate::hook_config::lookup_ok(
                        old(self).config.hook.profiles(),
                        process_name@,
                        opt_view(exe_sha256),
                        Some(i),
                    ),
                None => crate::hook_config::lookup_ok(
                    old(self).config.hook.profiles(),
                    process_name@,
                    opt_view(exe_sha256),
                    None,
                ),
            },
    {
        let saved = {
            let digest = match &exe_sha256 {
                Some(d) => Some(d.as_str()),
                None => None,
            };
            match self.config.hook.saved_profile(process_name.as_str(), digest) {
                Some(p) => Some(p.clone_profile()),
                None => None,
            }
        };
        let name_copy = process_name.clone();
        self.runtime.hook_session = Some(
            HookSessionInfo {
                pid,
                process_name,
                exe_sha256,
                arch_label,
                detected_engines: Vec::new(),
            },
        );
        self.config.hook.enabled = true;
        self.config.hook.last_target_pid = pid;
        self.config.hook.last_target_name = name_copy;
        saved
    }

    /// Ends the hooking session and drops the hooked sentences still waiting.
    pub fn detach_hook_session(&mut self)
        ensures
            final(self).runtime.hook_session is None,
            final(self).runtime.hook_text_queue@.len() == 0,
            final(self).config == old(self).config,
    {
        self.runtime.hook_session = None;
        self.runtime.hook_text_queue.clear();
    }

    /// Queues a merged hooked sentence unless hooking is off or it is longer
    /// than the hook length limit (0 for none). Returns the sentence dropped
    /// from a full queue.
    pub fn queue_hooked_text(&mut self, text: String, full_string: bool) -> (r: Option<
        QueuedHookText,
    >)
        ensures
            !old(self).config.hook.enabled || (old(self).config.hook.max_text_length > 0
                && text@.len() > old(self).config.hook.max_text_length) ==> r is None
                && final(self).runtime.hook_text_queue@ == old(self).runtime.hook_text_queue@,
            old(self).config.hook.enabled && !(old(self).config.hook.max_text_length > 0
                && text@.len() > old(self).config.hook.max_text_length) ==> queued(
                old(self).runtime.hook_text_queue@,
                QueuedHookText { text, full_string },
                final(self).runtime.hook_text_queue@,
                r,
            ),
            final(self).config == old(self).config,
    {
        if !self.config.hook.enabled {
            return None;
        }
        let max_len = self.config.hook.max_text_length;
        let n = crate::text::chars_of(text.as_str()).len();
        if max_len > 0 && n > max_len as usize {
            return None;
        }
        queue_hook_text(&mut self.runtime.hook_text_queue, QueuedHookText { text, full_string })
    }

    /// The next hooked request: the waiting sentences joined, unless none
    /// wait or the request in flight (of age `pending_age_ms`) is still
    /// awaited.
    pub fn next_hook_request(&mut self, pending_age_ms: Option<u64>) -> (r: Option<String>)
        ensures
            old(self).runtime.hook_text_queue@.len() == 0 || (match pending_age_ms {
                Some(age) => age < HOOK_PENDING_TIMEOUT_MS,
                None => false,
            }) ==> r is None && final(self).runtime.hook_text_queue@ == old(
                self,
            ).runtime.hook_text_queue@,
            old(self).runtime.hook_text_queue@.len() > 0 && !(match pending_age_ms {
                Some(age) => age < HOOK_PENDING_TIMEOUT_MS,
                None => false,
            }) ==> final(self).runtime.hook_text_queue@.len() == 0 && match r {
                Some(s) => s@ == joined_hook_text(old(self).runtime.hook_text_queue@),
                None => joined_hook_text(old(self).runtime.hook_text_queue@).len() == 0,
            },
            final(self).config == old(self).config,
    {
        if self.runtime.hook_text_queue.len() == 0 {
            return None;
        }
        if waits_for_pending_translation(pending_age_ms) {
            return None;
        }
        take_queued_hook_text(&mut self.runtime.hook_text_queue)
    }
}

/// The text shown while a translation request is out.
pub open spec fn translating_label() -> Seq<char> {
    "[번역 중...]"@
}

/// The translation shown for `t`: its text, or nothing.
pub open spec fn shown_translation(t: Option<String>) -> Seq<char> {
    match t {
        Some(s) => s@,
        None => Seq::empty(),
    }
}

/// `m2` is `m` after showing the capture `original` with `translation` and
/// logging it: no request pending, the texts shown, one backlog entry added.
pub open spec fn capture_shown(m: AppModel, m2: AppModel, original: String, translation: Option<
    String,
>) -> bool {
    &&& m2.config == m.config
    &&& m2.runtime == (AppState {
        pending_translation: None,
        original_text: m2.runtime.original_text,
        translated_text: m2.runtime.translated_text,
        ..m.runtime
    })
    &&& m2.runtime.original_text@ == original@
    &&& m2.runtime.translated_text@ == shown_translation(translation)
    &&& m2.backlog.wf()
    &&& m2.backlog@ == retained(m.backlog@.push(LogEntry { name: None, original, translation }))
}

impl AppModel {
    /// Shows a capture with its translation (alone when it has none) and logs
    /// it in the backlog; no request stays pending. Returns whether the
    /// backlog dropped old entries.
    pub fn show_capture(&mut self, original: String, translation: Option<String>) -> (evicted: bool)
        requires
            old(self).backlog.wf(),
        ensures
            capture_shown(*old(self), *final(self), original, translation),
            evicted == (final(self).backlog@.len() < old(self).backlog@.len() + 1),
    {
        self.runtime.pending_translation = None;
        self.runtime.original_text = owned(original.as_str());
        self.runtime.translated_text = match &translation {
            Some(t) => owned(t.as_str()),
            None => String::new(),
        };
        self.backlog.push(LogEntry { name: None, original, translation })
    }

    /// A request for `request.original` went out: it is shown as being
    /// translated until the answer comes.
    pub fn translation_requested(&mut self, request: PendingTranslation)
        ensures
            final(self).config == old(self).config,
            final(self).backlog == old(self).backlog,
            final(self).runtime == (AppState {
                pending_translation: Some(request),
                original_text: final(self).runtime.original_text,
                translated_text: final(self).runtime.translated_text,
                ..old(self).runtime
            }),
            final(self).runtime.original_text@ == request.original@,
            final(self).runtime.translated_text@ == translating_label(),
    {
        self.runtime.original_text = owned(request.original.as_str());
        self.runtime.translated_text = owned("[번역 중...]");
        self.runtime.pending_translation = Some(request);
    }

    /// Applies the answer to the pending request: shows and logs the
    /// translation, or the original alone when it failed. Returns whether
    /// the backlog dropped old entries, and the entry to store in the
    /// translation cache (a success while the cache is on).
    pub fn complete_translation<E>(&mut self, completion: TranslationCompletion<String, E>) -> (r: (
        bool,
        Option<(CacheKey, String)>,
    ))
        requires
            old(self).backlog.wf(),
        ensures
            capture_shown(
                *old(self),
                *final(self),
                completion.original,
                match completion.result {
                    Ok(t) => Some(t),
                    Err(_) => None,
                },
            ),
            r.0 == (final(self).backlog@.len() < old(self).backlog@.len() + 1),
            match completion.result {
                Ok(t) => if old(self).config.clipboard_cache_enabled {
                    r.1 matches Some((k, c)) && k == completion.cache_key && c@ == t@
                } else {
                    r.1 is None
                },
                Err(_) => r.1 is None,
            },
    {
        let TranslationCompletion { original, cache_key, result } = completion;
        match result {
            Ok(t) => {
                let cached = if self.config.clipboard_cache_enabled {
                    Some((cache_key, owned(t.as_str())))
                } else {
                    None
                };
                let evicted = self.show_capture(original, Some(t));
                (evicted, cached)
            },
            Err(_) => {
                let evicted = self.show_capture(original, None);
                (evicted, None)
            },
        }
    }
}

/// The whole kilobytes (1024 bytes, rounded up) a download size is shown as
/// below one megabyte; larger sizes are shown in megabytes with a fraction.
pub fn size_in_kb(bytes: u64) -> (r: u64)
    ensures
        r == (bytes as int + 1023) / 1024,
{
    let whole = bytes / 1024;
    if bytes % 1024 != 0 {
        whole + 1
    } else {
        whole
    }
}

} // verus!
