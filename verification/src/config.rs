//! The application settings as a whole: window and clipboard behaviour, the
//! overlay look, translation, hotkeys and hooking, with the normalisation that
//! every consumer relies on and the schema migration of older files.
use crate::hook_config::HookConfig;
use crate::hotkey::HotkeyConfig;
use crate::limits::{
    border_width, clamp_spec, eztrans_process_count, llm_debounce_ms, llm_max_tokens, margin,
    outline_size, shadow_offset, text_size, BORDER_WIDTH_MAX, BORDER_WIDTH_MIN,
    EZTRANS_PROCESS_COUNT_MAX, EZTRANS_PROCESS_COUNT_MIN, LLM_DEBOUNCE_MS_MAX, LLM_DEBOUNCE_MS_MIN,
    LLM_MAX_TOKENS_MAX, LLM_MAX_TOKENS_MIN, MARGIN_MAX, MARGIN_MIN, OUTLINE_SIZE_MAX,
    OUTLINE_SIZE_MIN, SHADOW_OFFSET_MAX, SHADOW_OFFSET_MIN, TEXT_SIZE_MAX, TEXT_SIZE_MIN,
};
use crate::cli::{digits_of, push_digits};
use crate::text::{append_str, chars_of, eq_ignore_case, owned, sub_chars};
use crate::text_style::{ColorType, TextAlign, TextStyle, TextType};
use crate::translation_config::{LlmConfig, TranslationConfig};
use vstd::prelude::*;

verus! {

/// The settings layout this version writes.
pub const CURRENT_SCHEMA_VERSION: u32 = 1;

/// Application settings.
#[derive(Clone, Debug, PartialEq, Eq)]
pub struct Config {
    /// Layout version; files without one go through the v0 migration.
    pub schema_version: u32,
    pub window_visible: bool,
    pub window_topmost: bool,
    pub click_through: bool,
    pub clipboard_watch: bool,
    pub clipboard_max_length: u32,
    /// Serve repeated originals from the translation cache.
    pub clipboard_cache_enabled: bool,
    /// Skip clipboard text that is not in the source language.
    pub clipboard_source_language_guard: bool,
    pub background_visible: bool,
    /// ARGB.
    pub background_color: u32,
    pub border_visible: bool,
    pub border_width: i32,
    /// ARGB.
    pub border_color: u32,
    pub magnetic_mode: bool,
    pub magnetic_minimize: bool,
    pub show_name: bool,
    pub show_original: bool,
    pub show_translation: bool,
    pub text_align: TextAlign,
    pub name_style: TextStyle,
    pub original_style: TextStyle,
    pub translation_style: TextStyle,
    pub text_margin_x: i32,
    pub text_margin_y: i32,
    pub name_margin: i32,
    pub shadow_offset_x: i32,
    pub shadow_offset_y: i32,
    /// Split `name: text` lines into a name block and a body.
    pub separate_name: bool,
    /// Overlay position and size; none until the window was first placed.
    pub window_x: Option<i32>,
    pub window_y: Option<i32>,
    pub window_width: Option<i32>,
    pub window_height: Option<i32>,
    /// Check for updates automatically.
    pub update_check_enabled: bool,
    /// Unix time (s) of the last completed update check; 0 for never.
    pub last_update_check: i64,
    pub translation: TranslationConfig,
    /// Global hotkeys.
    pub hotkeys: HotkeyConfig,
    /// Game text hooking.
    pub hook: HookConfig,
}

/// Screenshot settings.
#[derive(Clone, Debug, PartialEq, Eq)]
pub struct ScreenshotConfig {
    /// Folder the screenshots go to; empty for the default.
    pub path: String,
    /// 0 PNG, 1 JPEG, 2 WebP.
    pub format: u8,
    /// 0 fast, 1 standard, 2 smallest.
    pub compression: u8,
    /// JPEG quality, 1 to 100.
    pub jpeg_quality: u8,
}

impl Default for ScreenshotConfig {
    /// PNG at standard compression, JPEG quality 85, default folder.
    fn default() -> (r: Self)
        ensures
            r.path@.len() == 0,
            r.format == 0,
            r.compression == 1,
            r.jpeg_quality == 85,
    {
        ScreenshotConfig { path: String::new(), format: 0, compression: 1, jpeg_quality: 85 }
    }
}

/// The schema of a settings file is newer than this version understands.
#[derive(Clone, Copy, Debug, PartialEq, Eq, Structural)]
pub enum ConfigDecodeError {
    UnsupportedSchema { found: u32, supported: u32 },
}

/// `style` with its sizes clamped to the UI ranges and its font style reduced
/// to the bold and italic bits.
pub open spec fn normalized_style(style: TextStyle) -> TextStyle {
    TextStyle {
        size: clamp_spec(style.size as int, TEXT_SIZE_MIN as int, TEXT_SIZE_MAX as int) as i32,
        outline1_size: clamp_spec(
            style.outline1_size as int,
            OUTLINE_SIZE_MIN as int,
            OUTLINE_SIZE_MAX as int,
        ) as i32,
        outline2_size: clamp_spec(
            style.outline2_size as int,
            OUTLINE_SIZE_MIN as int,
            OUTLINE_SIZE_MAX as int,
        ) as i32,
        font_style: style.font_style & 3,
        ..style
    }
}

/// The integer LLM limits clamped.
pub open spec fn normalized_llm(llm: LlmConfig) -> LlmConfig {
    LlmConfig {
        max_tokens: clamp_spec(
            llm.max_tokens as int,
            LLM_MAX_TOKENS_MIN as int,
            LLM_MAX_TOKENS_MAX as int,
        ) as u32,
        debounce_ms: clamp_spec(
            llm.debounce_ms as int,
            LLM_DEBOUNCE_MS_MIN as int,
            LLM_DEBOUNCE_MS_MAX as int,
        ) as u32,
        ..llm
    }
}

/// `c` with every integer setting clamped into its UI range.
pub open spec fn normalized(c: Config) -> Config {
    Config {
        border_width: clamp_spec(
            c.border_width as int,
            BORDER_WIDTH_MIN as int,
            BORDER_WIDTH_MAX as int,
        ) as i32,
        text_margin_x: clamp_spec(c.text_margin_x as int, MARGIN_MIN as int, MARGIN_MAX as int) as i32,
        text_margin_y: clamp_spec(c.text_margin_y as int, MARGIN_MIN as int, MARGIN_MAX as int) as i32,
        name_margin: clamp_spec(c.name_margin as int, MARGIN_MIN as int, MARGIN_MAX as int) as i32,
        shadow_offset_x: clamp_spec(
            c.shadow_offset_x as int,
            SHADOW_OFFSET_MIN as int,
            SHADOW_OFFSET_MAX as int,
        ) as i32,
        shadow_offset_y: clamp_spec(
            c.shadow_offset_y as int,
            SHADOW_OFFSET_MIN as int,
            SHADOW_OFFSET_MAX as int,
        ) as i32,
        name_style: normalized_style(c.name_style),
        original_style: normalized_style(c.original_style),
        translation_style: normalized_style(c.translation_style),
        translation: TranslationConfig {
            eztrans_process_count: clamp_spec(
                c.translation.eztrans_process_count as int,
                EZTRANS_PROCESS_COUNT_MIN as int,
                EZTRANS_PROCESS_COUNT_MAX as int,
            ) as u32,
            llm: normalized_llm(c.translation.llm),
            ..c.translation
        },
        ..c
    }
}

/// A style whose sizes and font style are inside their ranges.
pub open spec fn style_in_range(s: TextStyle) -> bool {
    &&& TEXT_SIZE_MIN <= s.size <= TEXT_SIZE_MAX
    &&& OUTLINE_SIZE_MIN <= s.outline1_size <= OUTLINE_SIZE_MAX
    &&& OUTLINE_SIZE_MIN <= s.outline2_size <= OUTLINE_SIZE_MAX
    &&& s.font_style < 4
}

/// Every integer setting that normalisation clamps is inside its range.
pub open spec fn in_range(c: Config) -> bool {
    &&& BORDER_WIDTH_MIN <= c.border_width <= BORDER_WIDTH_MAX
    &&& MARGIN_MIN <= c.text_margin_x <= MARGIN_MAX
    &&& MARGIN_MIN <= c.text_margin_y <= MARGIN_MAX
    &&& MARGIN_MIN <= c.name_margin <= MARGIN_MAX
    &&& SHADOW_OFFSET_MIN <= c.shadow_offset_x <= SHADOW_OFFSET_MAX
    &&& SHADOW_OFFSET_MIN <= c.shadow_offset_y <= SHADOW_OFFSET_MAX
    &&& style_in_range(c.name_style)
    &&& style_in_range(c.original_style)
    &&& style_in_range(c.translation_style)
    &&& EZTRANS_PROCESS_COUNT_MIN <= c.translation.eztrans_process_count
        <= EZTRANS_PROCESS_COUNT_MAX
    &&& LLM_MAX_TOKENS_MIN <= c.translation.llm.max_tokens <= LLM_MAX_TOKENS_MAX
    &&& LLM_DEBOUNCE_MS_MIN <= c.translation.llm.debounce_ms <= LLM_DEBOUNCE_MS_MAX
}

proof fn lemma_normalized_style(s: TextStyle)
    ensures
        style_in_range(normalized_style(s)),
        style_in_range(s) ==> normalized_style(s) == s,
        normalized_style(normalized_style(s)) == normalized_style(s),
{
    let f = s.font_style;
    assert(f & 3 < 4) by (bit_vector);
    assert((f & 3) & 3 == f & 3) by (bit_vector);
    assert(f < 4 ==> f & 3 == f) by (bit_vector);
}

/// Normalised settings are inside every range.
pub proof fn lemma_normalized_in_range(c: Config)
    ensures
        in_range(normalized(c)),
{
    lemma_normalized_style(c.name_style);
    lemma_normalized_style(c.original_style);
    lemma_normalized_style(c.translation_style);
}

/// Settings already inside every range are left exactly as they are.
pub proof fn lemma_normalize_keeps_in_range(c: Config)
    requires
        in_range(c),
    ensures
        normalized(c) == c,
{
    lemma_normalized_style(c.name_style);
    lemma_normalized_style(c.original_style);
    lemma_normalized_style(c.translation_style);
    assert(normalized_llm(c.translation.llm) == c.translation.llm);
    assert(normalized(c).translation == c.translation);
}

/// Normalising twice is normalising once.
pub proof fn lemma_normalize_idempotent(c: Config)
    ensures
        normalized(normalized(c)) == normalized(c),
{
    lemma_normalized_in_range(c);
    lemma_normalize_keeps_in_range(normalized(c));
}

fn normalize_style(style: &mut TextStyle)
    ensures
        *final(style) == normalized_style(*old(style)),
{
    style.size = text_size(style.size);
    style.outline1_size = outline_size(style.outline1_size);
    style.outline2_size = outline_size(style.outline2_size);
    style.font_style = style.font_style & 0b11;
}

impl Default for Config {
    /// Visible topmost overlay watching the clipboard (300 characters, cached,
    /// source-language guard on), dark half-transparent background with a
    /// 2px border, name and translation shown, default styles, hotkeys,
    /// translation and hook settings, automatic update checks, no stored
    /// window placement.
    fn default() -> (r: Self)
        ensures
            r.schema_version == CURRENT_SCHEMA_VERSION,
            r.window_visible && r.window_topmost && !r.click_through,
            r.clipboard_watch && r.clipboard_max_length == 300 && r.clipboard_cache_enabled,
            r.clipboard_source_language_guard,
            r.background_visible && r.background_color == 0xC8282828u32,
            r.border_visible && r.border_width == 2 && r.border_color == 0x80AAAAAAu32,
            !r.magnetic_mode && r.magnetic_minimize,
            r.show_name && !r.show_original && r.show_translation,
            r.text_align == TextAlign::Left,
            r.name_style.is_default_style(),
            r.original_style.is_default_style(),
            r.translation_style.is_default_style(),
            r.text_margin_x == 10 && r.text_margin_y == 10 && r.name_margin == 5,
            r.shadow_offset_x == 2 && r.shadow_offset_y == 2,
            r.separate_name,
            r.window_x is None && r.window_y is None,
            r.window_width is None && r.window_height is None,
            r.update_check_enabled && r.last_update_check == 0,
            r.hotkeys == HotkeyConfig::default_spec(),
            r.translation.engine@ == "eztrans"@,
            r.translation.eztrans_process_count == 2,
            r.hook.merge_window_ms == 100,
            !r.hook.enabled,
    {
        Config {
            schema_version: CURRENT_SCHEMA_VERSION,
            window_visible: true,
            window_topmost: true,
            click_through: false,
            clipboard_watch: true,
            clipboard_max_length: 300,
            clipboard_cache_enabled: true,
            clipboard_source_language_guard: true,
            background_visible: true,
            background_color: 0xC8282828,
            border_visible: true,
            border_width: 2,
            border_color: 0x80AAAAAA,
            magnetic_mode: false,
            magnetic_minimize: true,
            show_name: true,
            show_original: false,
            show_translation: true,
            text_align: TextAlign::Left,
            name_style: TextStyle::default(),
            original_style: TextStyle::default(),
            translation_style: TextStyle::default(),
            text_margin_x: 10,
            text_margin_y: 10,
            name_margin: 5,
            shadow_offset_x: 2,
            shadow_offset_y: 2,
            separate_name: true,
            window_x: None,
            window_y: None,
            window_width: None,
            window_height: None,
            update_check_enabled: true,
            last_update_check: 0,
            translation: TranslationConfig::default(),
            hotkeys: HotkeyConfig::default(),
            hook: HookConfig::default(),
        }
    }
}

impl Config {
    /// The style of text kind `t`.
    pub open spec fn style_of(&self, t: TextType) -> TextStyle {
        match t {
            TextType::Name => self.name_style,
            TextType::Original => self.original_style,
            TextType::Translation => self.translation_style,
        }
    }

    /// `self` and `other` differ at most in the style of kind `t`.
    pub open spec fn same_but_style(&self, other: &Config, t: TextType) -> bool {
        match t {
            TextType::Name => *self == Config { name_style: self.name_style, ..*other },
            TextType::Original => *self == Config { original_style: self.original_style, ..*other },
            TextType::Translation => *self == Config {
                translation_style: self.translation_style,
                ..*other
            },
        }
    }

    /// Clamps every integer setting into its UI range so that all consumers
    /// see the same values. The LLM sampling parameters, which are floating
    /// point, are clamped by the caller.
    pub fn normalize(&mut self)
        ensures
            *final(self) == normalized(*old(self)),
    {
        self.border_width = border_width(self.border_width);
        self.text_margin_x = margin(self.text_margin_x);
        self.text_margin_y = margin(self.text_margin_y);
        self.name_margin = margin(self.name_margin);
        self.shadow_offset_x = shadow_offset(self.shadow_offset_x);
        self.shadow_offset_y = shadow_offset(self.shadow_offset_y);
        self.translation.eztrans_process_count = eztrans_process_count(
            self.translation.eztrans_process_count,
        );
        normalize_style(&mut self.name_style);
        normalize_style(&mut self.original_style);
        normalize_style(&mut self.translation_style);
        self.translation.llm.max_tokens = llm_max_tokens(self.translation.llm.max_tokens);
        self.translation.llm.debounce_ms = llm_debounce_ms(self.translation.llm.debounce_ms);
    }

    /// Brings a decoded file to the current schema: a newer schema is refused;
    /// a v0 file has its legacy custom API moved into the named list.
    pub fn migrate(&mut self) -> (r: Result<(), ConfigDecodeError>)
        ensures
            old(self).schema_version > CURRENT_SCHEMA_VERSION ==> r == Err::<(), ConfigDecodeError>(
                ConfigDecodeError::UnsupportedSchema {
                    found: old(self).schema_version,
                    supported: CURRENT_SCHEMA_VERSION,
                },
            ) && *final(self) == *old(self),
            old(self).schema_version == CURRENT_SCHEMA_VERSION ==> r is Ok && *final(self)
                == *old(self),
            old(self).schema_version == 0 ==> {
                &&& r is Ok
                &&& final(self).schema_version == CURRENT_SCHEMA_VERSION
                &&& *final(self) == (Config {
                    schema_version: CURRENT_SCHEMA_VERSION,
                    translation: final(self).translation,
                    ..*old(self)
                })
            },
    {
        if self.schema_version > CURRENT_SCHEMA_VERSION {
            return Err(
                ConfigDecodeError::UnsupportedSchema {
                    found: self.schema_version,
                    supported: CURRENT_SCHEMA_VERSION,
                },
            );
        }
        if self.schema_version == 0 {
            self.translation.migrate_legacy_custom_api();
            self.schema_version = 1;
        }
        Ok(())
    }

    pub fn toggle_window_visible(&mut self)
        ensures
            *final(self) == (Config { window_visible: !old(self).window_visible, ..*old(self) }),
    {
        self.window_visible = !self.window_visible;
    }

    pub fn toggle_click_through(&mut self)
        ensures
            *final(self) == (Config { click_through: !old(self).click_through, ..*old(self) }),
    {
        self.click_through = !self.click_through;
    }

    pub fn toggle_clipboard_watch(&mut self)
        ensures
            *final(self) == (Config { clipboard_watch: !old(self).clipboard_watch, ..*old(self) }),
    {
        self.clipboard_watch = !self.clipboard_watch;
    }

    pub fn toggle_background_visible(&mut self)
        ensures
            *final(self) == (Config {
                background_visible: !old(self).background_visible,
                ..*old(self)
            }),
    {
        self.background_visible = !self.background_visible;
    }

    pub fn toggle_border_visible(&mut self)
        ensures
            *final(self) == (Config { border_visible: !old(self).border_visible, ..*old(self) }),
    {
        self.border_visible = !self.border_visible;
    }

    pub fn toggle_magnetic_mode(&mut self)
        ensures
            *final(self) == (Config { magnetic_mode: !old(self).magnetic_mode, ..*old(self) }),
    {
        self.magnetic_mode = !self.magnetic_mode;
    }

    /// The style of text kind `text_type`.
    pub fn get_text_style(&self, text_type: TextType) -> (r: &TextStyle)
        ensures
            *r == self.style_of(text_type),
    {
        match text_type {
            TextType::Name => &self.name_style,
            TextType::Original => &self.original_style,
            TextType::Translation => &self.translation_style,
        }
    }

    /// The style of a body text kind (original or translation), to be
    /// changed in place.
    fn body_style_mut(&mut self, text_type: TextType) -> (r: &mut TextStyle)
        requires
            text_type != TextType::Name,
        ensures
            *r == old(self).style_of(text_type),
            final(self).style_of(text_type) == *final(r),
            final(self).same_but_style(&*old(self), text_type),
    {
        if text_type == TextType::Original {
            &mut self.original_style
        } else {
            &mut self.translation_style
        }
    }

    /// The style of text kind `text_type`, to be changed in place.
    pub fn get_text_style_mut(&mut self, text_type: TextType) -> (r: &mut TextStyle)
        ensures
            *r == old(self).style_of(text_type),
            final(self).style_of(text_type) == *final(r),
            final(self).same_but_style(&*old(self), text_type),
    {
        if text_type == TextType::Name {
            &mut self.name_style
        } else {
            self.body_style_mut(text_type)
        }
    }

    pub fn get_text_color(&self, text_type: TextType, color_type: ColorType) -> (r: u32)
        ensures
            r == self.style_of(text_type).color_of(color_type),
    {
        self.get_text_style(text_type).get_color(color_type)
    }

    /// Sets one colour of one text kind; every other setting is unchanged.
    pub fn set_text_color(&mut self, text_type: TextType, color_type: ColorType, color: u32)
        ensures
            final(self).style_of(text_type).color_of(color_type) == color,
            forall|c: ColorType|
                c != color_type ==> final(self).style_of(text_type).color_of(c) == old(
                    self,
                ).style_of(text_type).color_of(c),
            final(self).style_of(text_type).same_except_colors(&old(self).style_of(text_type)),
            final(self).same_but_style(&*old(self), text_type),
    {
        let style = self.get_text_style_mut(text_type);
        style.set_color(color_type, color);
    }

    pub fn get_text_size(&self, text_type: TextType, size_type: ColorType) -> (r: i32)
        ensures
            r == self.style_of(text_type).size_of(size_type),
    {
        self.get_text_style(text_type).get_size(size_type)
    }

    /// Sets one size of one text kind (the shadow slot has none); every other
    /// setting is unchanged.
    pub fn set_text_size(&mut self, text_type: TextType, size_type: ColorType, size: i32)
        ensures
            size_type != ColorType::Shadow ==> final(self).style_of(text_type).size_of(size_type)
                == size,
            size_type == ColorType::Shadow ==> final(self).style_of(text_type) == old(
                self,
            ).style_of(text_type),
            forall|c: ColorType|
                c != size_type ==> final(self).style_of(text_type).size_of(c) == old(
                    self,
                ).style_of(text_type).size_of(c),
            final(self).style_of(text_type).same_except_sizes(&old(self).style_of(text_type)),
            final(self).same_but_style(&*old(self), text_type),
    {
        let style = self.get_text_style_mut(text_type);
        style.set_size(size_type, size);
    }

    /// Sets one size slot of all three text kinds.
    pub fn set_all_text_size(&mut self, size_type: ColorType, size: i32)
        ensures
            forall|t: TextType|
                size_type != ColorType::Shadow ==> #[trigger] final(self).style_of(t).size_of(
                    size_type,
                ) == size,
            forall|t: TextType, c: ColorType|
                c != size_type ==> #[trigger] final(self).style_of(t).size_of(c) == old(
                    self,
                ).style_of(t).size_of(c),
            forall|t: TextType|
                #[trigger] final(self).style_of(t).same_except_sizes(&old(self).style_of(t)),
            *final(self) == (Config {
                name_style: final(self).name_style,
                original_style: final(self).original_style,
                translation_style: final(self).translation_style,
                ..*old(self)
            }),
    {
        self.name_style.set_size(size_type, size);
        self.original_style.set_size(size_type, size);
        self.translation_style.set_size(size_type, size);
    }

    /// Turns the shadow of one text kind on or off.
    pub fn toggle_shadow(&mut self, text_type: TextType)
        ensures
            final(self).style_of(text_type).shadow_enabled != old(self).style_of(
                text_type,
            ).shadow_enabled,
            final(self).style_of(text_type) == (TextStyle {
                shadow_enabled: !old(self).style_of(text_type).shadow_enabled,
                ..old(self).style_of(text_type)
            }),
            final(self).same_but_style(&*old(self), text_type),
    {
        let style = self.get_text_style_mut(text_type);
        style.shadow_enabled = !style.shadow_enabled;
    }
}

/// Windows path separators.
pub open spec fn is_path_sep(c: char) -> bool {
    c == '\\' || c == '/'
}

/// The length of `p` without its trailing separators.
pub open spec fn trimmed_len(p: Seq<char>) -> nat
    decreases p.len(),
{
    if p.len() > 0 && is_path_sep(p.last()) {
        trimmed_len(p.drop_last())
    } else {
        p.len()
    }
}

/// The start of the last component of `p.take(end)`: one past the last
/// separator before `end`, or 0.
pub open spec fn component_start(p: Seq<char>, end: int) -> int
    decreases end,
{
    if end <= 0 {
        0
    } else if is_path_sep(p[end - 1]) {
        end
    } else {
        component_start(p, end - 1)
    }
}

/// The last component of `p` (trailing separators ignored) and the end of
/// the path that precedes it.
pub open spec fn last_component(p: Seq<char>) -> (Seq<char>, int) {
    let end = trimmed_len(p) as int;
    let start = component_start(p, end);
    (p.subrange(start, end), start)
}

/// `p` names `leaf` (in any ASCII case) directly inside a folder named
/// `eztrans_dll` (in any ASCII case).
pub open spec fn bundled_path_spec(p: Seq<char>, leaf: Seq<char>) -> bool {
    let (name, start) = last_component(p);
    let (parent, _) = last_component(p.take(start));
    name.len() > 0 && eq_ignore_case(name, leaf) && parent.len() > 0 && eq_ignore_case(
        parent,
        "eztrans_dll"@,
    )
}

proof fn lemma_trimmed_len_bound(p: Seq<char>)
    ensures
        trimmed_len(p) <= p.len(),
        trimmed_len(p) > 0 ==> !is_path_sep(p[trimmed_len(p) - 1]),
    decreases p.len(),
{
    if p.len() > 0 && is_path_sep(p.last()) {
        lemma_trimmed_len_bound(p.drop_last());
    }
}

proof fn lemma_component_start_bound(p: Seq<char>, end: int)
    requires
        end <= p.len(),
    ensures
        0 <= component_start(p, end) <= end || end < 0,
        forall|k: int| component_start(p, end) <= k < end ==> !is_path_sep(#[trigger] p[k]),
        component_start(p, end) > 0 ==> is_path_sep(p[component_start(p, end) - 1]),
    decreases end,
{
    if end > 0 && !is_path_sep(p[end - 1]) {
        lemma_component_start_bound(p, end - 1);
    }
}

/// Splits off the last component of `v` (trailing separators ignored).
fn split_last_component(v: &Vec<char>) -> (r: (usize, usize))
    ensures
        r.1 as int == trimmed_len(v@),
        r.0 as int == component_start(v@, r.1 as int),
        r.0 <= r.1 <= v@.len(),
{
    proof {
        lemma_trimmed_len_bound(v@);
    }
    let mut end = v.len();
    assert(v@.take(v@.len() as int) =~= v@);
    while end > 0 && (v[end - 1] == '\\' || v[end - 1] == '/')
        invariant
            end <= v@.len(),
            trimmed_len(v@) == trimmed_len(v@.take(end as int)),
        decreases end,
    {
        assert(v@.take(end as int).drop_last() =~= v@.take(end - 1));
        end = end - 1;
    }
    assert(trimmed_len(v@.take(end as int)) == end);
    let mut start = end;
    while start > 0 && !(v[start - 1] == '\\' || v[start - 1] == '/')
        invariant
            start <= end <= v@.len(),
            component_start(v@, end as int) == component_start(v@, start as int),
        decreases start,
    {
        start = start - 1;
    }
    (start, end)
}

/// Whether `path` is `<...>/eztrans_dll/<leaf>`, comparing both names
/// ignoring ASCII case.
pub fn is_bundled_eztrans_path(path: &str, leaf: &str) -> (r: bool)
    ensures
        r == bundled_path_spec(path@, leaf@),
{
    let v = chars_of(path);
    let (start, end) = split_last_component(&v);
    if start == end {
        return false;
    }
    let name = sub_chars(&v, start, end);
    let leaf_chars = chars_of(leaf);
    if !crate::text::chars_eq_ignore_case(&name, &leaf_chars) {
        return false;
    }
    let head = sub_chars(&v, 0, start);
    let (pstart, pend) = split_last_component(&head);
    if pstart == pend {
        return false;
    }
    let parent = sub_chars(&head, pstart, pend);
    let dll = chars_of("eztrans_dll");
    crate::text::chars_eq_ignore_case(&parent, &dll)
}

/// The name a corrupt settings file `file_name` is set aside under, at
/// `timestamp` (Unix seconds): `<name>.corrupt-<timestamp>`, and
/// `-<attempt>` appended from the second attempt on.
pub open spec fn quarantine_name_spec(file_name: Seq<char>, timestamp: u64, attempt: u16) -> Seq<
    char,
> {
    let base = file_name + ".corrupt-"@ + digits_of(timestamp as nat);
    if attempt == 0 {
        base
    } else {
        base + seq!['-'] + digits_of(attempt as nat)
    }
}

pub fn quarantine_file_name(file_name: &str, timestamp: u64, attempt: u16) -> (r: String)
    ensures
        r@ == quarantine_name_spec(file_name@, timestamp, attempt),
{
    let mut name = owned(file_name);
    append_str(&mut name, ".corrupt-");
    push_digits(&mut name, timestamp);
    if attempt != 0 {
        append_str(&mut name, "-");
        push_digits(&mut name, attempt as u64);
        proof {
            reveal_strlit("-");
        }
    }
    name
}

} // verus!
