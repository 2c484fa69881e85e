//! Translation settings: engine and languages, engine credentials, the LLM
//! settings, and the named custom JSON REST APIs with their selection rules.
use crate::text::{
    chars_of, eq_ignore_case, lowercase_is, lowers_to, owned, push_char, str_eq, string_from_chars,
    trim, trimmed,
};
use vstd::prelude::*;

verus! {

/// One post-processing replacement applied to EzTrans output.
#[derive(Clone, Debug, Default, PartialEq, Eq, Hash)]
pub struct EzTransPostprocessEntry {
    pub source: String,
    pub target: String,
}

/// One fixed glossary entry for LLM translation.
#[derive(Clone, Debug, Default, PartialEq, Eq)]
pub struct LlmGlossaryEntry {
    pub source: String,
    pub target: String,
}

/// A custom JSON REST translation API.
///
/// Strings in the request template may use `{text}`, `{source}`, `{target}`
/// and `{api_key}`; an empty response path takes the whole response body.
#[derive(Clone, Debug, PartialEq, Eq)]
pub struct CustomApiConfig {
    /// Display name; must be non-empty and unique.
    pub name: String,
    /// Full URL the POST request is sent to.
    pub url: String,
    /// Optional API key.
    pub api_key: String,
    /// Header carrying the key; empty for none.
    pub auth_header: String,
    /// Scheme put before the key; empty for the bare key.
    pub auth_scheme: String,
    /// Extra headers as a JSON object.
    pub headers: String,
    /// JSON request body template.
    pub request_template: String,
    /// JSON path of the translated text (`/data/text` or `data.text`).
    pub response_path: String,
}

pub open spec fn default_request_template() -> Seq<char> {
    "{\"text\":\"{text}\",\"source\":\"{source}\",\"target\":\"{target}\"}"@
}

impl CustomApiConfig {
    /// The default API: no name, URL or key; `Authorization: Bearer`, no
    /// extra headers, a text/source/target template and `translatedText`.
    pub open spec fn is_default_spec(&self) -> bool {
        &&& self.name@.len() == 0
        &&& self.url@.len() == 0
        &&& self.api_key@.len() == 0
        &&& self.auth_header@ == "Authorization"@
        &&& self.auth_scheme@ == "Bearer"@
        &&& self.headers@ == "{}"@
        &&& self.request_template@ == default_request_template()
        &&& self.response_path@ == "translatedText"@
    }

    /// Whether this is the default API (then it is not written to the file).
    pub fn is_default(&self) -> (r: bool)
        ensures
            r == self.is_default_spec(),
    {
        proof {
            reveal_strlit("Authorization");
            reveal_strlit("Bearer");
            reveal_strlit("{}");
            reveal_strlit("{\"text\":\"{text}\",\"source\":\"{source}\",\"target\":\"{target}\"}");
            reveal_strlit("translatedText");
        }
        self.name.as_str().is_empty() && self.url.as_str().is_empty()
            && self.api_key.as_str().is_empty() && str_eq(self.auth_header.as_str(), "Authorization")
            && str_eq(self.auth_scheme.as_str(), "Bearer") && str_eq(self.headers.as_str(), "{}")
            && str_eq(
            self.request_template.as_str(),
            "{\"text\":\"{text}\",\"source\":\"{source}\",\"target\":\"{target}\"}",
        ) && str_eq(self.response_path.as_str(), "translatedText")
    }

    /// A copy with equal contents.
    pub fn clone_api(&self) -> (r: CustomApiConfig)
        ensures
            r.view_eq(self),
    {
        CustomApiConfig {
            name: self.name.clone(),
            url: self.url.clone(),
            api_key: self.api_key.clone(),
            auth_header: self.auth_header.clone(),
            auth_scheme: self.auth_scheme.clone(),
            headers: self.headers.clone(),
            request_template: self.request_template.clone(),
            response_path: self.response_path.clone(),
        }
    }

    /// Every field has the same characters in `self` and `other`.
    pub open spec fn view_eq(&self, other: &CustomApiConfig) -> bool {
        &&& self.name@ == other.name@
        &&& self.url@ == other.url@
        &&& self.api_key@ == other.api_key@
        &&& self.auth_header@ == other.auth_header@
        &&& self.auth_scheme@ == other.auth_scheme@
        &&& self.headers@ == other.headers@
        &&& self.request_template@ == other.request_template@
        &&& self.response_path@ == other.response_path@
    }
}

impl Default for CustomApiConfig {
    fn default() -> (r: Self)
        ensures
            r.is_default_spec(),
    {
        proof {
            reveal_strlit("Authorization");
            reveal_strlit("Bearer");
            reveal_strlit("{}");
            reveal_strlit("{\"text\":\"{text}\",\"source\":\"{source}\",\"target\":\"{target}\"}");
            reveal_strlit("translatedText");
        }
        CustomApiConfig {
            name: String::new(),
            url: String::new(),
            api_key: String::new(),
            auth_header: owned("Authorization"),
            auth_scheme: owned("Bearer"),
            headers: owned("{}"),
            request_template: owned(
                "{\"text\":\"{text}\",\"source\":\"{source}\",\"target\":\"{target}\"}",
            ),
            response_path: owned("translatedText"),
        }
    }
}

/// Settings kept per LLM provider while another provider is active.
///
/// The four sampling parameters are `f32` values held as their IEEE-754 bit
/// patterns; this crate only carries them, it never interprets them.
#[derive(Clone, Debug, PartialEq, Eq)]
pub struct LlmProviderProfile {
    pub model: String,
    pub api_key: String,
    pub base_url: String,
    pub system_prompt: String,
    pub temperature_bits: u32,
    pub top_p_bits: u32,
    pub frequency_penalty_bits: u32,
    pub presence_penalty_bits: u32,
    pub max_tokens: u32,
    pub reasoning_effort: Option<String>,
    pub glossary: Vec<LlmGlossaryEntry>,
    pub debounce_ms: u32,
}

/// LLM translation settings (OpenAI-compatible, Anthropic, Gemini, Grok,
/// OpenRouter).
///
/// The sampling parameters (temperature, top-p and the two penalties) are
/// `f32` values held as their IEEE-754 bit patterns; this crate only carries
/// them, it never interprets them.
#[derive(Clone, Debug, PartialEq, Eq)]
pub struct LlmConfig {
    /// Provider name: `openai`, `anthropic`, `gemini`, `grok` or `openrouter`.
    pub provider: String,
    /// Model id; empty for the provider default.
    pub model: String,
    pub api_key: String,
    /// API base URL; empty for the provider's official URL.
    pub base_url: String,
    /// System prompt (`{source}` and `{target}` are substituted).
    pub system_prompt: String,
    pub temperature_bits: u32,
    pub top_p_bits: u32,
    pub frequency_penalty_bits: u32,
    pub presence_penalty_bits: u32,
    /// Largest response in tokens.
    pub max_tokens: u32,
    /// Reasoning effort name; none for the model default.
    pub reasoning_effort: Option<String>,
    /// Fixed translations (character names, proper nouns).
    pub glossary: Vec<LlmGlossaryEntry>,
    /// Automatic clipboard translation debounce (ms); 0 disables it.
    pub debounce_ms: u32,
    /// Settings of the providers not currently selected, by provider name
    /// (each name at most once).
    pub provider_profiles: Vec<(String, LlmProviderProfile)>,
}

/// The default system prompt.
pub open spec fn default_system_prompt() -> Seq<char> {
    "You are a translator. Translate the user text from {source} to {target}. Output only the translation."@
}

/// `1.0f32` as bits.
pub const F32_ONE_BITS: u32 = 0x3F80_0000;

impl Default for LlmConfig {
    fn default() -> (r: Self)
        ensures
            r.provider@ == "openai"@,
            r.model@.len() == 0,
            r.api_key@.len() == 0,
            r.base_url@.len() == 0,
            r.system_prompt@ == default_system_prompt(),
            r.temperature_bits == F32_ONE_BITS,
            r.top_p_bits == F32_ONE_BITS,
            r.frequency_penalty_bits == 0,
            r.presence_penalty_bits == 0,
            r.max_tokens == 1024,
            r.reasoning_effort is None,
            r.glossary@.len() == 0,
            r.debounce_ms == 300,
            r.provider_profiles@.len() == 0,
    {
        LlmConfig {
            provider: owned("openai"),
            model: String::new(),
            api_key: String::new(),
            base_url: String::new(),
            system_prompt: owned(
                "You are a translator. Translate the user text from {source} to {target}. Output only the translation.",
            ),
            temperature_bits: F32_ONE_BITS,
            top_p_bits: F32_ONE_BITS,
            frequency_penalty_bits: 0,
            presence_penalty_bits: 0,
            max_tokens: 1024,
            reasoning_effort: None,
            glossary: Vec::new(),
            debounce_ms: 300,
            provider_profiles: Vec::new(),
        }
    }
}

impl LlmConfig {
    /// Clamps the integer limits of the active settings and of every saved
    /// provider profile (the sampling parameters are clamped by the caller).
    pub fn normalize_limits(&mut self)
        ensures
            final(self).max_tokens == crate::limits::clamp_spec(
                old(self).max_tokens as int,
                crate::limits::LLM_MAX_TOKENS_MIN as int,
                crate::limits::LLM_MAX_TOKENS_MAX as int,
            ),
            final(self).debounce_ms == crate::limits::clamp_spec(
                old(self).debounce_ms as int,
                crate::limits::LLM_DEBOUNCE_MS_MIN as int,
                crate::limits::LLM_DEBOUNCE_MS_MAX as int,
            ),
            final(self).provider_profiles@.len() == old(self).provider_profiles@.len(),
            forall|i: int|
                0 <= i < final(self).provider_profiles@.len() ==> {
                    let (n, p) = #[trigger] final(self).provider_profiles@[i];
                    let (n0, p0) = old(self).provider_profiles@[i];
                    &&& n == n0
                    &&& p.max_tokens == crate::limits::clamp_spec(
                        p0.max_tokens as int,
                        crate::limits::LLM_MAX_TOKENS_MIN as int,
                        crate::limits::LLM_MAX_TOKENS_MAX as int,
                    )
                    &&& p.debounce_ms == crate::limits::clamp_spec(
                        p0.debounce_ms as int,
                        crate::limits::LLM_DEBOUNCE_MS_MIN as int,
                        crate::limits::LLM_DEBOUNCE_MS_MAX as int,
                    )
                    &&& p == LlmProviderProfile {
                        max_tokens: p.max_tokens,
                        debounce_ms: p.debounce_ms,
                        ..p0
                    }
                },
    {
        self.max_tokens = crate::limits::llm_max_tokens(self.max_tokens);
        self.debounce_ms = crate::limits::llm_debounce_ms(self.debounce_ms);
        let ghost orig = self.provider_profiles@;
        let ghost mt = self.max_tokens;
        let ghost db = self.debounce_ms;
        let n = self.provider_profiles.len();
        let mut i: usize = 0;
        while i < n
            invariant
                self.max_tokens == mt,
                self.debounce_ms == db,
                n == orig.len(),
                self.provider_profiles@.len() == n,
                i <= n,
                forall|k: int|
                    i <= k < n ==> #[trigger] self.provider_profiles@[k] == orig[k],
                forall|k: int|
                    0 <= k < i ==> {
                        let (nm, p) = #[trigger] self.provider_profiles@[k];
                        let (n0, p0) = orig[k];
                        &&& nm == n0
                        &&& p.max_tokens == crate::limits::clamp_spec(
                            p0.max_tokens as int,
                            crate::limits::LLM_MAX_TOKENS_MIN as int,
                            crate::limits::LLM_MAX_TOKENS_MAX as int,
                        )
                        &&& p.debounce_ms == crate::limits::clamp_spec(
                            p0.debounce_ms as int,
                            crate::limits::LLM_DEBOUNCE_MS_MIN as int,
                            crate::limits::LLM_DEBOUNCE_MS_MAX as int,
                        )
                        &&& p == LlmProviderProfile {
                            max_tokens: p.max_tokens,
                            debounce_ms: p.debounce_ms,
                            ..p0
                        }
                    },
            decreases n - i,
        {
            let mut entry = self.provider_profiles.remove(i);
            entry.1.max_tokens = crate::limits::llm_max_tokens(entry.1.max_tokens);
            entry.1.debounce_ms = crate::limits::llm_debounce_ms(entry.1.debounce_ms);
            self.provider_profiles.insert(i, entry);
            i = i + 1;
        }
    }
}

/// DeepL multi-key strategy.
#[derive(Clone, Copy, Debug, PartialEq, Eq, Structural)]
pub enum DeepLStrategy {
    Failover,
    RoundRobin,
}

/// Why the active custom API cannot be determined.
#[derive(Clone, Debug, PartialEq, Eq)]
pub enum CustomApiSelectionError {
    /// A custom API has an empty (or white-space) name.
    EmptyName,
    /// Two custom APIs share a name.
    DuplicateName(String),
    /// No custom API has the selected name.
    NotFound(String),
}

/// [`CustomApiSelectionError`] with names as character sequences.
pub enum SelectionFailure {
    EmptyName,
    DuplicateName(Seq<char>),
    NotFound(Seq<char>),
}

impl CustomApiSelectionError {
    pub open spec fn failure(&self) -> SelectionFailure {
        match self {
            CustomApiSelectionError::EmptyName => SelectionFailure::EmptyName,
            CustomApiSelectionError::DuplicateName(n) => SelectionFailure::DuplicateName(n@),
            CustomApiSelectionError::NotFound(n) => SelectionFailure::NotFound(n@),
        }
    }
}

/// A language code the translator does not know.
#[derive(Clone, Debug, PartialEq, Eq)]
pub struct InvalidLanguageCode(pub String);

/// Translation settings.
#[derive(Clone, Debug, PartialEq, Eq)]
pub struct TranslationConfig {
    /// Engine: `eztrans`, `google`, `deepl`, `papago`, `llm`, `custom`.
    pub engine: String,
    /// Source language (ISO 639-1).
    pub source_lang: String,
    /// Target language (ISO 639-1).
    pub target_lang: String,
    /// EzTrans flat dictionary path.
    pub eztrans_dictionary_path: String,
    /// EzTrans Ehnd filter / user dictionary path.
    pub eztrans_ehnd_path: String,
    /// The legacy `eztrans_dat_path` value, present only until migration.
    pub eztrans_dat_path: Option<String>,
    /// EzTrans helper processes kept for file translation.
    pub eztrans_process_count: u32,
    /// Replacements applied to EzTrans output only.
    pub eztrans_postprocess_dictionary: Vec<EzTransPostprocessEntry>,
    /// Single DeepL key, used only when `deepl_keys` has no usable key.
    pub deepl_api_key: String,
    /// DeepL keys for multi-key fallback.
    pub deepl_keys: Vec<String>,
    /// DeepL multi-key strategy: `failover` or `round-robin`.
    pub deepl_strategy: String,
    pub papago_client_id: String,
    pub papago_client_secret: String,
    pub mys_translater_url: String,
    pub mys_translater_api_key: String,
    pub llm: LlmConfig,
    /// The single custom API of earlier versions; migrated into `custom_apis`.
    pub custom: CustomApiConfig,
    /// Selected custom API name; empty for the first one.
    pub custom_api: String,
    /// Named custom APIs.
    pub custom_apis: Vec<CustomApiConfig>,
}

/// The names of a list of custom APIs.
pub open spec fn api_names(apis: Seq<CustomApiConfig>) -> Seq<Seq<char>> {
    apis.map_values(|a: CustomApiConfig| a.name@)
}

/// The name at `i` is blank or repeats an earlier name.
pub open spec fn name_is_bad(names: Seq<Seq<char>>, i: int) -> bool {
    trim(names[i]).len() == 0 || exists|j: int| 0 <= j < i && names[j] == names[i]
}

/// The outcome of validating the names: the first bad name decides the error.
pub open spec fn validation_ok(names: Seq<Seq<char>>, r: Result<(), SelectionFailure>) -> bool {
    match r {
        Ok(()) => forall|i: int| 0 <= i < names.len() ==> !#[trigger] name_is_bad(names, i),
        Err(f) => exists|i: int|
            0 <= i < names.len() && #[trigger] name_is_bad(names, i) && (forall|k: int|
                0 <= k < i ==> !#[trigger] name_is_bad(names, k)) && f == if trim(names[i]).len()
                == 0 {
                SelectionFailure::EmptyName
            } else {
                SelectionFailure::DuplicateName(names[i])
            },
    }
}

/// The index of the first API named `name`.
pub open spec fn first_named(names: Seq<Seq<char>>, name: Seq<char>, i: int) -> bool {
    0 <= i < names.len() && names[i] == name && forall|k: int| 0 <= k < i ==> names[k] != name
}

pub open spec fn has_name(names: Seq<Seq<char>>, name: Seq<char>) -> bool {
    exists|i: int| 0 <= i < names.len() && names[i] == name
}

/// The `Ok` value and error of `active_custom_api_index` with the
/// validation outcome `v`.
pub open spec fn active_index_ok(t: TranslationConfig, v: Result<(), SelectionFailure>, r: Result<
    usize,
    SelectionFailure,
>) -> bool {
    let names = api_names(t.custom_apis@);
    if names.len() == 0 {
        r == Ok::<usize, SelectionFailure>(0)
    } else {
        &&& validation_ok(names, v)
        &&& match v {
            Err(f) => r == Err::<usize, SelectionFailure>(f),
            Ok(()) => if t.custom_api@.len() == 0 {
                r == Ok::<usize, SelectionFailure>(0)
            } else {
                match r {
                    Ok(i) => first_named(names, t.custom_api@, i as int),
                    Err(f) => !has_name(names, t.custom_api@) && f == SelectionFailure::NotFound(
                        t.custom_api@,
                    ),
                }
            },
        }
    }
}

pub open spec fn index_result_failure(r: Result<usize, CustomApiSelectionError>) -> Result<
    usize,
    SelectionFailure,
> {
    match r {
        Ok(i) => Ok(i),
        Err(e) => Err(e.failure()),
    }
}

/// The keys used for DeepL: the non-empty entries of `keys`, or else the
/// legacy key when that is non-empty.
pub open spec fn effective_keys(keys: Seq<Seq<char>>, legacy: Seq<char>) -> Seq<Seq<char>> {
    let f = keys.filter(|k: Seq<char>| k.len() > 0);
    if f.len() == 0 && legacy.len() > 0 {
        seq![legacy]
    } else {
        f
    }
}

/// Windows path separators.
pub open spec fn is_sep(c: char) -> bool {
    c == '\\' || c == '/'
}

/// `s` without trailing separators.
pub open spec fn strip_trailing_seps(s: Seq<char>) -> Seq<char>
    decreases s.len(),
{
    if s.len() > 0 && is_sep(s.last()) {
        strip_trailing_seps(s.drop_last())
    } else {
        s
    }
}

/// The legacy `Dat` folder path turned into its sibling `Ehnd` folder: when
/// the last path component (trailing separators ignored) is `Dat` in any
/// ASCII case, it is replaced by `Ehnd` joined with a backslash to the parent;
/// any other path is kept.
pub open spec fn dat_to_ehnd_spec(p: Seq<char>) -> Seq<char> {
    let t = strip_trailing_seps(p);
    let dat = seq!['D', 'a', 't'];
    let ehnd = seq!['E', 'h', 'n', 'd'];
    if t.len() >= 3 && eq_ignore_case(t.subrange(t.len() - 3, t.len() as int), dat) && (t.len()
        == 3 || is_sep(t[t.len() - 4])) {
        if t.len() == 3 {
            ehnd
        } else if t.len() == 4 {
            t.take(1) + ehnd
        } else {
            t.take(t.len() - 4) + seq!['\\'] + ehnd
        }
    } else {
        p
    }
}

fn dat_to_sibling_ehnd(dat_path: &str) -> (r: String)
    ensures
        r@ == dat_to_ehnd_spec(dat_path@),
{
    let v = chars_of(dat_path);
    let mut end = v.len();
    assert(v@.take(v@.len() as int) =~= v@);
    while end > 0 && (v[end - 1] == '\\' || v[end - 1] == '/')
        invariant
            end <= v.len(),
            v@ == dat_path@,
            strip_trailing_seps(v@) == strip_trailing_seps(v@.take(end as int)),
        decreases end,
    {
        assert(v@.take(end as int).drop_last() =~= v@.take(end - 1));
        end = end - 1;
    }
    let ghost t = v@.take(end as int);
    assert(v@.take(v@.len() as int) =~= v@);
    assert(strip_trailing_seps(t) == t);
    let is_dat = end >= 3 && {
        let last = crate::text::sub_chars(&v, end - 3, end);
        crate::text::chars_eq_ignore_case(&last, &vec!['D', 'a', 't'])
    } && (end == 3 || v[end - 4] == '\\' || v[end - 4] == '/');
    if is_dat {
        assert(t.subrange(t.len() - 3, t.len() as int) =~= v@.subrange(end - 3, end as int));
        let mut out = if end == 3 {
            String::new()
        } else if end == 4 {
            string_from_chars(&v, 0, 1)
        } else {
            let mut head = string_from_chars(&v, 0, end - 4);
            push_char(&mut head, '\\');
            head
        };
        let ghost prefix = out@;
        push_char(&mut out, 'E');
        push_char(&mut out, 'h');
        push_char(&mut out, 'n');
        push_char(&mut out, 'd');
        assert(out@ =~= prefix + seq!['E', 'h', 'n', 'd']);
        if end == 4 {
            assert(prefix =~= t.take(1));
        } else if end > 4 {
            assert(prefix =~= t.take(t.len() - 4) + seq!['\\']);
        } else {
            assert(prefix =~= Seq::<char>::empty());
        }
        out
    } else {
        proof {
            if t.len() >= 3 {
                assert(t.subrange(t.len() - 3, t.len() as int) =~= v@.subrange(
                    end - 3,
                    end as int,
                ));
            }
        }
        owned(dat_path)
    }
}

/// The legacy index of a language code (after lower-casing): ko/kor 1,
/// en/eng 2, zh/zho/zh-cn 3, zh-tw 4, anything else (ja/jpn among them) 0.
pub open spec fn lang_index(lang: Seq<char>) -> u8 {
    if lowers_to(lang, "ko"@) || lowers_to(lang, "kor"@) {
        1u8
    } else if lowers_to(lang, "en"@) || lowers_to(lang, "eng"@) {
        2u8
    } else if lowers_to(lang, "zh"@) || lowers_to(lang, "zho"@) || lowers_to(lang, "zh-cn"@) {
        3u8
    } else if lowers_to(lang, "zh-tw"@) {
        4u8
    } else {
        0u8
    }
}

impl TranslationConfig {
    pub open spec fn names(&self) -> Seq<Seq<char>> {
        api_names(self.custom_apis@)
    }

    /// Checks that every custom API name is non-blank and unique; the first
    /// offending name (in list order) decides the error.
    pub fn validate_custom_api_names(&self) -> (r: Result<(), CustomApiSelectionError>)
        ensures
            validation_ok(
                self.names(),
                match r {
                    Ok(()) => Ok(()),
                    Err(e) => Err(e.failure()),
                },
            ),
    {
        let ghost names = self.names();
        let n = self.custom_apis.len();
        let mut i: usize = 0;
        while i < n
            invariant
                n == self.custom_apis@.len(),
                names == self.names(),
                names.len() == n,
                i <= n,
                forall|k: int| 0 <= k < i ==> !#[trigger] name_is_bad(names, k),
            decreases n - i,
        {
            let name = &self.custom_apis[i].name;
            assert(names[i as int] == name@);
            let t = trimmed(name.as_str());
            if t.as_str().is_empty() {
                assert(name_is_bad(names, i as int));
                return Err(CustomApiSelectionError::EmptyName);
            }
            let mut j: usize = 0;
            while j < i
                invariant
                    n == self.custom_apis@.len(),
                    names == self.names(),
                    names.len() == n,
                    j <= i < n,
                    names[i as int] == name@,
                    trim(names[i as int]).len() != 0,
                    forall|k: int| 0 <= k < i ==> !#[trigger] name_is_bad(names, k),
                    forall|k: int| 0 <= k < j ==> names[k] != names[i as int],
                decreases i - j,
            {
                assert(names[j as int] == self.custom_apis@[j as int].name@);
                if str_eq(self.custom_apis[j].name.as_str(), name.as_str()) {
                    assert(name_is_bad(names, i as int));
                    return Err(CustomApiSelectionError::DuplicateName(name.clone()));
                }
                j = j + 1;
            }
            i = i + 1;
        }
        Ok(())
    }

    fn position_of(&self, name: &str) -> (r: Option<usize>)
        ensures
            match r {
                Some(i) => first_named(self.names(), name@, i as int),
                None => !has_name(self.names(), name@),
            },
    {
        let n = self.custom_apis.len();
        let mut i: usize = 0;
        while i < n
            invariant
                n == self.custom_apis@.len(),
                self.names().len() == n,
                i <= n,
                forall|k: int| 0 <= k < i ==> self.names()[k] != name@,
            decreases n - i,
        {
            assert(self.names()[i as int] == self.custom_apis@[i as int].name@);
            if str_eq(self.custom_apis[i].name.as_str(), name) {
                return Some(i);
            }
            i = i + 1;
        }
        None
    }

    /// Index of the selected custom API: 0 when there is no list or no
    /// selection; the validation error; or `NotFound` for an unknown name.
    pub fn active_custom_api_index(&self) -> (r: Result<usize, CustomApiSelectionError>)
        ensures
            exists|v: Result<(), SelectionFailure>|
                #[trigger] active_index_ok(*self, v, index_result_failure(r)),
    {
        if self.custom_apis.len() == 0 {
            assert(active_index_ok(*self, Ok(()), Ok::<usize, SelectionFailure>(0)));
            return Ok(0);
        }
        let v = self.validate_custom_api_names();
        match v {
            Err(e) => {
                assert(active_index_ok(*self, Err(e.failure()), Err::<usize, SelectionFailure>(e.failure())));
                Err(e)
            },
            Ok(()) => {
                if self.custom_api.as_str().is_empty() {
                    assert(active_index_ok(*self, Ok(()), Ok::<usize, SelectionFailure>(0)));
                    return Ok(0);
                }
                match self.position_of(self.custom_api.as_str()) {
                    Some(i) => {
                        assert(active_index_ok(*self, Ok(()), Ok::<usize, SelectionFailure>(i)));
                        Ok(i)
                    },
                    None => {
                        let e = CustomApiSelectionError::NotFound(self.custom_api.clone());
                        assert(active_index_ok(*self, Ok(()), Err::<usize, SelectionFailure>(e.failure())));
                        Err(e)
                    },
                }
            },
        }
    }

    /// The selected custom API; the legacy single API when the list is empty.
    pub fn active_custom_api(&self) -> (r: Result<&CustomApiConfig, CustomApiSelectionError>)
        ensures
            self.custom_apis@.len() == 0 ==> r == Ok::<&CustomApiConfig, CustomApiSelectionError>(
                &self.custom,
            ),
            self.custom_apis@.len() > 0 ==> exists|
                v: Result<(), SelectionFailure>,
                ri: Result<usize, SelectionFailure>,
            |
                #[trigger] active_index_ok(*self, v, ri) && match (ri, r) {
                    (Ok(i), Ok(a)) => *a == self.custom_apis@[i as int],
                    (Err(f), Err(e)) => e.failure() == f,
                    _ => false,
                },
    {
        if self.custom_apis.len() == 0 {
            return Ok(&self.custom);
        }
        let ri = self.active_custom_api_index();
        let ghost v = choose|v: Result<(), SelectionFailure>| #[trigger] active_index_ok(*self, v, index_result_failure(ri));
        assert(active_index_ok(*self, v, index_result_failure(ri)));
        match ri {
            Ok(i) => {
                assert(i < self.custom_apis@.len());
                let r = Ok(&self.custom_apis[i]);
                assert(active_index_ok(*self, v, Ok::<usize, SelectionFailure>(i)));
                r
            },
            Err(e) => {
                assert(active_index_ok(*self, v, Err::<usize, SelectionFailure>(e.failure())));
                Err(e)
            },
        }
    }

    /// Selects the custom API named `name`. Returns whether the selection
    /// changed; with no list, only the legacy API's own name is accepted.
    pub fn select_custom_api(&mut self, name: &str) -> (r: Result<bool, CustomApiSelectionError>)
        ensures
            old(self).custom_apis@.len() == 0 ==> *final(self) == *old(self) && match r {
                Ok(changed) => !changed && name@ == old(self).custom.name@,
                Err(e) => name@ != old(self).custom.name@ && e.failure() == SelectionFailure::NotFound(
                    name@,
                ),
            },
            old(self).custom_apis@.len() > 0 ==> match r {
                Err(e) => *final(self) == *old(self) && exists|v: Result<(), SelectionFailure>|
                    validation_ok(old(self).names(), v) && match v {
                        Err(f) => e.failure() == f,
                        Ok(()) => !has_name(old(self).names(), name@) && e.failure()
                            == SelectionFailure::NotFound(name@),
                    },
                Ok(changed) => validation_ok(old(self).names(), Ok(())) && has_name(
                    old(self).names(),
                    name@,
                ) && changed == (old(self).custom_api@ != name@) && final(self).custom_api@
                    == name@ && *final(self) == (TranslationConfig {
                    custom_api: final(self).custom_api,
                    ..*old(self)
                }),
            },
    {
        if self.custom_apis.len() == 0 {
            if str_eq(name, self.custom.name.as_str()) {
                return Ok(false);
            }
            return Err(CustomApiSelectionError::NotFound(owned(name)));
        }
        let v = self.validate_custom_api_names();
        match v {
            Err(e) => {
                return Err(e);
            },
            Ok(()) => {},
        }
        if self.position_of(name).is_none() {
            return Err(CustomApiSelectionError::NotFound(owned(name)));
        }
        if str_eq(self.custom_api.as_str(), name) {
            return Ok(false);
        }
        self.custom_api = owned(name);
        Ok(true)
    }

    /// Moves the single custom API of settings v0 into the named list: a
    /// non-default legacy API becomes the only list entry and the selection;
    /// with a list, the legacy API is reset and an empty selection becomes the
    /// first name.
    pub fn migrate_legacy_custom_api(&mut self)
        ensures
            old(self).custom_apis@.len() == 0 && !old(self).custom.is_default_spec() ==> {
                &&& final(self).custom.is_default_spec()
                &&& final(self).custom_apis@.len() == 1
                &&& final(self).custom_apis@[0] == old(self).custom
                &&& final(self).custom_api@ == old(self).custom.name@
            },
            old(self).custom_apis@.len() == 0 && old(self).custom.is_default_spec() ==> *final(self)
                == *old(self),
            old(self).custom_apis@.len() > 0 ==> {
                &&& final(self).custom.is_default_spec()
                &&& final(self).custom_apis == old(self).custom_apis
                &&& final(self).custom_api@ == if old(self).custom_api@.len() == 0 {
                    old(self).custom_apis@[0].name@
                } else {
                    old(self).custom_api@
                }
            },
            final(self).engine == old(self).engine,
            final(self).llm == old(self).llm,
            final(self).deepl_keys == old(self).deepl_keys,
    {
        if self.custom_apis.len() == 0 && !self.custom.is_default() {
            let mut legacy = CustomApiConfig::default();
            std::mem::swap(&mut legacy, &mut self.custom);
            self.custom_api = legacy.name.clone();
            self.custom_apis.push(legacy);
        } else if self.custom_apis.len() > 0 {
            self.custom = CustomApiConfig::default();
            if self.custom_api.as_str().is_empty() {
                self.custom_api = self.custom_apis[0].name.clone();
            }
        }
    }

    /// Turns the legacy `eztrans_dat_path` into `eztrans_ehnd_path`; an Ehnd
    /// path the user already set is kept. The legacy value is consumed either way.
    pub fn migrate_legacy_ehnd_path(&mut self)
        ensures
            final(self).eztrans_dat_path is None,
            final(self).eztrans_ehnd_path@ == match old(self).eztrans_dat_path {
                Some(dat) => if trim(old(self).eztrans_ehnd_path@).len() == 0 {
                    dat_to_ehnd_spec(dat@)
                } else {
                    old(self).eztrans_ehnd_path@
                },
                None => old(self).eztrans_ehnd_path@,
            },
            *final(self) == (TranslationConfig {
                eztrans_dat_path: final(self).eztrans_dat_path,
                eztrans_ehnd_path: final(self).eztrans_ehnd_path,
                ..*old(self)
            }),
    {
        let mut legacy: Option<String> = None;
        std::mem::swap(&mut legacy, &mut self.eztrans_dat_path);
        match legacy {
            None => {},
            Some(dat_path) => {
                let t = trimmed(self.eztrans_ehnd_path.as_str());
                if t.as_str().is_empty() {
                    self.eztrans_ehnd_path = dat_to_sibling_ehnd(dat_path.as_str());
                }
            },
        }
    }

    /// The DeepL multi-key strategy: `round-robin`, `roundrobin` or `rr` in
    /// any case select round robin; anything else is failover.
    /// The DeepL strategy the setting names.
    pub open spec fn deepl_strategy_spec(&self) -> DeepLStrategy {
        if lowers_to(self.deepl_strategy@, "round-robin"@) || lowers_to(
            self.deepl_strategy@,
            "roundrobin"@,
        ) || lowers_to(self.deepl_strategy@, "rr"@) {
            DeepLStrategy::RoundRobin
        } else {
            DeepLStrategy::Failover
        }
    }

    pub fn deepl_strategy(&self) -> (r: DeepLStrategy)
        ensures
            r == if lowers_to(self.deepl_strategy@, "round-robin"@) || lowers_to(
                self.deepl_strategy@,
                "roundrobin"@,
            ) || lowers_to(self.deepl_strategy@, "rr"@) {
                DeepLStrategy::RoundRobin
            } else {
                DeepLStrategy::Failover
            },
    {
        proof {
            reveal_strlit("round-robin");
            reveal_strlit("roundrobin");
            reveal_strlit("rr");
        }
        let s = self.deepl_strategy.as_str();
        if lowercase_is(s, &['r', 'o', 'u', 'n', 'd', '-', 'r', 'o', 'b', 'i', 'n']) || lowercase_is(
            s,
            &['r', 'o', 'u', 'n', 'd', 'r', 'o', 'b', 'i', 'n'],
        ) || lowercase_is(s, &['r', 'r']) {
            DeepLStrategy::RoundRobin
        } else {
            DeepLStrategy::Failover
        }
    }

    /// DeepL keys without empty entries; the extra keys take precedence over
    /// the legacy single key.
    pub fn deepl_effective_keys(&self) -> (r: Vec<String>)
        ensures
            r@.map_values(|k: String| k@) == effective_keys(
                self.deepl_keys@.map_values(|k: String| k@),
                self.deepl_api_key@,
            ),
    {
        let ghost src = self.deepl_keys@.map_values(|k: String| k@);
        let ghost pred = |k: Seq<char>| k.len() > 0;
        let mut keys: Vec<String> = Vec::new();
        let mut i: usize = 0;
        while i < self.deepl_keys.len()
            invariant
                i <= self.deepl_keys.len(),
                src == self.deepl_keys@.map_values(|k: String| k@),
                pred == (|k: Seq<char>| k.len() > 0),
                keys@.map_values(|k: String| k@) == src.take(i as int).filter(pred),
            decreases self.deepl_keys.len() - i,
        {
            let k = &self.deepl_keys[i];
            let ghost before = keys@;
            if !k.as_str().is_empty() {
                keys.push(k.clone());
                assert(keys@ == before.push(keys@.last()));
            }
            proof {
                let t = src.take(i + 1);
                assert(t.drop_last() =~= src.take(i as int));
                assert(t.last() == k@);
                reveal_with_fuel(Seq::<Seq<char>>::filter, 1);
                assert(keys@.map_values(|k: String| k@) =~= t.filter(pred));
            }
            i = i + 1;
        }
        assert(src.take(src.len() as int) =~= src);
        if keys.len() == 0 && !self.deepl_api_key.as_str().is_empty() {
            keys.push(self.deepl_api_key.clone());
            assert(keys@.map_values(|k: String| k@) =~= seq![self.deepl_api_key@]);
        }
        keys
    }

    /// Engine index for the legacy settings UI: eztrans 0, google 1, deepl 2
    /// (compared after lower-casing); anything else 0.
    pub fn engine_as_u8(&self) -> (r: u8)
        ensures
            r == if lowers_to(self.engine@, "google"@) {
                1u8
            } else if lowers_to(self.engine@, "deepl"@) {
                2u8
            } else {
                0u8
            },
    {
        proof {
            reveal_strlit("google");
            reveal_strlit("deepl");
        }
        let s = self.engine.as_str();
        if lowercase_is(s, &['g', 'o', 'o', 'g', 'l', 'e']) {
            1
        } else if lowercase_is(s, &['d', 'e', 'e', 'p', 'l']) {
            2
        } else {
            0
        }
    }

    /// Engine name for a legacy UI index; unknown indices give `eztrans`.
    pub fn engine_from_u8(value: u8) -> (r: String)
        ensures
            r@ == if value == 1 {
                "google"@
            } else if value == 2 {
                "deepl"@
            } else {
                "eztrans"@
            },
    {
        proof {
            reveal_strlit("google");
            reveal_strlit("deepl");
            reveal_strlit("eztrans");
        }
        if value == 1 {
            owned("google")
        } else if value == 2 {
            owned("deepl")
        } else {
            owned("eztrans")
        }
    }

    /// The legacy index of the source language.
    pub fn source_lang_as_u8(&self) -> (r: u8)
        ensures
            r == lang_index(self.source_lang@),
    {
        Self::lang_as_u8(self.source_lang.as_str())
    }

    /// The legacy index of the target language.
    pub fn target_lang_as_u8(&self) -> (r: u8)
        ensures
            r == lang_index(self.target_lang@),
    {
        Self::lang_as_u8(self.target_lang.as_str())
    }

    /// Legacy language index: ja/jpn 0, ko/kor 1, en/eng 2, zh/zho/zh-cn 3,
    /// zh-tw 4 (after lower-casing); anything else 0.
    pub fn lang_as_u8(lang: &str) -> (r: u8)
        ensures
            r == lang_index(lang@),
    {
        proof {
            reveal_strlit("ko");
            reveal_strlit("kor");
            reveal_strlit("en");
            reveal_strlit("eng");
            reveal_strlit("zh");
            reveal_strlit("zho");
            reveal_strlit("zh-cn");
            reveal_strlit("zh-tw");
        }
        if lowercase_is(lang, &['k', 'o']) || lowercase_is(lang, &['k', 'o', 'r']) {
            1
        } else if lowercase_is(lang, &['e', 'n']) || lowercase_is(lang, &['e', 'n', 'g']) {
            2
        } else if lowercase_is(lang, &['z', 'h']) || lowercase_is(lang, &['z', 'h', 'o'])
            || lowercase_is(lang, &['z', 'h', '-', 'c', 'n']) {
            3
        } else if lowercase_is(lang, &['z', 'h', '-', 't', 'w']) {
            4
        } else {
            0
        }
    }

    /// Language code for a legacy index; 3 and 4 both give `zh`, unknown
    /// indices give `ja`.
    pub fn lang_from_u8(value: u8) -> (r: String)
        ensures
            r@ == if value == 1 {
                "ko"@
            } else if value == 2 {
                "en"@
            } else if value == 3 || value == 4 {
                "zh"@
            } else {
                "ja"@
            },
    {
        if value == 1 {
            owned("ko")
        } else if value == 2 {
            owned("en")
        } else if value == 3 || value == 4 {
            owned("zh")
        } else {
            owned("ja")
        }
    }
}

impl Default for TranslationConfig {
    /// EzTrans from Japanese to Korean with two helper processes, failover
    /// DeepL keys, default LLM settings and no custom APIs. The EzTrans paths
    /// are relative to the working directory (`eztrans_dll/JisJK.flat.bin`,
    /// `eztrans_dll/Ehnd`); the application anchors them next to its executable.
    fn default() -> (r: Self)
        ensures
            r.engine@ == "eztrans"@,
            r.source_lang@ == "ja"@,
            r.target_lang@ == "ko"@,
            r.eztrans_dat_path is None,
            r.eztrans_process_count == 2,
            r.eztrans_postprocess_dictionary@.len() == 0,
            r.deepl_api_key@.len() == 0,
            r.deepl_keys@.len() == 0,
            r.deepl_strategy@ == "failover"@,
            r.papago_client_id@.len() == 0,
            r.papago_client_secret@.len() == 0,
            r.mys_translater_api_key@.len() == 0,
            r.custom.is_default_spec(),
            r.custom_api@.len() == 0,
            r.custom_apis@.len() == 0,
            r.llm.max_tokens == 1024,
            r.llm.debounce_ms == 300,
    {
        TranslationConfig {
            engine: owned("eztrans"),
            source_lang: owned("ja"),
            target_lang: owned("ko"),
            eztrans_dictionary_path: owned("eztrans_dll/JisJK.flat.bin"),
            eztrans_ehnd_path: owned("eztrans_dll/Ehnd"),
            eztrans_dat_path: None,
            eztrans_process_count: 2,
            eztrans_postprocess_dictionary: Vec::new(),
            deepl_api_key: String::new(),
            deepl_keys: Vec::new(),
            deepl_strategy: owned("failover"),
            papago_client_id: String::new(),
            papago_client_secret: String::new(),
            mys_translater_url: String::new(),
            mys_translater_api_key: String::new(),
            llm: LlmConfig::default(),
            custom: CustomApiConfig::default(),
            custom_api: String::new(),
            custom_apis: Vec::new(),
        }
    }
}

proof fn lemma_trim_empty()
    ensures
        trim(Seq::<char>::empty()).len() == 0,
{
    assert(crate::text::trim_start(Seq::<char>::empty()) =~= Seq::<char>::empty());
    assert(crate::text::trim_end(Seq::<char>::empty()) =~= Seq::<char>::empty());
}

/// Once a custom API has been selected by name (the names being valid), it
/// is the active one: every outcome the active-index rules allow is its index.
pub proof fn lemma_select_then_active(
    t: TranslationConfig,
    i: int,
    v: Result<(), SelectionFailure>,
    r: Result<usize, SelectionFailure>,
)
    requires
        validation_ok(t.names(), Ok(())),
        0 <= i < t.custom_apis@.len(),
        t.custom_api@ == t.custom_apis@[i].name@,
        active_index_ok(t, v, r),
    ensures
        r == Ok::<usize, SelectionFailure>(i as usize),
{
    let names = t.names();
    assert(names[i] == t.custom_apis@[i].name@);
    assert(!name_is_bad(names, i));
    if t.custom_api@.len() == 0 {
        lemma_trim_empty();
        assert(false);
    }
    match v {
        Err(f) => {
            let k = choose|k: int|
                0 <= k < names.len() && #[trigger] name_is_bad(names, k) && (forall|j: int|
                    0 <= j < k ==> !#[trigger] name_is_bad(names, j)) && f == if trim(names[k]).len()
                    == 0 {
                    SelectionFailure::EmptyName
                } else {
                    SelectionFailure::DuplicateName(names[k])
                };
            assert(!name_is_bad(names, k));
        },
        Ok(()) => {
            match r {
                Ok(j) => {
                    assert(first_named(names, t.custom_api@, j as int));
                    if (j as int) < i {
                        assert(names[j as int] == names[i]);
                    } else if (j as int) > i {
                        assert(!name_is_bad(names, j as int));
                        assert(names[i] == names[j as int]);
                    }
                },
                Err(_) => {
                    assert(names[i] == t.custom_api@);
                },
            }
        },
    }
}

} // verus!
