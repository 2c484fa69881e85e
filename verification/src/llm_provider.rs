//! LLM providers and the per-provider settings: switching the provider keeps
//! the settings of the one left and restores those of the one chosen.
use crate::text::{owned, str_eq};
use crate::translation_config::{
    default_system_prompt, LlmConfig, LlmProviderProfile, F32_ONE_BITS,
};
use vstd::prelude::*;

verus! {

/// The LLM providers, by their setting names.
#[derive(Clone, Copy, Debug, PartialEq, Eq, Structural)]
pub enum LlmProvider {
    OpenAi,
    Anthropic,
    Gemini,
    Grok,
    OpenRouter,
}

impl LlmProvider {
    /// The setting name.
    pub open spec fn name_spec(self) -> Seq<char> {
        match self {
            LlmProvider::OpenAi => "openai"@,
            LlmProvider::Anthropic => "anthropic"@,
            LlmProvider::Gemini => "gemini"@,
            LlmProvider::Grok => "grok"@,
            LlmProvider::OpenRouter => "openrouter"@,
        }
    }

    /// The provider a setting name names, if any.
    pub open spec fn parse_spec(s: Seq<char>) -> Option<LlmProvider> {
        if s == "openai"@ {
            Some(LlmProvider::OpenAi)
        } else if s == "anthropic"@ {
            Some(LlmProvider::Anthropic)
        } else if s == "gemini"@ {
            Some(LlmProvider::Gemini)
        } else if s == "grok"@ {
            Some(LlmProvider::Grok)
        } else if s == "openrouter"@ {
            Some(LlmProvider::OpenRouter)
        } else {
            None
        }
    }

    pub fn to_str(self) -> (r: &'static str)
        ensures
            r@ == self.name_spec(),
    {
        match self {
            LlmProvider::OpenAi => "openai",
            LlmProvider::Anthropic => "anthropic",
            LlmProvider::Gemini => "gemini",
            LlmProvider::Grok => "grok",
            LlmProvider::OpenRouter => "openrouter",
        }
    }

    pub fn parse_name(s: &str) -> (r: Option<LlmProvider>)
        ensures
            r == Self::parse_spec(s@),
    {
        if str_eq(s, "openai") {
            Some(LlmProvider::OpenAi)
        } else if str_eq(s, "anthropic") {
            Some(LlmProvider::Anthropic)
        } else if str_eq(s, "gemini") {
            Some(LlmProvider::Gemini)
        } else if str_eq(s, "grok") {
            Some(LlmProvider::Grok)
        } else if str_eq(s, "openrouter") {
            Some(LlmProvider::OpenRouter)
        } else {
            None
        }
    }
}

/// Every provider is read back from its setting name.
pub proof fn lemma_provider_name_roundtrip(p: LlmProvider)
    ensures
        LlmProvider::parse_spec(p.name_spec()) == Some(p),
{
    reveal_strlit("openai");
    reveal_strlit("anthropic");
    reveal_strlit("gemini");
    reveal_strlit("grok");
    reveal_strlit("openrouter");
    assert("openai"@[0] == 'o' && "anthropic"@[0] == 'a' && "gemini"@[0] == 'g');
    assert("grok"@[0] == 'g' && "openrouter"@[0] == 'o');
    assert("openai"@.len() != "openrouter"@.len() && "gemini"@.len() != "grok"@.len());
}

/// The setting names of the providers are `openai`, `anthropic`, `gemini`,
/// `grok` and `openrouter`, exactly (in lower case), and no other string names a
/// provider.
pub proof fn lemma_provider_setting_names(s: Seq<char>)
    ensures
        LlmProvider::OpenAi.name_spec() == "openai"@,
        LlmProvider::Anthropic.name_spec() == "anthropic"@,
        LlmProvider::Gemini.name_spec() == "gemini"@,
        LlmProvider::Grok.name_spec() == "grok"@,
        LlmProvider::OpenRouter.name_spec() == "openrouter"@,
        LlmProvider::parse_spec("openai"@) == Some(LlmProvider::OpenAi),
        LlmProvider::parse_spec("anthropic"@) == Some(LlmProvider::Anthropic),
        LlmProvider::parse_spec("gemini"@) == Some(LlmProvider::Gemini),
        LlmProvider::parse_spec("grok"@) == Some(LlmProvider::Grok),
        LlmProvider::parse_spec("openrouter"@) == Some(LlmProvider::OpenRouter),
        LlmProvider::parse_spec(s) matches Some(p) ==> s == p.name_spec(),
{
    lemma_provider_name_roundtrip(LlmProvider::OpenAi);
    lemma_provider_name_roundtrip(LlmProvider::Anthropic);
    lemma_provider_name_roundtrip(LlmProvider::Gemini);
    lemma_provider_name_roundtrip(LlmProvider::Grok);
    lemma_provider_name_roundtrip(LlmProvider::OpenRouter);
}

/// A setting name that no provider has.
#[derive(Clone, Debug, PartialEq, Eq)]
pub struct UnknownProvider {
    pub name: String,
}

// ---------------------------------------------------------------------------
// The saved provider settings as a map from provider name to settings.
// ---------------------------------------------------------------------------

/// No provider name occurs twice.
pub open spec fn names_unique(v: Seq<(String, LlmProviderProfile)>) -> bool {
    forall|i: int, j: int|
        0 <= i < v.len() && 0 <= j < v.len() && i != j ==> (#[trigger] v[i]).0@ != (
        #[trigger] v[j]).0@
}

/// `k` names an entry of `v`.
pub open spec fn has_name(v: Seq<(String, LlmProviderProfile)>, k: Seq<char>) -> bool {
    exists|i: int| 0 <= i < v.len() && (#[trigger] v[i]).0@ == k
}

/// The saved settings by provider name.
pub open spec fn profiles_map(v: Seq<(String, LlmProviderProfile)>) -> Map<
    Seq<char>,
    LlmProviderProfile,
> {
    Map::new(
        |k: Seq<char>| has_name(v, k),
        |k: Seq<char>| v[choose|i: int| 0 <= i < v.len() && (#[trigger] v[i]).0@ == k].1,
    )
}

proof fn lemma_map_at(v: Seq<(String, LlmProviderProfile)>, i: int)
    requires
        names_unique(v),
        0 <= i < v.len(),
    ensures
        profiles_map(v).contains_key(v[i].0@),
        profiles_map(v)[v[i].0@] == v[i].1,
{
    let k = v[i].0@;
    assert(has_name(v, k));
    let j = choose|j: int| 0 <= j < v.len() && (#[trigger] v[j]).0@ == k;
    assert(j == i);
}

proof fn lemma_map_remove(v: Seq<(String, LlmProviderProfile)>, i: int)
    requires
        names_unique(v),
        0 <= i < v.len(),
    ensures
        names_unique(v.remove(i)),
        profiles_map(v.remove(i)) == profiles_map(v).remove(v[i].0@),
{
    let w = v.remove(i);
    assert forall|a: int, b: int|
        0 <= a < w.len() && 0 <= b < w.len() && a != b implies (#[trigger] w[a]).0@ != (
        #[trigger] w[b]).0@ by {
        let a0 = if a < i { a } else { a + 1 };
        let b0 = if b < i { b } else { b + 1 };
        assert(w[a] == v[a0]);
        assert(w[b] == v[b0]);
    }
    let m = profiles_map(v).remove(v[i].0@);
    assert forall|k: Seq<char>| #[trigger] profiles_map(w).contains_key(k) <==> m.contains_key(
        k,
    ) by {
        if has_name(w, k) {
            let a = choose|a: int| 0 <= a < w.len() && (#[trigger] w[a]).0@ == k;
            let a0 = if a < i { a } else { a + 1 };
            assert(w[a] == v[a0]);
            assert(v[a0].0@ == k);
            assert(has_name(v, k));
        }
        if m.contains_key(k) {
            let a0 = choose|a: int| 0 <= a < v.len() && (#[trigger] v[a]).0@ == k;
            assert(a0 != i);
            let a = if a0 < i { a0 } else { a0 - 1 };
            assert(w[a] == v[a0]);
            assert(has_name(w, k));
        }
    }
    assert forall|k: Seq<char>| #[trigger] profiles_map(w).contains_key(k) implies profiles_map(
        w,
    )[k] == m[k] by {
        let a = choose|a: int| 0 <= a < w.len() && (#[trigger] w[a]).0@ == k;
        let a0 = if a < i { a } else { a + 1 };
        assert(w[a] == v[a0]);
        lemma_map_at(w, a);
        lemma_map_at(v, a0);
    }
    assert(profiles_map(w) =~= m);
}

proof fn lemma_map_update(v: Seq<(String, LlmProviderProfile)>, i: int, p: LlmProviderProfile)
    requires
        names_unique(v),
        0 <= i < v.len(),
    ensures
        names_unique(v.update(i, (v[i].0, p))),
        profiles_map(v.update(i, (v[i].0, p))) == profiles_map(v).insert(v[i].0@, p),
{
    let w = v.update(i, (v[i].0, p));
    assert forall|a: int, b: int|
        0 <= a < w.len() && 0 <= b < w.len() && a != b implies (#[trigger] w[a]).0@ != (
        #[trigger] w[b]).0@ by {
        assert(w[a].0 == v[a].0);
        assert(w[b].0 == v[b].0);
    }
    let m = profiles_map(v).insert(v[i].0@, p);
    assert forall|k: Seq<char>| #[trigger] profiles_map(w).contains_key(k) <==> m.contains_key(
        k,
    ) by {
        if has_name(w, k) {
            let a = choose|a: int| 0 <= a < w.len() && (#[trigger] w[a]).0@ == k;
            assert(w[a].0 == v[a].0);
            assert(has_name(v, k));
        }
        if has_name(v, k) {
            let a = choose|a: int| 0 <= a < v.len() && (#[trigger] v[a]).0@ == k;
            assert(w[a].0 == v[a].0);
            assert(has_name(w, k));
        }
        if k == v[i].0@ {
            assert(w[i].0 == v[i].0);
            assert(has_name(w, k));
        }
    }
    assert forall|k: Seq<char>| #[trigger] profiles_map(w).contains_key(k) implies profiles_map(
        w,
    )[k] == m[k] by {
        let a = choose|a: int| 0 <= a < w.len() && (#[trigger] w[a]).0@ == k;
        assert(w[a].0 == v[a].0);
        lemma_map_at(w, a);
        if a != i {
            lemma_map_at(v, a);
        }
    }
    assert(profiles_map(w) =~= m);
}

proof fn lemma_map_push(v: Seq<(String, LlmProviderProfile)>, e: (String, LlmProviderProfile))
    requires
        names_unique(v),
        !has_name(v, e.0@),
    ensures
        names_unique(v.push(e)),
        profiles_map(v.push(e)) == profiles_map(v).insert(e.0@, e.1),
{
    let w = v.push(e);
    let n = v.len() as int;
    assert forall|a: int, b: int|
        0 <= a < w.len() && 0 <= b < w.len() && a != b implies (#[trigger] w[a]).0@ != (
        #[trigger] w[b]).0@ by {
        if a < n && b < n {
            assert(w[a] == v[a] && w[b] == v[b]);
        } else if a < n {
            assert(w[a] == v[a]);
        } else {
            assert(w[b] == v[b]);
        }
    }
    let m = profiles_map(v).insert(e.0@, e.1);
    assert forall|k: Seq<char>| #[trigger] profiles_map(w).contains_key(k) <==> m.contains_key(
        k,
    ) by {
        if has_name(w, k) {
            let a = choose|a: int| 0 <= a < w.len() && (#[trigger] w[a]).0@ == k;
            if a < n {
                assert(w[a] == v[a]);
                assert(has_name(v, k));
            }
        }
        if has_name(v, k) {
            let a = choose|a: int| 0 <= a < v.len() && (#[trigger] v[a]).0@ == k;
            assert(w[a] == v[a]);
            assert(has_name(w, k));
        }
        if k == e.0@ {
            assert(w[n] == e);
            assert(has_name(w, k));
        }
    }
    assert forall|k: Seq<char>| #[trigger] profiles_map(w).contains_key(k) implies profiles_map(
        w,
    )[k] == m[k] by {
        let a = choose|a: int| 0 <= a < w.len() && (#[trigger] w[a]).0@ == k;
        lemma_map_at(w, a);
        if a < n {
            assert(w[a] == v[a]);
            lemma_map_at(v, a);
        } else {
            assert(w[a] == e);
        }
    }
    assert(profiles_map(w) =~= m);
}

/// The index of the entry named `name`.
fn find_profile(v: &Vec<(String, LlmProviderProfile)>, name: &str) -> (r: Option<usize>)
    ensures
        match r {
            Some(i) => i < v@.len() && v@[i as int].0@ == name@,
            None => !has_name(v@, name@),
        },
{
    let mut i: usize = 0;
    while i < v.len()
        invariant
            i <= v@.len(),
            forall|k: int| 0 <= k < i ==> (#[trigger] v@[k]).0@ != name@,
        decreases v@.len() - i,
    {
        if str_eq(v[i].0.as_str(), name) {
            return Some(i);
        }
        i = i + 1;
    }
    None
}

/// Removes and returns the settings saved for `name`.
fn take_profile(v: &mut Vec<(String, LlmProviderProfile)>, name: &str) -> (r: Option<
    LlmProviderProfile,
>)
    requires
        names_unique(old(v)@),
    ensures
        names_unique(final(v)@),
        profiles_map(final(v)@) == profiles_map(old(v)@).remove(name@),
        r == (if profiles_map(old(v)@).contains_key(name@) {
            Some(profiles_map(old(v)@)[name@])
        } else {
            None::<LlmProviderProfile>
        }),
{
    match find_profile(v, name) {
        Some(i) => {
            proof {
                lemma_map_at(v@, i as int);
                lemma_map_remove(v@, i as int);
            }
            let (_, p) = v.remove(i);
            Some(p)
        },
        None => {
            proof {
                assert(profiles_map(v@).remove(name@) =~= profiles_map(v@));
            }
            None
        },
    }
}

/// Saves `p` as the settings of `name`, replacing what was saved for it.
fn put_profile(v: &mut Vec<(String, LlmProviderProfile)>, name: String, p: LlmProviderProfile)
    requires
        names_unique(old(v)@),
    ensures
        names_unique(final(v)@),
        profiles_map(final(v)@) == profiles_map(old(v)@).insert(name@, p),
{
    match find_profile(v, name.as_str()) {
        Some(i) => {
            proof {
                lemma_map_update(v@, i as int, p);
            }
            let (n, _) = v.remove(i);
            v.insert(i, (n, p));
            proof {
                assert(v@ =~= old(v)@.update(i as int, (old(v)@[i as int].0, p)));
            }
        },
        None => {
            proof {
                lemma_map_push(v@, (name, p));
            }
            v.push((name, p));
        },
    }
}

// ---------------------------------------------------------------------------
// Switching the provider.
// ---------------------------------------------------------------------------

/// The settings a fresh provider starts with.
pub open spec fn is_default_profile(p: LlmProviderProfile) -> bool {
    &&& p.model@.len() == 0
    &&& p.api_key@.len() == 0
    &&& p.base_url@.len() == 0
    &&& p.system_prompt@ == default_system_prompt()
    &&& p.temperature_bits == F32_ONE_BITS
    &&& p.top_p_bits == F32_ONE_BITS
    &&& p.frequency_penalty_bits == 0
    &&& p.presence_penalty_bits == 0
    &&& p.max_tokens == 1024
    &&& p.reasoning_effort is None
    &&& p.glossary@.len() == 0
    &&& p.debounce_ms == 300
}

impl Default for LlmProviderProfile {
    fn default() -> (r: Self)
        ensures
            is_default_profile(r),
    {
        LlmProviderProfile {
            model: String::new(),
            api_key: String::new(),
            base_url: String::new(),
            system_prompt: owned(
                "You are a translator. Translate the user text from {source} to {target}. Output only the translation.",
            ),
            temperature_bits: F32_ONE_BITS,
            top_p_bits: F32_ONE_BITS,
            frequency_penalty_bits: 0,
            presence_penalty_bits: 0,
            max_tokens: 1024,
            reasoning_effort: None,
            glossary: Vec::new(),
            debounce_ms: 300,
        }
    }
}

/// The settings of the active provider, as they would be saved.
pub open spec fn active_profile(c: LlmConfig) -> LlmProviderProfile {
    LlmProviderProfile {
        model: c.model,
        api_key: c.api_key,
        base_url: c.base_url,
        system_prompt: c.system_prompt,
        temperature_bits: c.temperature_bits,
        top_p_bits: c.top_p_bits,
        frequency_penalty_bits: c.frequency_penalty_bits,
        presence_penalty_bits: c.presence_penalty_bits,
        max_tokens: c.max_tokens,
        reasoning_effort: c.reasoning_effort,
        glossary: c.glossary,
        debounce_ms: c.debounce_ms,
    }
}

/// `new` is `old` switched to `provider`: choosing the active provider again
/// changes nothing; otherwise the settings of the provider left are saved
/// under its name (when it has a valid name), and those saved for `provider`
/// become the active ones and leave the saved set (defaults when none were
/// saved).
pub open spec fn provider_switched(old: LlmConfig, new: LlmConfig, provider: LlmProvider) -> bool {
    let q = provider.name_spec();
    let cur = LlmProvider::parse_spec(old.provider@);
    let m0 = profiles_map(old.provider_profiles@);
    let m1 = match cur {
        Some(c) => m0.insert(c.name_spec(), active_profile(old)),
        None => m0,
    };
    &&& new.provider@ == q
    &&& names_unique(new.provider_profiles@)
    &&& if cur == Some(provider) {
        new == (LlmConfig { provider: new.provider, ..old })
    } else {
        &&& profiles_map(new.provider_profiles@) == m1.remove(q)
        &&& if m1.contains_key(q) {
            active_profile(new) == m1[q]
        } else {
            is_default_profile(active_profile(new))
        }
    }
}

impl LlmConfig {
    /// The configured provider; an error naming the setting when it names none.
    pub fn get_provider(&self) -> (r: Result<LlmProvider, UnknownProvider>)
        ensures
            match r {
                Ok(p) => LlmProvider::parse_spec(self.provider@) == Some(p),
                Err(e) => LlmProvider::parse_spec(self.provider@) is None && e.name@
                    == self.provider@,
            },
    {
        match LlmProvider::parse_name(self.provider.as_str()) {
            Some(p) => Ok(p),
            None => Err(UnknownProvider { name: owned(self.provider.as_str()) }),
        }
    }

    /// Makes `p` the active settings and returns the settings that were active.
    fn swap_active(&mut self, p: LlmProviderProfile) -> (r: LlmProviderProfile)
        ensures
            r == active_profile(*old(self)),
            active_profile(*final(self)) == p,
            final(self).provider == old(self).provider,
            final(self).provider_profiles == old(self).provider_profiles,
    {
        let mut p = p;
        core::mem::swap(&mut self.model, &mut p.model);
        core::mem::swap(&mut self.api_key, &mut p.api_key);
        core::mem::swap(&mut self.base_url, &mut p.base_url);
        core::mem::swap(&mut self.system_prompt, &mut p.system_prompt);
        core::mem::swap(&mut self.temperature_bits, &mut p.temperature_bits);
        core::mem::swap(&mut self.top_p_bits, &mut p.top_p_bits);
        core::mem::swap(&mut self.frequency_penalty_bits, &mut p.frequency_penalty_bits);
        core::mem::swap(&mut self.presence_penalty_bits, &mut p.presence_penalty_bits);
        core::mem::swap(&mut self.max_tokens, &mut p.max_tokens);
        core::mem::swap(&mut self.reasoning_effort, &mut p.reasoning_effort);
        core::mem::swap(&mut self.glossary, &mut p.glossary);
        core::mem::swap(&mut self.debounce_ms, &mut p.debounce_ms);
        p
    }

    /// Switches to `provider`, keeping the settings of the provider left and
    /// restoring those saved for `provider`.
    pub fn set_provider(&mut self, provider: LlmProvider)
        requires
            names_unique(old(self).provider_profiles@),
        ensures
            provider_switched(*old(self), *final(self), provider),
    {
        let current = LlmProvider::parse_name(self.provider.as_str());
        let same = match current {
            Some(c) => c == provider,
            None => false,
        };
        if same {
            self.provider = owned(provider.to_str());
            return;
        }
        let ghost m0 = profiles_map(self.provider_profiles@);
        let ghost a0 = active_profile(*self);
        let incoming = match take_profile(&mut self.provider_profiles, provider.to_str()) {
            Some(p) => p,
            None => LlmProviderProfile::default(),
        };
        let outgoing = self.swap_active(incoming);
        self.provider = owned(provider.to_str());
        match current {
            Some(c) => {
                proof {
                    lemma_provider_name_roundtrip(c);
                    lemma_provider_name_roundtrip(provider);
                    assert(c.name_spec() != provider.name_spec());
                    assert(m0.remove(provider.name_spec()).insert(c.name_spec(), a0) =~= m0.insert(
                        c.name_spec(),
                        a0,
                    ).remove(provider.name_spec()));
                }
                put_profile(&mut self.provider_profiles, owned(c.to_str()), outgoing);
            },
            None => {},
        }
    }
}

/// Switching to another provider and back restores the provider and its
/// active settings; the saved settings come back as they were, apart from an
/// entry for the active provider, which is dropped, and an entry for the other
/// provider, which now holds the settings it was left with.
pub proof fn lemma_switch_and_back(
    c0: LlmConfig,
    c1: LlmConfig,
    c2: LlmConfig,
    p: LlmProvider,
    q: LlmProvider,
)
    requires
        LlmProvider::parse_spec(c0.provider@) == Some(p),
        p != q,
        provider_switched(c0, c1, q),
        provider_switched(c1, c2, p),
    ensures
        c2.provider@ == c0.provider@,
        active_profile(c2) == active_profile(c0),
        profiles_map(c2.provider_profiles@) == profiles_map(c0.provider_profiles@).remove(
            p.name_spec(),
        ).insert(q.name_spec(), active_profile(c1)),
        profiles_map(c0.provider_profiles@).contains_key(q.name_spec()) && !profiles_map(
            c0.provider_profiles@,
        ).contains_key(p.name_spec()) ==> profiles_map(c2.provider_profiles@) == profiles_map(
            c0.provider_profiles@,
        ),
{
    lemma_provider_name_roundtrip(p);
    lemma_provider_name_roundtrip(q);
    let pn = p.name_spec();
    let qn = q.name_spec();
    assert(pn != qn);
    let m0 = profiles_map(c0.provider_profiles@);
    let m1 = profiles_map(c1.provider_profiles@);
    assert(m1 == m0.insert(pn, active_profile(c0)).remove(qn));
    assert(LlmProvider::parse_spec(c1.provider@) == Some(q));
    assert(m1.insert(qn, active_profile(c1)).contains_key(pn));
    assert(profiles_map(c2.provider_profiles@) =~= m0.remove(pn).insert(qn, active_profile(c1)));
    if m0.contains_key(qn) && !m0.contains_key(pn) {
        assert(active_profile(c1) == m0[qn]);
        assert(m0.remove(pn).insert(qn, active_profile(c1)) =~= m0);
    }
}

} // verus!
