//! Game text-hooking settings and the per-game saved hook profiles.
use crate::limits::clamp_spec;
use crate::text::{chars_of, eq_ignore_case, str_eq, str_eq_ignore_case};
use vstd::prelude::*;

verus! {

/// Upper bound on remembered per-game profiles; the oldest are dropped first.
pub const MAX_SAVED_PROFILES: usize = 64;

/// Lower bound of the merge window (ms), the flush delay of the hooking host.
pub const MIN_MERGE_WINDOW_MS: u32 = 100;

/// Upper bound of the merge window (ms).
pub const MAX_MERGE_WINDOW_MS: u32 = 5_000;

/// The hook last chosen by the user for one game.
#[derive(Clone, Debug, Default, PartialEq, Eq)]
pub struct SavedHookProfile {
    pub process_name: String,
    pub exe_sha256: Option<String>,
    pub hook_name: String,
    pub hook_code: Option<String>,
}

/// [`SavedHookProfile`] as character sequences.
pub struct ProfileView {
    pub process_name: Seq<char>,
    pub exe_sha256: Option<Seq<char>>,
    pub hook_name: Seq<char>,
    pub hook_code: Option<Seq<char>>,
}

pub open spec fn opt_view(s: Option<String>) -> Option<Seq<char>> {
    match s {
        Some(t) => Some(t@),
        None => None,
    }
}

impl View for SavedHookProfile {
    type V = ProfileView;

    open spec fn view(&self) -> ProfileView {
        ProfileView {
            process_name: self.process_name@,
            exe_sha256: opt_view(self.exe_sha256),
            hook_name: self.hook_name@,
            hook_code: opt_view(self.hook_code),
        }
    }
}

pub open spec fn opt_str_view(s: Option<&str>) -> Option<Seq<char>> {
    match s {
        Some(t) => Some(t@),
        None => None,
    }
}

pub open spec fn profiles_view(v: Seq<SavedHookProfile>) -> Seq<ProfileView> {
    v.map_values(|p: SavedHookProfile| p@)
}

/// Hook settings. Files without a `[hook]` block get these defaults
/// (hooking off).
#[derive(Clone, Debug, PartialEq, Eq)]
pub struct HookConfig {
    /// Whether hooked text flows into the translation pipeline.
    pub enabled: bool,
    /// Re-attach to the last target at start-up.
    pub auto_attach_last: bool,
    /// Last target pid; 0 for none.
    pub last_target_pid: u32,
    /// Last target executable name (for display).
    pub last_target_name: String,
    /// Quiet time (ms) after the last fragment before a sentence is emitted.
    pub merge_window_ms: u32,
    /// Longest sentence (characters) passed on.
    pub max_text_length: u32,
    /// Whether the hook debug log is written.
    pub debug_log: bool,
    /// Diagnostic token, read only by development diagnostics.
    pub diag_token: String,
    /// Per-game hook choices.
    pub saved_profiles: Vec<SavedHookProfile>,
}

impl Default for HookConfig {
    fn default() -> (r: Self)
        ensures
            !r.enabled,
            r.auto_attach_last,
            r.last_target_pid == 0,
            r.last_target_name@.len() == 0,
            r.merge_window_ms == 100,
            r.max_text_length == 2000,
            !r.debug_log,
            r.diag_token@.len() == 0,
            r.saved_profiles@.len() == 0,
    {
        HookConfig {
            enabled: false,
            auto_attach_last: true,
            last_target_pid: 0,
            last_target_name: String::new(),
            merge_window_ms: 100,
            max_text_length: 2000,
            debug_log: false,
            diag_token: String::new(),
            saved_profiles: Vec::new(),
        }
    }
}

/// A profile kept by `normalize`: identified by name or hash, with names and
/// hook code within their length limits (in characters).
pub open spec fn profile_is_valid(p: ProfileView) -> bool {
    &&& (p.process_name.len() > 0 || p.exe_sha256 is Some)
    &&& p.process_name.len() <= 260
    &&& p.hook_name.len() <= 128
    &&& match p.hook_code {
        Some(c) => c.len() <= 2048,
        None => true,
    }
}

/// At most the last `MAX_SAVED_PROFILES` elements.
pub open spec fn keep_last<T>(s: Seq<T>) -> Seq<T> {
    if s.len() > MAX_SAVED_PROFILES {
        s.skip(s.len() - MAX_SAVED_PROFILES)
    } else {
        s
    }
}

/// `saved` survives saving `p`: it names another game and, when `p` has a
/// hash, carries a different hash.
pub open spec fn survives_save(saved: ProfileView, p: ProfileView) -> bool {
    let same_hash = p.exe_sha256 is Some && saved.exe_sha256 == p.exe_sha256;
    !same_hash && !eq_ignore_case(saved.process_name, p.process_name)
}

/// The profiles after saving `p`.
pub open spec fn save_spec(s: Seq<ProfileView>, p: ProfileView) -> Seq<ProfileView> {
    keep_last(s.filter(|saved: ProfileView| survives_save(saved, p)).push(p))
}

/// `i` is the first index of `s` whose profile satisfies `pred`.
pub open spec fn is_first(s: Seq<ProfileView>, i: int, pred: spec_fn(ProfileView) -> bool) -> bool {
    &&& 0 <= i < s.len()
    &&& pred(s[i])
    &&& forall|k: int| 0 <= k < i ==> !pred(#[trigger] s[k])
}

pub open spec fn none_match(s: Seq<ProfileView>, pred: spec_fn(ProfileView) -> bool) -> bool {
    forall|k: int| 0 <= k < s.len() ==> !pred(#[trigger] s[k])
}

pub open spec fn hash_match(d: Seq<char>) -> spec_fn(ProfileView) -> bool {
    |p: ProfileView| p.exe_sha256 == Some(d)
}

pub open spec fn legacy_name_match(n: Seq<char>) -> spec_fn(ProfileView) -> bool {
    |p: ProfileView| p.exe_sha256 is None && eq_ignore_case(p.process_name, n)
}

pub open spec fn name_match(n: Seq<char>) -> spec_fn(ProfileView) -> bool {
    |p: ProfileView| eq_ignore_case(p.process_name, n)
}

/// The index `saved_profile` answers with: with a digest, the first profile
/// with that digest, else the first hash-less profile of that name; without
/// a digest, the first profile of that name (names compared ignoring ASCII case).
pub open spec fn lookup_ok(s: Seq<ProfileView>, name: Seq<char>, digest: Option<Seq<char>>, r: Option<int>) -> bool {
    match digest {
        Some(d) => match r {
            Some(i) => is_first(s, i, hash_match(d)) || (none_match(s, hash_match(d)) && is_first(
                s,
                i,
                legacy_name_match(name),
            )),
            None => none_match(s, hash_match(d)) && none_match(s, legacy_name_match(name)),
        },
        None => match r {
            Some(i) => is_first(s, i, name_match(name)),
            None => none_match(s, name_match(name)),
        },
    }
}

fn opt_str_eq(a: &Option<String>, b: &Option<String>) -> (r: bool)
    ensures
        r == (opt_view(*a) == opt_view(*b)),
{
    match (a, b) {
        (Some(x), Some(y)) => str_eq(x.as_str(), y.as_str()),
        (None, None) => true,
        _ => false,
    }
}

impl HookConfig {
    pub open spec fn profiles(&self) -> Seq<ProfileView> {
        profiles_view(self.saved_profiles@)
    }

    /// Clamps the merge window, drops invalid profiles and keeps at most the
    /// newest `MAX_SAVED_PROFILES`.
    pub fn normalize(&mut self)
        ensures
            final(self).merge_window_ms == clamp_spec(
                old(self).merge_window_ms as int,
                MIN_MERGE_WINDOW_MS as int,
                MAX_MERGE_WINDOW_MS as int,
            ),
            final(self).profiles() == keep_last(
                old(self).profiles().filter(|p: ProfileView| profile_is_valid(p)),
            ),
            final(self).enabled == old(self).enabled,
            final(self).auto_attach_last == old(self).auto_attach_last,
            final(self).last_target_pid == old(self).last_target_pid,
            final(self).last_target_name == old(self).last_target_name,
            final(self).max_text_length == old(self).max_text_length,
            final(self).debug_log == old(self).debug_log,
            final(self).diag_token == old(self).diag_token,
    {
        if self.merge_window_ms < MIN_MERGE_WINDOW_MS {
            self.merge_window_ms = MIN_MERGE_WINDOW_MS;
        } else if self.merge_window_ms > MAX_MERGE_WINDOW_MS {
            self.merge_window_ms = MAX_MERGE_WINDOW_MS;
        }
        let ghost pred = |p: ProfileView| profile_is_valid(p);
        let ghost src = self.profiles();
        let mut kept: Vec<SavedHookProfile> = Vec::new();
        let mut i: usize = 0;
        while i < self.saved_profiles.len()
            invariant
                i <= self.saved_profiles.len(),
                src == profiles_view(self.saved_profiles@),
                pred == (|p: ProfileView| profile_is_valid(p)),
                profiles_view(kept@) == src.take(i as int).filter(pred),
            decreases self.saved_profiles.len() - i,
        {
            let p = &self.saved_profiles[i];
            let valid = profile_valid(p);
            let ghost before = profiles_view(kept@);
            if valid {
                kept.push(p.clone_profile());
            }
            proof {
                let t = src.take(i + 1);
                assert(t.drop_last() =~= src.take(i as int));
                assert(t.last() == src[i as int]);
                reveal_with_fuel(Seq::<ProfileView>::filter, 1);
                assert(profiles_view(kept@) =~= t.filter(pred));
            }
            i = i + 1;
        }
        assert(src.take(src.len() as int) =~= src);
        self.saved_profiles = keep_last_profiles(kept);
    }

    /// The remembered profile for a game: by executable digest first, then by
    /// name among profiles without a digest; by name alone when no digest is known.
    pub fn saved_profile(&self, process_name: &str, exe_sha256: Option<&str>) -> (r: Option<
        &SavedHookProfile,
    >)
        ensures
            match r {
                Some(p) => exists|i: int|
                    0 <= i < self.saved_profiles@.len() && *p == #[trigger] self.saved_profiles@[i]
                        && lookup_ok(self.profiles(), process_name@, opt_str_view(exe_sha256), Some(i)),
                None => lookup_ok(self.profiles(), process_name@, opt_str_view(exe_sha256), None),
            },
    {
        let ghost s = self.profiles();
        match exe_sha256 {
            Some(digest) => {
                let by_hash = self.first_with_hash(digest);
                match by_hash {
                    Some(i) => {
                        assert(lookup_ok(s, process_name@, Some(digest@), Some(i as int)));
                        Some(&self.saved_profiles[i])
                    },
                    None => {
                        let by_name = self.first_by_name(process_name, true);
                        match by_name {
                            Some(i) => {
                                assert(lookup_ok(s, process_name@, Some(digest@), Some(i as int)));
                                Some(&self.saved_profiles[i])
                            },
                            None => {
                                assert(lookup_ok(s, process_name@, Some(digest@), None));
                                None
                            },
                        }
                    },
                }
            },
            None => {
                let by_name = self.first_by_name(process_name, false);
                match by_name {
                    Some(i) => {
                        assert(lookup_ok(s, process_name@, None, Some(i as int)));
                        Some(&self.saved_profiles[i])
                    },
                    None => {
                        assert(lookup_ok(s, process_name@, None, None));
                        None
                    },
                }
            },
        }
    }

    fn first_with_hash(&self, digest: &str) -> (r: Option<usize>)
        ensures
            match r {
                Some(i) => is_first(self.profiles(), i as int, hash_match(digest@)),
                None => none_match(self.profiles(), hash_match(digest@)),
            },
    {
        let mut i: usize = 0;
        while i < self.saved_profiles.len()
            invariant
                i <= self.saved_profiles.len(),
                forall|k: int| 0 <= k < i ==> !hash_match(digest@)(#[trigger] self.profiles()[k]),
            decreases self.saved_profiles.len() - i,
        {
            let matched = match &self.saved_profiles[i].exe_sha256 {
                Some(h) => str_eq(h.as_str(), digest),
                None => false,
            };
            assert(self.profiles()[i as int] == self.saved_profiles@[i as int]@);
            if matched {
                return Some(i);
            }
            i = i + 1;
        }
        None
    }

    fn first_by_name(&self, process_name: &str, hashless_only: bool) -> (r: Option<usize>)
        ensures
            hashless_only ==> match r {
                Some(i) => is_first(self.profiles(), i as int, legacy_name_match(process_name@)),
                None => none_match(self.profiles(), legacy_name_match(process_name@)),
            },
            !hashless_only ==> match r {
                Some(i) => is_first(self.profiles(), i as int, name_match(process_name@)),
                None => none_match(self.profiles(), name_match(process_name@)),
            },
    {
        let ghost pred = if hashless_only {
            legacy_name_match(process_name@)
        } else {
            name_match(process_name@)
        };
        let mut i: usize = 0;
        while i < self.saved_profiles.len()
            invariant
                i <= self.saved_profiles.len(),
                pred == (if hashless_only {
                    legacy_name_match(process_name@)
                } else {
                    name_match(process_name@)
                }),
                forall|k: int| 0 <= k < i ==> !pred(#[trigger] self.profiles()[k]),
            decreases self.saved_profiles.len() - i,
        {
            let p = &self.saved_profiles[i];
            let hash_ok = !hashless_only || p.exe_sha256.is_none();
            let matched = hash_ok && str_eq_ignore_case(p.process_name.as_str(), process_name);
            assert(self.profiles()[i as int] == self.saved_profiles@[i as int]@);
            if matched {
                return Some(i);
            }
            i = i + 1;
        }
        None
    }

    /// Remembers `profile`, replacing any profile of the same game (same
    /// digest, or same name ignoring ASCII case), and keeps the newest
    /// `MAX_SAVED_PROFILES`.
    pub fn save_profile(&mut self, profile: SavedHookProfile)
        ensures
            final(self).profiles() == save_spec(old(self).profiles(), profile@),
            final(self).merge_window_ms == old(self).merge_window_ms,
            final(self).enabled == old(self).enabled,
            final(self).auto_attach_last == old(self).auto_attach_last,
            final(self).last_target_pid == old(self).last_target_pid,
            final(self).last_target_name == old(self).last_target_name,
            final(self).max_text_length == old(self).max_text_length,
            final(self).debug_log == old(self).debug_log,
            final(self).diag_token == old(self).diag_token,
    {
        let ghost pv = profile@;
        let ghost pred = |saved: ProfileView| survives_save(saved, pv);
        let ghost src = self.profiles();
        let mut kept: Vec<SavedHookProfile> = Vec::new();
        let mut i: usize = 0;
        while i < self.saved_profiles.len()
            invariant
                i <= self.saved_profiles.len(),
                src == profiles_view(self.saved_profiles@),
                pv == profile@,
                pred == (|saved: ProfileView| survives_save(saved, pv)),
                profiles_view(kept@) == src.take(i as int).filter(pred),
            decreases self.saved_profiles.len() - i,
        {
            let saved = &self.saved_profiles[i];
            let same_hash = profile.exe_sha256.is_some() && opt_str_eq(
                &saved.exe_sha256,
                &profile.exe_sha256,
            );
            let same_name = str_eq_ignore_case(
                saved.process_name.as_str(),
                profile.process_name.as_str(),
            );
            let ghost before = profiles_view(kept@);
            if !same_hash && !same_name {
                kept.push(saved.clone_profile());
            }
            proof {
                let t = src.take(i + 1);
                assert(t.drop_last() =~= src.take(i as int));
                assert(t.last() == src[i as int]);
                assert(src[i as int] == saved@);
                reveal_with_fuel(Seq::<ProfileView>::filter, 1);
                assert(profiles_view(kept@) =~= t.filter(pred));
            }
            i = i + 1;
        }
        assert(src.take(src.len() as int) =~= src);
        let ghost filtered = profiles_view(kept@);
        kept.push(profile);
        assert(profiles_view(kept@) =~= filtered.push(pv));
        self.saved_profiles = keep_last_profiles(kept);
    }
}

impl SavedHookProfile {
    /// A copy with equal contents.
    pub fn clone_profile(&self) -> (r: SavedHookProfile)
        ensures
            r@ == self@,
    {
        SavedHookProfile {
            process_name: self.process_name.clone(),
            exe_sha256: match &self.exe_sha256 {
                Some(h) => Some(h.clone()),
                None => None,
            },
            hook_name: self.hook_name.clone(),
            hook_code: match &self.hook_code {
                Some(c) => Some(c.clone()),
                None => None,
            },
        }
    }
}

fn char_count(s: &String) -> (r: usize)
    ensures
        r == s@.len(),
{
    chars_of(s.as_str()).len()
}

fn profile_valid(p: &SavedHookProfile) -> (r: bool)
    ensures
        r == profile_is_valid(p@),
{
    let code_ok = match &p.hook_code {
        Some(code) => char_count(code) <= 2048,
        None => true,
    };
    (char_count(&p.process_name) > 0 || p.exe_sha256.is_some()) && char_count(&p.process_name)
        <= 260 && char_count(&p.hook_name) <= 128 && code_ok
}

fn keep_last_profiles(v: Vec<SavedHookProfile>) -> (r: Vec<SavedHookProfile>)
    ensures
        profiles_view(r@) == keep_last(profiles_view(v@)),
{
    if v.len() <= MAX_SAVED_PROFILES {
        return v;
    }
    let start = v.len() - MAX_SAVED_PROFILES;
    let mut out: Vec<SavedHookProfile> = Vec::new();
    let mut i = start;
    while i < v.len()
        invariant
            start <= i <= v.len(),
            start == v.len() - MAX_SAVED_PROFILES,
            profiles_view(out@) == profiles_view(v@).subrange(start as int, i as int),
        decreases v.len() - i,
    {
        let ghost prev = out@;
        let item = v[i].clone_profile();
        out.push(item);
        assert(out@ =~= prev.push(item));
        assert(profiles_view(out@) =~= profiles_view(prev).push(item@));
        assert(profiles_view(v@)[i as int] == v@[i as int]@);
        assert(profiles_view(out@) =~= profiles_view(v@).subrange(start as int, i + 1));
        i = i + 1;
    }
    assert(profiles_view(v@).skip(start as int) =~= profiles_view(v@).subrange(
        start as int,
        v.len() as int,
    ));
    out
}

/// Saving a profile and then looking up the same game (same name and digest)
/// finds exactly the saved profile, as the newest remembered one.
pub proof fn lemma_save_then_lookup(s: Seq<ProfileView>, p: ProfileView)
    ensures
        save_spec(s, p).len() >= 1,
        save_spec(s, p).last() == p,
        lookup_ok(save_spec(s, p), p.process_name, p.exe_sha256, Some(save_spec(s, p).len() - 1)),
{
    let pred = |saved: ProfileView| survives_save(saved, p);
    let f = s.filter(pred);
    let n = f.push(p);
    let r = save_spec(s, p);
    assert(forall|k: int| 0 <= k < f.len() ==> pred(#[trigger] f[k])) by {
        assert forall|k: int| 0 <= k < f.len() implies pred(#[trigger] f[k]) by {
            s.lemma_filter_pred(pred, k);
        }
    }
    assert(r.last() == p);
    assert(forall|k: int| 0 <= k < r.len() - 1 ==> pred(#[trigger] r[k])) by {
        assert forall|k: int| 0 <= k < r.len() - 1 implies pred(#[trigger] r[k]) by {
            if n.len() > MAX_SAVED_PROFILES {
                assert(r[k] == n[k + n.len() - MAX_SAVED_PROFILES]);
                assert(n[k + n.len() - MAX_SAVED_PROFILES] == f[k + n.len() - MAX_SAVED_PROFILES]);
            } else {
                assert(r[k] == f[k]);
            }
        }
    }
    let last = r.len() - 1;
    match p.exe_sha256 {
        Some(d) => {
            assert(is_first(r, last, hash_match(d)));
        },
        None => {
            assert(is_first(r, last, name_match(p.process_name)));
        },
    }
}

} // verus!
