//! Translation backlog model, independent of any UI.
//!
//! The store keeps the history of translated lines for the whole run of the
//! application, bounded both in entry count and in total text bytes; the
//! oldest entries are evicted first and the newest entry is always kept.
use crate::text::{append_str, push_char};
use vstd::prelude::*;
use vstd::string::*;
use vstd::utf8::encode_utf8;

verus! {

broadcast use vstd::string::group_string_axioms;

/// Retention bound on the number of entries.
pub const MAX_BACKLOG_ENTRIES: usize = 1_000;

/// Retention bound on the total text bytes of all entries.
pub const MAX_BACKLOG_TEXT_BYTES: usize = 4 * 1024 * 1024;

/// Kind of a rendered text fragment.
#[derive(Clone, Copy, Debug, PartialEq, Eq, Structural)]
pub enum TextKind {
    Name,
    Original,
    Translation,
}

/// A text fragment a UI adapter (such as a rich edit control) can style.
#[derive(Clone, Debug, PartialEq, Eq)]
pub struct StyledText {
    pub text: String,
    pub kind: TextKind,
}

/// Which parts of each entry the backlog shows.
#[derive(Clone, Copy, Debug, PartialEq, Eq, Structural)]
pub enum BacklogFilter {
    Original,
    Translation,
    All,
}

impl Default for BacklogFilter {
    fn default() -> (r: Self)
        ensures
            r == BacklogFilter::All,
    {
        BacklogFilter::All
    }
}

/// One backlog entry.
#[derive(Clone, Debug)]
pub struct LogEntry {
    pub name: Option<String>,
    pub original: String,
    pub translation: Option<String>,
}

impl LogEntry {
    pub fn new(original: String) -> (r: Self)
        ensures
            r.name is None,
            r.original == original,
            r.translation is None,
    {
        LogEntry { name: None, original, translation: None }
    }

    pub fn with_translation(self, translation: String) -> (r: Self)
        ensures
            r.name == self.name,
            r.original == self.original,
            r.translation == Some(translation),
    {
        LogEntry { translation: Some(translation), ..self }
    }
}

/// The UTF-8 byte length of `s`, as `String::len` reports it.
pub open spec fn byte_len(s: Seq<char>) -> usize {
    encode_utf8(s).len() as usize
}

pub open spec fn opt_byte_len(s: Option<String>) -> int {
    match s {
        Some(t) => byte_len(t@) as int,
        None => 0,
    }
}

/// `x` saturated at `usize::MAX`.
pub open spec fn sat(x: int) -> int {
    if x > usize::MAX {
        usize::MAX as int
    } else {
        x
    }
}

/// Text bytes counted for one entry: name, original and translation.
pub open spec fn entry_bytes(e: LogEntry) -> int {
    sat(sat(opt_byte_len(e.name) + byte_len(e.original@)) + opt_byte_len(e.translation))
}

/// Total text bytes of a sequence of entries.
pub open spec fn total_bytes(s: Seq<LogEntry>) -> int
    decreases s.len(),
{
    if s.len() == 0 {
        0
    } else {
        total_bytes(s.drop_last()) + entry_bytes(s.last())
    }
}

/// The entries kept after appending: the oldest are dropped while there are
/// too many entries, or while the text is too large and more than one entry
/// remains.
pub open spec fn retained(s: Seq<LogEntry>) -> Seq<LogEntry>
    decreases s.len(),
{
    if s.len() > MAX_BACKLOG_ENTRIES || (total_bytes(s) > MAX_BACKLOG_TEXT_BYTES && s.len()
        > 1) {
        retained(s.drop_first())
    } else {
        s
    }
}

pub proof fn lemma_entry_bytes_bounds(e: LogEntry)
    ensures
        0 <= entry_bytes(e) <= usize::MAX,
{
}

pub proof fn lemma_total_nonneg(s: Seq<LogEntry>)
    ensures
        total_bytes(s) >= 0,
    decreases s.len(),
{
    if s.len() > 0 {
        lemma_total_nonneg(s.drop_last());
    }
}

/// The total splits into the first entry and the rest.
pub proof fn lemma_total_first(s: Seq<LogEntry>)
    requires
        s.len() > 0,
    ensures
        total_bytes(s) == entry_bytes(s[0]) + total_bytes(s.drop_first()),
    decreases s.len(),
{
    if s.len() == 1 {
        assert(s.drop_first().len() == 0);
        assert(s.drop_last().len() == 0);
        assert(total_bytes(s.drop_first()) == 0);
        assert(total_bytes(s.drop_last()) == 0);
        assert(s.last() == s[0]);
        assert(total_bytes(s) == total_bytes(s.drop_last()) + entry_bytes(s.last()));
    } else {
        lemma_total_first(s.drop_last());
        assert(s.drop_last().drop_first() =~= s.drop_first().drop_last());
        assert(s.drop_first().last() == s.last());
        assert(s.drop_last()[0] == s[0]);
        assert(total_bytes(s) == total_bytes(s.drop_last()) + entry_bytes(s.last()));
        assert(total_bytes(s.drop_first()) == total_bytes(s.drop_first().drop_last())
            + entry_bytes(s.drop_first().last()));
    }
}

/// Retention keeps a non-empty suffix: the entry appended last is never evicted,
/// and every kept entry is one of the given entries, in the same order.
pub proof fn lemma_retained_suffix(s: Seq<LogEntry>)
    requires
        s.len() > 0,
    ensures
        0 < retained(s).len() <= s.len(),
        retained(s) == s.subrange(s.len() - retained(s).len(), s.len() as int),
        retained(s).last() == s.last(),
    decreases s.len(),
{
    if s.len() > MAX_BACKLOG_ENTRIES || (total_bytes(s) > MAX_BACKLOG_TEXT_BYTES && s.len()
        > 1) {
        lemma_retained_suffix(s.drop_first());
        let r = retained(s.drop_first());
        assert(s.drop_first().subrange(s.len() - 1 - r.len(), s.len() - 1) =~= s.subrange(
            s.len() - r.len(),
            s.len() as int,
        ));
    } else {
        assert(s.subrange(0, s.len() as int) =~= s);
    }
}

/// Retained entries respect both bounds, except that one oversized entry is kept alone.
pub proof fn lemma_retained_bounds(s: Seq<LogEntry>)
    ensures
        retained(s).len() <= MAX_BACKLOG_ENTRIES,
        total_bytes(retained(s)) <= MAX_BACKLOG_TEXT_BYTES || retained(s).len() <= 1,
    decreases s.len(),
{
    if s.len() > MAX_BACKLOG_ENTRIES || (total_bytes(s) > MAX_BACKLOG_TEXT_BYTES && s.len()
        > 1) {
        lemma_retained_bounds(s.drop_first());
    }
}

/// The application-lifetime translation history.
pub struct BacklogStore {
    entries: std::collections::VecDeque<LogEntry>,
    text_bytes: usize,
}

impl View for BacklogStore {
    type V = Seq<LogEntry>;

    closed spec fn view(&self) -> Seq<LogEntry> {
        self.entries@
    }
}

impl BacklogStore {
    /// The stored text-byte counter equals the total of the entries, and both
    /// retention bounds hold.
    pub closed spec fn wf(&self) -> bool {
        &&& self.text_bytes as int == total_bytes(self.entries@)
        &&& self.entries@.len() <= MAX_BACKLOG_ENTRIES
        &&& total_bytes(self.entries@) <= MAX_BACKLOG_TEXT_BYTES || self.entries@.len() <= 1
    }

    /// What a well-formed store guarantees about its contents.
    pub proof fn lemma_wf_bounds(&self)
        requires
            self.wf(),
        ensures
            self@.len() <= MAX_BACKLOG_ENTRIES,
            total_bytes(self@) <= MAX_BACKLOG_TEXT_BYTES || self@.len() <= 1,
    {
    }

    pub fn new() -> (r: Self)
        ensures
            r.wf(),
            r@ == Seq::<LogEntry>::empty(),
    {
        BacklogStore { entries: std::collections::VecDeque::new(), text_bytes: 0 }
    }

    /// Number of stored entries.
    pub fn len(&self) -> (r: usize)
        ensures
            r == self@.len(),
    {
        self.entries.len()
    }

    /// Appends an entry and evicts the oldest entries beyond the bounds.
    /// Returns whether anything was evicted, so a UI can decide on a full redraw.
    pub fn push(&mut self, entry: LogEntry) -> (evicted: bool)
        requires
            old(self).wf(),
        ensures
            final(self).wf(),
            final(self)@ == retained(old(self)@.push(entry)),
            evicted == (final(self)@.len() < old(self)@.len() + 1),
    {
        let ghost s0 = self.entries@.push(entry);
        let e = entry_text_bytes(&entry);
        let mut rest = self.text_bytes;
        self.entries.push_back(entry);
        proof {
            assert(self.entries@.drop_last() =~= old(self).entries@);
            lemma_total_nonneg(self.entries@.drop_last());
        }
        let mut evicted = false;
        while self.entries.len() > MAX_BACKLOG_ENTRIES || ((e > MAX_BACKLOG_TEXT_BYTES || rest
            > MAX_BACKLOG_TEXT_BYTES - e) && self.entries.len() > 1)
            invariant
                self.entries@.len() >= 1,
                self.entries@.len() <= MAX_BACKLOG_ENTRIES + 1,
                self.entries@.last() == entry,
                e as int == entry_bytes(entry),
                rest as int == total_bytes(self.entries@.drop_last()),
                retained(s0) == retained(self.entries@),
                evicted == (self.entries@.len() < s0.len()),
                self.entries@.len() <= s0.len(),
            decreases self.entries@.len(),
        {
            proof {
                let s = self.entries@;
                assert(total_bytes(s) == rest + e);
                lemma_total_first(s.drop_last());
                assert(s.drop_first().drop_last() =~= s.drop_last().drop_first());
                lemma_total_nonneg(s.drop_last().drop_first());
                lemma_entry_bytes_bounds(s[0]);
            }
            let removed = self.entries.pop_front();
            match removed {
                Some(old_entry) => {
                    let b = entry_text_bytes(&old_entry);
                    rest = rest - b;
                },
                None => {},
            }
            evicted = true;
        }
        proof {
            let s = self.entries@;
            assert(total_bytes(s) == rest + e);
            lemma_total_nonneg(s.drop_last());
            if s.len() == 1 {
                assert(s.drop_last().len() == 0);
            }
        }
        self.text_bytes = rest + e;
        evicted
    }

    /// Removes every entry.
    pub fn clear(&mut self)
        ensures
            final(self).wf(),
            final(self)@ == Seq::<LogEntry>::empty(),
    {
        self.entries.clear();
        self.text_bytes = 0;
    }

    /// The text fragments of all entries under `filter`, oldest entry first.
    pub fn render(&self, filter: BacklogFilter, add_linefeed: bool) -> (r: Vec<StyledText>)
        ensures
            styled_view(r@) == render_spec(self@, filter, add_linefeed),
    {
        let mut out: Vec<StyledText> = Vec::new();
        let n = self.entries.len();
        let mut i: usize = 0;
        while i < n
            invariant
                n == self.entries@.len(),
                i <= n,
                styled_view(out@) == render_spec(self.entries@.take(i as int), filter, add_linefeed),
            decreases n - i,
        {
            let part = format_entry(&self.entries[i], filter, add_linefeed);
            let ghost before = out@;
            let mut j: usize = 0;
            while j < part.len()
                invariant
                    j <= part.len(),
                    styled_view(out@) == styled_view(before) + styled_view(part@.take(j as int)),
                decreases part.len() - j,
            {
                let item = part[j].clone_text();
                let ghost prev = out@;
                out.push(item);
                proof {
                    assert(part@.take(j + 1) =~= part@.take(j as int).push(part@[j as int]));
                    assert(styled_view(part@.take(j + 1)) =~= styled_view(part@.take(j as int)).push(
                        (part@[j as int].text@, part@[j as int].kind),
                    ));
                    assert(styled_view(out@) =~= styled_view(prev).push((item.text@, item.kind)));
                    assert(styled_view(out@) =~= styled_view(before) + styled_view(
                        part@.take(j + 1),
                    ));
                }
                j = j + 1;
            }
            proof {
                assert(part@.take(part@.len() as int) =~= part@);
                let t = self.entries@.take(i + 1);
                assert(t.drop_last() =~= self.entries@.take(i as int));
                assert(t.last() == self.entries@[i as int]);
            }
            i = i + 1;
        }
        proof {
            assert(self.entries@.take(n as int) =~= self.entries@);
        }
        out
    }

    /// The text fragments of a single entry under `filter`.
    pub fn render_entry(entry: &LogEntry, filter: BacklogFilter, add_linefeed: bool) -> (r: Vec<
        StyledText,
    >)
        ensures
            styled_view(r@) == format_spec(*entry, filter, add_linefeed),
    {
        format_entry(entry, filter, add_linefeed)
    }

    /// The whole backlog as plain text: for each entry an optional `[name] `
    /// prefix, the original, CRLF, the translation and CRLF when there is one,
    /// and a blank line.
    pub fn export_text(&self) -> (r: String)
        ensures
            r@ == export_spec(self@),
    {
        let mut content = String::new();
        let n = self.entries.len();
        let mut i: usize = 0;
        while i < n
            invariant
                n == self.entries@.len(),
                i <= n,
                content@ == export_spec(self.entries@.take(i as int)),
            decreases n - i,
        {
            let entry = &self.entries[i];
            let ghost before = content@;
            match &entry.name {
                Some(name) => {
                    push_char(&mut content, '[');
                    append_str(&mut content, name.as_str());
                    push_char(&mut content, ']');
                    push_char(&mut content, ' ');
                },
                None => {},
            }
            append_str(&mut content, entry.original.as_str());
            push_char(&mut content, '\r');
            push_char(&mut content, '\n');
            match &entry.translation {
                Some(translation) => {
                    append_str(&mut content, translation.as_str());
                    push_char(&mut content, '\r');
                    push_char(&mut content, '\n');
                },
                None => {},
            }
            push_char(&mut content, '\r');
            push_char(&mut content, '\n');
            proof {
                assert(content@ =~= before + entry_export(*entry));
                let t = self.entries@.take(i + 1);
                assert(t.drop_last() =~= self.entries@.take(i as int));
                assert(t.last() == self.entries@[i as int]);
            }
            i = i + 1;
        }
        proof {
            assert(self.entries@.take(n as int) =~= self.entries@);
        }
        content
    }
}

impl StyledText {
    /// A copy with the same text and kind.
    pub fn clone_text(&self) -> (r: StyledText)
        ensures
            r.text@ == self.text@,
            r.kind == self.kind,
    {
        StyledText { text: self.text.clone(), kind: self.kind }
    }
}

/// Text and kind of each fragment.
pub open spec fn styled_view(v: Seq<StyledText>) -> Seq<(Seq<char>, TextKind)> {
    v.map_values(|t: StyledText| (t.text@, t.kind))
}

pub open spec fn crlf() -> Seq<char> {
    seq!['\r', '\n']
}

/// `[name] `
pub open spec fn name_label(name: Seq<char>) -> Seq<char> {
    seq!['['] + name + seq![']', ' ']
}

/// The fragments shown for one entry: the name label and the original unless
/// only translations are shown, the translation unless only originals are
/// shown, each followed by CRLF when line feeds are added, and a separating
/// CRLF after every entry when everything is shown with line feeds.
pub open spec fn format_spec(e: LogEntry, filter: BacklogFilter, lf: bool) -> Seq<
    (Seq<char>, TextKind),
> {
    let name_part = match e.name {
        Some(n) => if filter != BacklogFilter::Translation {
            seq![(name_label(n@), TextKind::Name)]
        } else {
            Seq::empty()
        },
        None => Seq::empty(),
    };
    let original_part = if filter != BacklogFilter::Translation {
        seq![(e.original@, TextKind::Original)] + if lf {
            seq![(crlf(), TextKind::Original)]
        } else {
            Seq::empty()
        }
    } else {
        Seq::empty()
    };
    let translation_part = match e.translation {
        Some(t) => if filter != BacklogFilter::Original {
            seq![(t@, TextKind::Translation)] + if lf {
                seq![(crlf(), TextKind::Translation)]
            } else {
                Seq::empty()
            }
        } else {
            Seq::empty()
        },
        None => Seq::empty(),
    };
    let tail = if filter == BacklogFilter::All && lf {
        seq![(crlf(), TextKind::Original)]
    } else {
        Seq::empty()
    };
    name_part + original_part + translation_part + tail
}

/// The fragments of all entries, oldest first.
pub open spec fn render_spec(s: Seq<LogEntry>, filter: BacklogFilter, lf: bool) -> Seq<
    (Seq<char>, TextKind),
>
    decreases s.len(),
{
    if s.len() == 0 {
        Seq::empty()
    } else {
        render_spec(s.drop_last(), filter, lf) + format_spec(s.last(), filter, lf)
    }
}

/// Kinds the filter `filter` lets through: only originals and names without
/// translations under `Original`, only translations under `Translation`.
pub open spec fn kind_shown(filter: BacklogFilter, kind: TextKind) -> bool {
    match filter {
        BacklogFilter::Original => kind != TextKind::Translation,
        BacklogFilter::Translation => kind == TextKind::Translation,
        BacklogFilter::All => true,
    }
}

/// The backlog filter is obeyed: showing originals renders no translation
/// fragment, and showing translations renders nothing but translation
/// fragments, for every backlog.
pub proof fn lemma_render_obeys_filter(s: Seq<LogEntry>, filter: BacklogFilter, lf: bool)
    ensures
        forall|k: int|
            0 <= k < render_spec(s, filter, lf).len() ==> kind_shown(
                filter,
                (#[trigger] render_spec(s, filter, lf)[k]).1,
            ),
    decreases s.len(),
{
    if s.len() > 0 {
        lemma_render_obeys_filter(s.drop_last(), filter, lf);
        let a = render_spec(s.drop_last(), filter, lf);
        let f = format_spec(s.last(), filter, lf);
        let r = render_spec(s, filter, lf);
        assert(r =~= a + f);
        assert forall|k: int| 0 <= k < r.len() implies kind_shown(filter, (#[trigger] r[k]).1) by {
            if k < a.len() {
                assert(r[k] == a[k]);
            } else {
                assert(r[k] == f[k - a.len()]);
            }
        }
    }
}

/// Without line feeds, showing translations renders every translation of the
/// backlog, oldest first, and nothing else; showing originals renders each
/// entry's name label (when it has a name) and its original, oldest first,
/// and nothing else.
pub proof fn lemma_render_filtered_texts(s: Seq<LogEntry>)
    ensures
        render_spec(s, BacklogFilter::Translation, false) == translations_of(s),
        render_spec(s, BacklogFilter::Original, false) == originals_of(s),
    decreases s.len(),
{
    if s.len() > 0 {
        lemma_render_filtered_texts(s.drop_last());
        assert(render_spec(s, BacklogFilter::Translation, false) =~= translations_of(s));
        assert(render_spec(s, BacklogFilter::Original, false) =~= originals_of(s));
    }
}

/// The name labels and originals of the entries, oldest first.
pub open spec fn originals_of(s: Seq<LogEntry>) -> Seq<(Seq<char>, TextKind)>
    decreases s.len(),
{
    if s.len() == 0 {
        Seq::empty()
    } else {
        originals_of(s.drop_last()) + match s.last().name {
            Some(n) => seq![(seq!['['] + n@ + seq![']', ' '], TextKind::Name)],
            None => Seq::empty(),
        } + seq![(s.last().original@, TextKind::Original)]
    }
}

/// The translations of the entries that have one, oldest first.
pub open spec fn translations_of(s: Seq<LogEntry>) -> Seq<(Seq<char>, TextKind)>
    decreases s.len(),
{
    if s.len() == 0 {
        Seq::empty()
    } else {
        translations_of(s.drop_last()) + match s.last().translation {
            Some(t) => seq![(t@, TextKind::Translation)],
            None => Seq::empty(),
        }
    }
}

/// The exported text of one entry.
pub open spec fn entry_export(e: LogEntry) -> Seq<char> {
    let name_part = match e.name {
        Some(n) => name_label(n@),
        None => Seq::empty(),
    };
    let translation_part = match e.translation {
        Some(t) => t@ + crlf(),
        None => Seq::empty(),
    };
    name_part + e.original@ + crlf() + translation_part + crlf()
}

/// The exported text of all entries, oldest first.
pub open spec fn export_spec(s: Seq<LogEntry>) -> Seq<char>
    decreases s.len(),
{
    if s.len() == 0 {
        Seq::empty()
    } else {
        export_spec(s.drop_last()) + entry_export(s.last())
    }
}

fn str_byte_len(s: &String) -> (r: usize)
    ensures
        r == byte_len(s@),
{
    s.as_str().len()
}

/// Text bytes of one entry, saturating at `usize::MAX`.
pub fn entry_text_bytes(entry: &LogEntry) -> (r: usize)
    ensures
        r == entry_bytes(*entry),
{
    let name_len = match &entry.name {
        Some(name) => str_byte_len(name),
        None => 0,
    };
    let translation_len = match &entry.translation {
        Some(t) => str_byte_len(t),
        None => 0,
    };
    name_len.saturating_add(str_byte_len(&entry.original)).saturating_add(translation_len)
}

fn styled(text: String, kind: TextKind) -> (r: StyledText)
    ensures
        r.text == text,
        r.kind == kind,
{
    StyledText { text, kind }
}

fn crlf_text() -> (r: String)
    ensures
        r@ == crlf(),
{
    let mut s = String::new();
    push_char(&mut s, '\r');
    push_char(&mut s, '\n');
    assert(s@ =~= crlf());
    s
}

fn format_entry(entry: &LogEntry, filter: BacklogFilter, add_linefeed: bool) -> (r: Vec<
    StyledText,
>)
    ensures
        styled_view(r@) == format_spec(*entry, filter, add_linefeed),
{
    let mut segments: Vec<StyledText> = Vec::new();
    match &entry.name {
        Some(name) => {
            if filter != BacklogFilter::Translation {
                let mut label = String::new();
                push_char(&mut label, '[');
                append_str(&mut label, name.as_str());
                push_char(&mut label, ']');
                push_char(&mut label, ' ');
                assert(label@ =~= name_label(name@));
                segments.push(styled(label, TextKind::Name));
            }
        },
        None => {},
    }
    let ghost after_name = styled_view(segments@);
    if filter != BacklogFilter::Translation {
        segments.push(styled(entry.original.clone(), TextKind::Original));
        if add_linefeed {
            segments.push(styled(crlf_text(), TextKind::Original));
        }
    }
    let ghost after_original = styled_view(segments@);
    match &entry.translation {
        Some(translation) => {
            if filter != BacklogFilter::Original {
                segments.push(styled(translation.clone(), TextKind::Translation));
                if add_linefeed {
                    segments.push(styled(crlf_text(), TextKind::Translation));
                }
            }
        },
        None => {},
    }
    let ghost after_translation = styled_view(segments@);
    if filter == BacklogFilter::All && add_linefeed {
        segments.push(styled(crlf_text(), TextKind::Original));
    }
    assert(styled_view(segments@) =~= format_spec(*entry, filter, add_linefeed));
    segments
}

/// Failure to export the backlog to a file.
#[derive(Clone, Debug, PartialEq, Eq)]
pub enum BacklogExportError {
    /// The file could not be created.
    Create { path: String, reason: String },
    /// The file could not be written.
    Write { path: String, reason: String },
}

} // verus!
