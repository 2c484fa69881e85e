//! User-configurable global hotkeys.
//!
//! The configuration file stores a hotkey as a readable string such as
//! `Ctrl+Shift+A`; registration uses the Windows virtual-key code and the
//! `RegisterHotKey` modifier bits.
use crate::text::{
    append_str, ascii_lower, chars_are, chars_of, is_ws, lower_seq, lowered, push_char,
    split_on, string_from_chars, string_of, sub_chars, trim, trim_bounds,
};
use vstd::prelude::*;

verus! {

/// One hotkey: a modifier combination and a virtual key.
#[derive(Clone, Copy, Debug, PartialEq, Eq, Structural)]
pub struct HotkeySpec {
    pub ctrl: bool,
    pub shift: bool,
    pub alt: bool,
    pub win: bool,
    pub vk: u32,
}

/// `RegisterHotKey` modifier bits.
pub const MOD_ALT: u32 = 0x0001;
pub const MOD_CONTROL: u32 = 0x0002;
pub const MOD_SHIFT: u32 = 0x0004;
pub const MOD_WIN: u32 = 0x0008;

/// Virtual-key codes used by the default hotkeys.
pub const VK_A: u32 = 0x41;
pub const VK_C: u32 = 0x43;
pub const VK_UP: u32 = 0x26;
pub const VK_DOWN: u32 = 0x28;

/// The key-name table: the name under which each supported virtual key is
/// written (A-Z, 0-9, arrows, Space, Tab, F1-F12 and the common OEM keys).
pub open spec fn key_name(vk: u32) -> Option<Seq<char>> {
    if (0x41 <= vk && vk <= 0x5A) || (0x30 <= vk && vk <= 0x39) {
        Some(seq![vk as char])
    } else if vk == 0x26 {
        Some(seq!['U', 'p'])
    } else if vk == 0x28 {
        Some(seq!['D', 'o', 'w', 'n'])
    } else if vk == 0x25 {
        Some(seq!['L', 'e', 'f', 't'])
    } else if vk == 0x27 {
        Some(seq!['R', 'i', 'g', 'h', 't'])
    } else if vk == 0x20 {
        Some(seq!['S', 'p', 'a', 'c', 'e'])
    } else if vk == 0x09 {
        Some(seq!['T', 'a', 'b'])
    } else if 0x70 <= vk && vk <= 0x78 {
        Some(seq!['F', (vk - 0x3F) as char])
    } else if vk == 0x79 {
        Some(seq!['F', '1', '0'])
    } else if vk == 0x7A {
        Some(seq!['F', '1', '1'])
    } else if vk == 0x7B {
        Some(seq!['F', '1', '2'])
    } else if vk == 0xBA {
        Some(seq![';'])
    } else if vk == 0xBF {
        Some(seq!['/'])
    } else if vk == 0xC0 {
        Some(seq!['`'])
    } else if vk == 0xDB {
        Some(seq!['['])
    } else if vk == 0xDC {
        Some(seq!['\\'])
    } else if vk == 0xDD {
        Some(seq![']'])
    } else if vk == 0xDE {
        Some(seq!['\''])
    } else if vk == 0xBC {
        Some(seq![','])
    } else if vk == 0xBD {
        Some(seq!['-'])
    } else if vk == 0xBE {
        Some(seq!['.'])
    } else if vk == 0xBB {
        Some(seq!['='])
    } else {
        None
    }
}

/// The virtual key of a one-character key name, given in lower case.
pub open spec fn single_key_vk(c: char) -> Option<u32> {
    if 'a' <= c && c <= 'z' {
        Some(((c as u32) - 32) as u32)
    } else if '0' <= c && c <= '9' {
        Some(c as u32)
    } else if c == ';' {
        Some(0xBA)
    } else if c == '/' {
        Some(0xBF)
    } else if c == '`' {
        Some(0xC0)
    } else if c == '[' {
        Some(0xDB)
    } else if c == '\\' {
        Some(0xDC)
    } else if c == ']' {
        Some(0xDD)
    } else if c == '\'' {
        Some(0xDE)
    } else if c == ',' {
        Some(0xBC)
    } else if c == '-' {
        Some(0xBD)
    } else if c == '.' {
        Some(0xBE)
    } else if c == '=' {
        Some(0xBB)
    } else {
        None
    }
}

/// The virtual key whose table name equals `name` up to ASCII case.
pub open spec fn key_vk(name: Seq<char>) -> Option<u32> {
    let l = lower_seq(name);
    if l.len() == 1 {
        single_key_vk(l[0])
    } else if l == seq!['u', 'p'] {
        Some(0x26)
    } else if l == seq!['d', 'o', 'w', 'n'] {
        Some(0x28)
    } else if l == seq!['l', 'e', 'f', 't'] {
        Some(0x25)
    } else if l == seq!['r', 'i', 'g', 'h', 't'] {
        Some(0x27)
    } else if l == seq!['s', 'p', 'a', 'c', 'e'] {
        Some(0x20)
    } else if l == seq!['t', 'a', 'b'] {
        Some(0x09)
    } else if l.len() == 2 && l[0] == 'f' && '1' <= l[1] && l[1] <= '9' {
        Some(((l[1] as u32) + 0x3F) as u32)
    } else if l == seq!['f', '1', '0'] {
        Some(0x79)
    } else if l == seq!['f', '1', '1'] {
        Some(0x7A)
    } else if l == seq!['f', '1', '2'] {
        Some(0x7B)
    } else {
        None
    }
}

/// Modifier words (lower case) recognised while parsing.
pub open spec fn is_ctrl_word(l: Seq<char>) -> bool {
    l == seq!['c', 't', 'r', 'l'] || l == seq!['c', 'o', 'n', 't', 'r', 'o', 'l']
}

pub open spec fn is_shift_word(l: Seq<char>) -> bool {
    l == seq!['s', 'h', 'i', 'f', 't']
}

pub open spec fn is_alt_word(l: Seq<char>) -> bool {
    l == seq!['a', 'l', 't']
}

pub open spec fn is_win_word(l: Seq<char>) -> bool {
    l == seq!['w', 'i', 'n'] || l == seq!['w', 'i', 'n', 'd', 'o', 'w', 's']
}

/// Every name of the table maps back to its key, and is a non-empty word
/// without `+` or white space that is not a modifier word.
pub proof fn lemma_key_name_roundtrip(vk: u32)
    requires
        key_name(vk) is Some,
    ensures
        key_vk(key_name(vk)->0) == Some(vk),
        key_name(vk)->0.len() > 0,
        forall|i: int|
            0 <= i < key_name(vk)->0.len() ==> key_name(vk)->0[i] != '+' && !is_ws(
                #[trigger] key_name(vk)->0[i],
            ),
        !is_ctrl_word(lower_seq(key_name(vk)->0)),
        !is_shift_word(lower_seq(key_name(vk)->0)),
        !is_alt_word(lower_seq(key_name(vk)->0)),
        !is_win_word(lower_seq(key_name(vk)->0)),
{
    let n = key_name(vk)->0;
    let l = lower_seq(n);
    assert(l.len() == n.len());
    if (0x41 <= vk && vk <= 0x5A) || (0x30 <= vk && vk <= 0x39) {
        assert(n[0] == vk as char);
        assert((vk as char) as u32 == vk);
        assert(l[0] == ascii_lower(n[0]));
    } else if vk == 0x26 {
        assert(l =~= seq!['u', 'p']);
    } else if vk == 0x28 {
        assert(l =~= seq!['d', 'o', 'w', 'n']);
    } else if vk == 0x25 {
        assert(l =~= seq!['l', 'e', 'f', 't']);
    } else if vk == 0x27 {
        assert(l =~= seq!['r', 'i', 'g', 'h', 't']);
    } else if vk == 0x20 {
        assert(l =~= seq!['s', 'p', 'a', 'c', 'e']);
    } else if vk == 0x09 {
        assert(l =~= seq!['t', 'a', 'b']);
    } else if 0x70 <= vk && vk <= 0x78 {
        assert(n[1] == (vk - 0x3F) as char);
        assert(((vk - 0x3F) as char) as u32 == vk - 0x3F);
        assert(l =~= seq!['f', (vk - 0x3F) as char]);
    } else if vk == 0x79 {
        assert(l =~= seq!['f', '1', '0']);
    } else if vk == 0x7A {
        assert(l =~= seq!['f', '1', '1']);
    } else if vk == 0x7B {
        assert(l =~= seq!['f', '1', '2']);
    } else {
        assert(l[0] == ascii_lower(n[0]));
    }
}

/// The key names follow the Windows virtual-key codes: a letter or digit key
/// is named by its character, whose code is the key's code; the arrows Left,
/// Up, Right and Down are 0x25 to 0x28, Space 0x20, Tab 0x09, F1 to F12 are
/// 0x70 to 0x7B, and the US-layout punctuation keys are the OEM codes. Names are
/// read in any ASCII case.
pub proof fn lemma_key_names_are_virtual_key_codes(vk: u32, name: Seq<char>)
    ensures
        (0x41 <= vk <= 0x5A || 0x30 <= vk <= 0x39) ==> key_name(vk) == Some(seq![vk as char]),
        key_name(0x25) == Some(seq!['L', 'e', 'f', 't']),
        key_name(0x26) == Some(seq!['U', 'p']),
        key_name(0x27) == Some(seq!['R', 'i', 'g', 'h', 't']),
        key_name(0x28) == Some(seq!['D', 'o', 'w', 'n']),
        key_name(0x20) == Some(seq!['S', 'p', 'a', 'c', 'e']),
        key_name(0x09) == Some(seq!['T', 'a', 'b']),
        1 <= vk <= 9 ==> key_name((0x6F + vk) as u32) == Some(seq!['F', ((vk + 48) as u32) as char]),
        key_name(0x79) == Some(seq!['F', '1', '0']),
        key_name(0x7A) == Some(seq!['F', '1', '1']),
        key_name(0x7B) == Some(seq!['F', '1', '2']),
        key_name(0xBA) == Some(seq![';']),
        key_name(0xBB) == Some(seq!['=']),
        key_name(0xBC) == Some(seq![',']),
        key_name(0xBD) == Some(seq!['-']),
        key_name(0xBE) == Some(seq!['.']),
        key_name(0xBF) == Some(seq!['/']),
        key_name(0xC0) == Some(seq!['`']),
        key_name(0xDB) == Some(seq!['[']),
        key_name(0xDC) == Some(seq!['\\']),
        key_name(0xDD) == Some(seq![']']),
        key_name(0xDE) == Some(seq!['\'']),
        lower_seq(name) == seq!['l', 'e', 'f', 't'] ==> key_vk(name) == Some(0x25u32),
        lower_seq(name) == seq!['u', 'p'] ==> key_vk(name) == Some(0x26u32),
        lower_seq(name) == seq!['r', 'i', 'g', 'h', 't'] ==> key_vk(name) == Some(0x27u32),
        lower_seq(name) == seq!['d', 'o', 'w', 'n'] ==> key_vk(name) == Some(0x28u32),
        lower_seq(name) == seq!['s', 'p', 'a', 'c', 'e'] ==> key_vk(name) == Some(0x20u32),
        lower_seq(name) == seq!['t', 'a', 'b'] ==> key_vk(name) == Some(0x09u32),
        lower_seq(name) == seq!['f', '1', '0'] ==> key_vk(name) == Some(0x79u32),
        lower_seq(name) == seq!['f', '1', '1'] ==> key_vk(name) == Some(0x7Au32),
        lower_seq(name) == seq!['f', '1', '2'] ==> key_vk(name) == Some(0x7Bu32),
        (name.len() == 2 && lower_seq(name)[0] == 'f' && '1' <= name[1] <= '9') ==> key_vk(name)
            == Some(((name[1] as u32) - 48 + 0x6F) as u32),
        (name.len() == 1 && 'A' <= name[0] <= 'Z') ==> key_vk(name) == Some(name[0] as u32),
        (name.len() == 1 && 'a' <= name[0] <= 'z') ==> key_vk(name) == Some(
            ((name[0] as u32) - 32) as u32,
        ),
        (name.len() == 1 && '0' <= name[0] <= '9') ==> key_vk(name) == Some(name[0] as u32),
{
    let l = lower_seq(name);
    assert(l.len() == name.len());
    if name.len() == 1 {
        assert(l[0] == ascii_lower(name[0]));
    }
    if name.len() == 2 {
        assert(l[1] == ascii_lower(name[1]));
    }
}

/// Parser state: modifiers seen so far and the last key.
#[derive(Clone, Copy, Debug, PartialEq, Eq, Structural)]
pub struct ParseAcc {
    pub ctrl: bool,
    pub shift: bool,
    pub alt: bool,
    pub win: bool,
    pub vk: Option<u32>,
}

/// Why a hotkey string is rejected.
#[derive(Clone, Debug, PartialEq, Eq)]
pub enum HotkeyParseError {
    /// The string is empty or white space only.
    Empty,
    /// A token is neither a modifier nor a known key name.
    UnknownKey(String),
    /// Only modifiers were given.
    MissingKey,
}

/// [`HotkeyParseError`] with the unknown key as a character sequence.
pub enum ParseFailure {
    Empty,
    UnknownKey(Seq<char>),
    MissingKey,
}

impl HotkeyParseError {
    pub open spec fn failure(&self) -> ParseFailure {
        match self {
            HotkeyParseError::Empty => ParseFailure::Empty,
            HotkeyParseError::UnknownKey(s) => ParseFailure::UnknownKey(s@),
            HotkeyParseError::MissingKey => ParseFailure::MissingKey,
        }
    }
}

pub open spec fn initial_acc() -> ParseAcc {
    ParseAcc { ctrl: false, shift: false, alt: false, win: false, vk: None }
}

/// One `+`-separated token: trimmed; empty tokens are skipped; modifier
/// words (any ASCII case) set their flag; anything else must be a key name,
/// and the last key named wins.
pub open spec fn parse_step(acc: ParseAcc, token: Seq<char>) -> Result<ParseAcc, ParseFailure> {
    let t = trim(token);
    let l = lower_seq(t);
    if t.len() == 0 {
        Ok(acc)
    } else if is_ctrl_word(l) {
        Ok(ParseAcc { ctrl: true, ..acc })
    } else if is_shift_word(l) {
        Ok(ParseAcc { shift: true, ..acc })
    } else if is_alt_word(l) {
        Ok(ParseAcc { alt: true, ..acc })
    } else if is_win_word(l) {
        Ok(ParseAcc { win: true, ..acc })
    } else {
        match key_vk(t) {
            Some(vk) => Ok(ParseAcc { vk: Some(vk), ..acc }),
            None => Err(ParseFailure::UnknownKey(t)),
        }
    }
}

/// Tokens processed left to right; the first failure stops the parse.
pub open spec fn parse_tokens(acc: ParseAcc, tokens: Seq<Seq<char>>) -> Result<ParseAcc, ParseFailure>
    decreases tokens.len(),
{
    if tokens.len() == 0 {
        Ok(acc)
    } else {
        match parse_tokens(acc, tokens.drop_last()) {
            Ok(a) => parse_step(a, tokens.last()),
            Err(e) => Err(e),
        }
    }
}

/// `s` split at every `+` (as `str::split('+')`).
pub open spec fn split_plus(s: Seq<char>) -> Seq<Seq<char>> {
    split_on(s, '+')
}

/// The parse of a hotkey string (`HotkeySpec::from_str`).
pub open spec fn parse_spec(s: Seq<char>) -> Result<HotkeySpec, ParseFailure> {
    let t = trim(s);
    if t.len() == 0 {
        Err(ParseFailure::Empty)
    } else {
        match parse_tokens(initial_acc(), split_plus(t)) {
            Err(e) => Err(e),
            Ok(a) => match a.vk {
                None => Err(ParseFailure::MissingKey),
                Some(vk) => Ok(HotkeySpec { ctrl: a.ctrl, shift: a.shift, alt: a.alt, win: a.win, vk }),
            },
        }
    }
}

pub open spec fn result_failure(r: Result<HotkeySpec, HotkeyParseError>) -> Result<
    HotkeySpec,
    ParseFailure,
> {
    match r {
        Ok(h) => Ok(h),
        Err(e) => Err(e.failure()),
    }
}

/// The parts of the display form: present modifiers in the order Ctrl, Shift,
/// Alt, Win, then the key name (`?` for a key outside the table).
pub open spec fn display_parts(h: HotkeySpec) -> Seq<Seq<char>> {
    (if h.ctrl {
        seq![seq!['C', 't', 'r', 'l']]
    } else {
        Seq::empty()
    }) + (if h.shift {
        seq![seq!['S', 'h', 'i', 'f', 't']]
    } else {
        Seq::empty()
    }) + (if h.alt {
        seq![seq!['A', 'l', 't']]
    } else {
        Seq::empty()
    }) + (if h.win {
        seq![seq!['W', 'i', 'n']]
    } else {
        Seq::empty()
    }) + seq![
        match key_name(h.vk) {
            Some(n) => n,
            None => seq!['?'],
        },
    ]
}

/// Parts joined with `+`.
pub open spec fn join_plus(ps: Seq<Seq<char>>) -> Seq<char>
    decreases ps.len(),
{
    if ps.len() == 0 {
        Seq::empty()
    } else if ps.len() == 1 {
        ps[0]
    } else {
        join_plus(ps.drop_last()) + seq!['+'] + ps.last()
    }
}

/// The display form, e.g. `Ctrl+Shift+A`.
pub open spec fn display_spec(h: HotkeySpec) -> Seq<char> {
    join_plus(display_parts(h))
}

pub open spec fn has_no_plus(s: Seq<char>) -> bool {
    forall|i: int| 0 <= i < s.len() ==> #[trigger] s[i] != '+'
}

proof fn lemma_split_no_plus(s: Seq<char>)
    requires
        has_no_plus(s),
    ensures
        split_plus(s) == seq![s],
    decreases s.len(),
{
    if s.len() > 0 {
        assert forall|i: int| 0 <= i < s.drop_last().len() implies #[trigger] s.drop_last()[i]
            != '+' by {
            assert(s.drop_last()[i] == s[i]);
        }
        assert(s[s.len() - 1] != '+');
        lemma_split_no_plus(s.drop_last());
        assert(s.drop_last().push(s.last()) =~= s);
        assert(split_plus(s) =~= seq![s]);
    } else {
        assert(s =~= Seq::<char>::empty());
    }
}

proof fn lemma_split_plus_len(s: Seq<char>)
    ensures
        split_plus(s).len() >= 1,
    decreases s.len(),
{
    if s.len() > 0 {
        lemma_split_plus_len(s.drop_last());
    }
}

proof fn lemma_split_concat(x: Seq<char>, y: Seq<char>)
    ensures
        split_plus(x + seq!['+'] + y) == split_plus(x) + split_plus(y),
    decreases y.len(),
{
    let xy = x + seq!['+'] + y;
    if y.len() == 0 {
        assert(xy.drop_last() =~= x);
        assert(split_plus(xy) =~= split_plus(x) + split_plus(y));
    } else {
        lemma_split_concat(x, y.drop_last());
        assert(xy.drop_last() =~= x + seq!['+'] + y.drop_last());
        assert(xy.last() == y.last());
        lemma_split_plus_len(y.drop_last());
        lemma_split_plus_len(x);
        let a = split_plus(x);
        let b = split_plus(y.drop_last());
        if y.last() == '+' {
            assert(split_plus(xy) =~= (a + b).push(Seq::<char>::empty()));
            assert(split_plus(xy) =~= a + split_plus(y));
        } else {
            assert((a + b).last() == b.last());
            assert(split_plus(xy) =~= a + b.update(b.len() - 1, b.last().push(y.last())));
            assert(split_plus(xy) =~= a + split_plus(y));
        }
    }
}

/// Splitting a `+`-join of `+`-free parts gives the parts back.
proof fn lemma_split_join(ps: Seq<Seq<char>>)
    requires
        ps.len() >= 1,
        forall|i: int| 0 <= i < ps.len() ==> has_no_plus(#[trigger] ps[i]),
    ensures
        split_plus(join_plus(ps)) == ps,
    decreases ps.len(),
{
    if ps.len() == 1 {
        lemma_split_no_plus(ps[0]);
        assert(seq![ps[0]] =~= ps);
    } else {
        let init = ps.drop_last();
        assert forall|i: int| 0 <= i < init.len() implies has_no_plus(#[trigger] init[i]) by {
            assert(init[i] == ps[i]);
        }
        lemma_split_join(init);
        lemma_split_concat(join_plus(init), ps.last());
        lemma_split_no_plus(ps.last());
        assert(init + seq![ps.last()] =~= ps);
    }
}

proof fn lemma_trim_of_word(s: Seq<char>)
    requires
        s.len() > 0,
        !is_ws(s[0]),
        !is_ws(s.last()),
    ensures
        trim(s) == s,
{
}

/// Parsing the display form of a hotkey whose key is in the table gives the
/// same hotkey back.
pub proof fn lemma_display_parse_roundtrip(h: HotkeySpec)
    requires
        key_name(h.vk) is Some,
    ensures
        parse_spec(display_spec(h)) == Ok::<HotkeySpec, ParseFailure>(h),
{
    let ps = display_parts(h);
    let name = key_name(h.vk)->0;
    lemma_key_name_roundtrip(h.vk);
    let c = seq!['C', 't', 'r', 'l'];
    let sh = seq!['S', 'h', 'i', 'f', 't'];
    let a = seq!['A', 'l', 't'];
    let w = seq!['W', 'i', 'n'];
    assert(lower_seq(c) =~= seq!['c', 't', 'r', 'l']);
    assert(lower_seq(sh) =~= seq!['s', 'h', 'i', 'f', 't']);
    assert(lower_seq(a) =~= seq!['a', 'l', 't']);
    assert(lower_seq(w) =~= seq!['w', 'i', 'n']);
    assert(trim(c) == c) by { lemma_trim_of_word(c); }
    assert(trim(sh) == sh) by { lemma_trim_of_word(sh); }
    assert(trim(a) == a) by { lemma_trim_of_word(a); }
    assert(trim(w) == w) by { lemma_trim_of_word(w); }
    assert(trim(name) == name) by {
        assert(!is_ws(name[0]));
        assert(!is_ws(name[name.len() - 1]));
        lemma_trim_of_word(name);
    }
    assert(ps.last() == name);
    assert forall|i: int| 0 <= i < ps.len() implies has_no_plus(#[trigger] ps[i]) by {
        if i == ps.len() - 1 {
            assert(ps[i] == name);
        } else {
            assert(ps[i] == c || ps[i] == sh || ps[i] == a || ps[i] == w);
        }
    }
    lemma_split_join(ps);
    lemma_join_bounds(ps);
    let j = join_plus(ps);
    assert(trim(j) == j) by {
        lemma_trim_of_word(j);
    }
    lemma_parse_parts(h);
}

proof fn lemma_join_bounds(ps: Seq<Seq<char>>)
    requires
        ps.len() >= 1,
        forall|i: int| 0 <= i < ps.len() ==> (#[trigger] ps[i]).len() > 0 && !is_ws(ps[i][0])
            && !is_ws(ps[i].last()),
    ensures
        join_plus(ps).len() > 0,
        join_plus(ps)[0] == ps[0][0],
        join_plus(ps).last() == ps.last().last(),
    decreases ps.len(),
{
    if ps.len() > 1 {
        let init = ps.drop_last();
        assert forall|i: int| 0 <= i < init.len() implies (#[trigger] init[i]).len() > 0 && !is_ws(
            init[i][0],
        ) && !is_ws(init[i].last()) by {
            assert(init[i] == ps[i]);
        }
        lemma_join_bounds(init);
    }
}

proof fn lemma_parse_parts(h: HotkeySpec)
    requires
        key_name(h.vk) is Some,
        key_vk(key_name(h.vk)->0) == Some(h.vk),
        trim(key_name(h.vk)->0) == key_name(h.vk)->0,
        key_name(h.vk)->0.len() > 0,
        !is_ctrl_word(lower_seq(key_name(h.vk)->0)),
        !is_shift_word(lower_seq(key_name(h.vk)->0)),
        !is_alt_word(lower_seq(key_name(h.vk)->0)),
        !is_win_word(lower_seq(key_name(h.vk)->0)),
        trim(seq!['C', 't', 'r', 'l']) == seq!['C', 't', 'r', 'l'],
        trim(seq!['S', 'h', 'i', 'f', 't']) == seq!['S', 'h', 'i', 'f', 't'],
        trim(seq!['A', 'l', 't']) == seq!['A', 'l', 't'],
        trim(seq!['W', 'i', 'n']) == seq!['W', 'i', 'n'],
        lower_seq(seq!['C', 't', 'r', 'l']) == seq!['c', 't', 'r', 'l'],
        lower_seq(seq!['S', 'h', 'i', 'f', 't']) == seq!['s', 'h', 'i', 'f', 't'],
        lower_seq(seq!['A', 'l', 't']) == seq!['a', 'l', 't'],
        lower_seq(seq!['W', 'i', 'n']) == seq!['w', 'i', 'n'],
    ensures
        parse_tokens(initial_acc(), display_parts(h)) == Ok::<ParseAcc, ParseFailure>(
            ParseAcc { ctrl: h.ctrl, shift: h.shift, alt: h.alt, win: h.win, vk: Some(h.vk) },
        ),
{
    let c = seq!['C', 't', 'r', 'l'];
    let sh = seq!['S', 'h', 'i', 'f', 't'];
    let a = seq!['A', 'l', 't'];
    let w = seq!['W', 'i', 'n'];
    let name = key_name(h.vk)->0;
    let p1: Seq<Seq<char>> = if h.ctrl { seq![c] } else { Seq::empty() };
    let p2: Seq<Seq<char>> = if h.shift { seq![sh] } else { Seq::empty() };
    let p3: Seq<Seq<char>> = if h.alt { seq![a] } else { Seq::empty() };
    let p4: Seq<Seq<char>> = if h.win { seq![w] } else { Seq::empty() };
    let a0 = initial_acc();
    let a1 = ParseAcc { ctrl: h.ctrl, ..a0 };
    let a2 = ParseAcc { shift: h.shift, ..a1 };
    let a3 = ParseAcc { alt: h.alt, ..a2 };
    let a4 = ParseAcc { win: h.win, ..a3 };
    assert(parse_tokens(a0, Seq::<Seq<char>>::empty()) == Ok::<ParseAcc, ParseFailure>(a0));
    assert(parse_tokens(a0, p1) == Ok::<ParseAcc, ParseFailure>(a1)) by {
        if h.ctrl {
            assert(p1.drop_last() =~= Seq::<Seq<char>>::empty());
            assert(p1.last() == c);
            assert(parse_step(a0, c) == Ok::<ParseAcc, ParseFailure>(a1));
        } else {
            assert(p1 =~= Seq::<Seq<char>>::empty());
        }
    }
    assert(parse_tokens(a0, p1 + p2) == Ok::<ParseAcc, ParseFailure>(a2)) by {
        if h.shift {
            assert((p1 + p2).drop_last() =~= p1);
        } else {
            assert(p1 + p2 =~= p1);
        }
    }
    assert(parse_tokens(a0, p1 + p2 + p3) == Ok::<ParseAcc, ParseFailure>(a3)) by {
        if h.alt {
            assert((p1 + p2 + p3).drop_last() =~= p1 + p2);
        } else {
            assert(p1 + p2 + p3 =~= p1 + p2);
        }
    }
    assert(parse_tokens(a0, p1 + p2 + p3 + p4) == Ok::<ParseAcc, ParseFailure>(a4)) by {
        if h.win {
            assert((p1 + p2 + p3 + p4).drop_last() =~= p1 + p2 + p3);
        } else {
            assert(p1 + p2 + p3 + p4 =~= p1 + p2 + p3);
        }
    }
    let all = p1 + p2 + p3 + p4 + seq![name];
    assert(display_parts(h) =~= all);
    assert(all.drop_last() =~= p1 + p2 + p3 + p4);
    assert(all.last() == name);
}

impl HotkeySpec {
    pub fn new(ctrl: bool, shift: bool, alt: bool, win: bool, vk: u32) -> (r: Self)
        ensures
            r == (HotkeySpec { ctrl, shift, alt, win, vk }),
    {
        HotkeySpec { ctrl, shift, alt, win, vk }
    }

    /// `RegisterHotKey` modifier bits of this hotkey.
    pub fn modifiers(&self) -> (r: u32)
        ensures
            r == (if self.ctrl { MOD_CONTROL } else { 0 }) + (if self.shift { MOD_SHIFT } else { 0 })
                + (if self.alt { MOD_ALT } else { 0 }) + (if self.win { MOD_WIN } else { 0 }),
    {
        let mut modifiers: u32 = 0;
        if self.ctrl {
            modifiers = modifiers + MOD_CONTROL;
        }
        if self.shift {
            modifiers = modifiers + MOD_SHIFT;
        }
        if self.alt {
            modifiers = modifiers + MOD_ALT;
        }
        if self.win {
            modifiers = modifiers + MOD_WIN;
        }
        modifiers
    }

    /// The key can be registered: it is in the key table.
    pub fn is_valid(&self) -> (r: bool)
        ensures
            r == key_name(self.vk) is Some,
    {
        key_name_from_vk(self.vk).is_some()
    }

    /// The display form, e.g. `Ctrl+Shift+A` (the `Display` text).
    pub fn to_text(&self) -> (r: String)
        ensures
            r@ == display_spec(*self),
    {
        let mut parts: Vec<String> = Vec::new();
        let ghost mut pv: Seq<Seq<char>> = Seq::empty();
        if self.ctrl {
            parts.push(string_of(&['C', 't', 'r', 'l']));
            proof {
                pv = pv.push(seq!['C', 't', 'r', 'l']);
            }
        }
        assert(parts@.map_values(|p: String| p@) =~= pv);
        if self.shift {
            parts.push(string_of(&['S', 'h', 'i', 'f', 't']));
            proof {
                pv = pv.push(seq!['S', 'h', 'i', 'f', 't']);
            }
        }
        assert(parts@.map_values(|p: String| p@) =~= pv);
        if self.alt {
            parts.push(string_of(&['A', 'l', 't']));
            proof {
                pv = pv.push(seq!['A', 'l', 't']);
            }
        }
        assert(parts@.map_values(|p: String| p@) =~= pv);
        if self.win {
            parts.push(string_of(&['W', 'i', 'n']));
            proof {
                pv = pv.push(seq!['W', 'i', 'n']);
            }
        }
        assert(parts@.map_values(|p: String| p@) =~= pv);
        let key = match key_name_from_vk(self.vk) {
            Some(name) => name,
            None => string_of(&['?']),
        };
        let ghost kv = key@;
        parts.push(key);
        proof {
            pv = pv.push(kv);
        }
        let ghost views = parts@.map_values(|p: String| p@);
        assert(views =~= pv);
        assert(kv == match key_name(self.vk) {
            Some(n) => n,
            None => seq!['?'],
        });
        assert(views =~= display_parts(*self));
        let mut out = String::new();
        let mut i: usize = 0;
        while i < parts.len()
            invariant
                i <= parts.len(),
                views == parts@.map_values(|p: String| p@),
                out@ == join_plus(views.take(i as int)),
            decreases parts.len() - i,
        {
            let ghost before = out@;
            if i > 0 {
                push_char(&mut out, '+');
            }
            append_str(&mut out, parts[i].as_str());
            proof {
                let t = views.take(i + 1);
                assert(t.drop_last() =~= views.take(i as int));
                if i == 0 {
                    assert(out@ =~= t[0]);
                } else {
                    assert(out@ =~= join_plus(t.drop_last()) + seq!['+'] + t.last());
                }
            }
            i = i + 1;
        }
        assert(views.take(parts.len() as int) =~= views);
        out
    }

    /// Parses `Ctrl+Shift+A`-style text (`FromStr`).
    pub fn parse(s: &str) -> (r: Result<HotkeySpec, HotkeyParseError>)
        ensures
            result_failure(r) == parse_spec(s@),
    {
        let v = chars_of(s);
        let (a, b) = trim_bounds(&v, 0, v.len());
        assert(v@.subrange(0, v@.len() as int) =~= v@);
        if a == b {
            return Err(HotkeyParseError::Empty);
        }
        let ghost t = v@.subrange(a as int, b as int);
        let tokens = split_tokens(&v, a, b);
        let mut acc = ParseAcc { ctrl: false, shift: false, alt: false, win: false, vk: None };
        let ghost views = tokens@.map_values(|x: Vec<char>| x@);
        let mut k: usize = 0;
        while k < tokens.len()
            invariant
                k <= tokens.len(),
                views == tokens@.map_values(|x: Vec<char>| x@),
                views == split_plus(t),
                t == trim(s@),
                t.len() > 0,
                parse_tokens(initial_acc(), views.take(k as int)) == Ok::<ParseAcc, ParseFailure>(
                    acc,
                ),
            decreases tokens.len() - k,
        {
            let ghost pre = views.take(k as int);
            assert(views.take(k + 1).drop_last() =~= pre);
            assert(views.take(k + 1).last() == tokens@[k as int]@);
            match parse_token(acc, &tokens[k]) {
                Ok(next) => {
                    acc = next;
                },
                Err(e) => {
                    proof {
                        assert(parse_step(acc, views[k as int]) == Err::<ParseAcc, ParseFailure>(
                            e.failure(),
                        ));
                        assert(parse_tokens(initial_acc(), views.take(k + 1)) == Err::<
                            ParseAcc,
                            ParseFailure,
                        >(e.failure()));
                        lemma_parse_err_extends(initial_acc(), views.take(k + 1), views.skip(k + 1));
                        assert(views.take(k + 1) + views.skip(k + 1) =~= views);
                    }
                    return Err(e);
                },
            }
            k = k + 1;
        }
        assert(views.take(tokens.len() as int) =~= views);
        match acc.vk {
            None => Err(HotkeyParseError::MissingKey),
            Some(vk) => Ok(HotkeySpec::new(acc.ctrl, acc.shift, acc.alt, acc.win, vk)),
        }
    }
}

proof fn lemma_parse_err_extends(acc: ParseAcc, xs: Seq<Seq<char>>, ys: Seq<Seq<char>>)
    requires
        parse_tokens(acc, xs) is Err,
    ensures
        parse_tokens(acc, xs + ys) == parse_tokens(acc, xs),
    decreases ys.len(),
{
    if ys.len() == 0 {
        assert(xs + ys =~= xs);
    } else {
        lemma_parse_err_extends(acc, xs, ys.drop_last());
        assert((xs + ys).drop_last() =~= xs + ys.drop_last());
    }
}

/// The tokens of `v[from..to]` split at `+`.
fn split_tokens(v: &Vec<char>, from: usize, to: usize) -> (r: Vec<Vec<char>>)
    requires
        from <= to <= v.len(),
    ensures
        r@.map_values(|x: Vec<char>| x@) == split_plus(v@.subrange(from as int, to as int)),
{
    let mut done: Vec<Vec<char>> = Vec::new();
    let mut cur: Vec<char> = Vec::new();
    let mut i = from;
    while i < to
        invariant
            from <= i <= to <= v.len(),
            done@.map_values(|x: Vec<char>| x@).push(cur@) == split_plus(
                v@.subrange(from as int, i as int),
            ),
        decreases to - i,
    {
        let ghost s = v@.subrange(from as int, i + 1);
        assert(s.drop_last() =~= v@.subrange(from as int, i as int));
        assert(s.last() == v@[i as int]);
        let ghost prev_done = done@.map_values(|x: Vec<char>| x@);
        let ghost prev_cur = cur@;
        if v[i] == '+' {
            let mut finished: Vec<char> = Vec::new();
            std::mem::swap(&mut finished, &mut cur);
            done.push(finished);
            assert(done@.map_values(|x: Vec<char>| x@) =~= prev_done.push(prev_cur));
            assert(done@.map_values(|x: Vec<char>| x@).push(cur@) =~= split_plus(s));
        } else {
            cur.push(v[i]);
            assert(done@.map_values(|x: Vec<char>| x@).push(cur@) =~= prev_done.push(prev_cur).update(
                prev_done.len() as int,
                prev_cur.push(v@[i as int]),
            ));
        }
        i = i + 1;
    }
    let ghost prev_done = done@.map_values(|x: Vec<char>| x@);
    let ghost prev_cur = cur@;
    done.push(cur);
    assert(done@.map_values(|x: Vec<char>| x@) =~= prev_done.push(prev_cur));
    done
}

fn parse_token(acc: ParseAcc, token: &Vec<char>) -> (r: Result<ParseAcc, HotkeyParseError>)
    ensures
        match (r, parse_step(acc, token@)) {
            (Ok(a), Ok(b)) => a == b,
            (Err(e), Err(f)) => e.failure() == f,
            _ => false,
        },
{
    let (a, b) = trim_bounds(token, 0, token.len());
    assert(token@.subrange(0, token@.len() as int) =~= token@);
    if a == b {
        return Ok(acc);
    }
    let t = sub_chars(token, a, b);
    let l = lowered(&t);
    if chars_are(&l, &['c', 't', 'r', 'l']) || chars_are(&l, &['c', 'o', 'n', 't', 'r', 'o', 'l']) {
        Ok(ParseAcc { ctrl: true, ..acc })
    } else if chars_are(&l, &['s', 'h', 'i', 'f', 't']) {
        Ok(ParseAcc { shift: true, ..acc })
    } else if chars_are(&l, &['a', 'l', 't']) {
        Ok(ParseAcc { alt: true, ..acc })
    } else if chars_are(&l, &['w', 'i', 'n']) || chars_are(&l, &['w', 'i', 'n', 'd', 'o', 'w', 's']) {
        Ok(ParseAcc { win: true, ..acc })
    } else {
        match vk_from_key_name(&t) {
            Some(vk) => Ok(ParseAcc { vk: Some(vk), ..acc }),
            None => {
                let name = string_from_chars(&t, 0, t.len());
                assert(name@ =~= t@);
                Err(HotkeyParseError::UnknownKey(name))
            },
        }
    }
}

/// The name of a supported virtual key.
pub fn key_name_from_vk(vk: u32) -> (r: Option<String>)
    ensures
        match r {
            Some(s) => key_name(vk) == Some(s@),
            None => key_name(vk) is None,
        },
{
    if (0x41 <= vk && vk <= 0x5A) || (0x30 <= vk && vk <= 0x39) {
        let c = (vk as u8) as char;
        let r = string_of(&[c]);
        assert(r@ =~= seq![vk as char]);
        Some(r)
    } else if vk == 0x26 {
        Some(string_of(&['U', 'p']))
    } else if vk == 0x28 {
        Some(string_of(&['D', 'o', 'w', 'n']))
    } else if vk == 0x25 {
        Some(string_of(&['L', 'e', 'f', 't']))
    } else if vk == 0x27 {
        Some(string_of(&['R', 'i', 'g', 'h', 't']))
    } else if vk == 0x20 {
        Some(string_of(&['S', 'p', 'a', 'c', 'e']))
    } else if vk == 0x09 {
        Some(string_of(&['T', 'a', 'b']))
    } else if 0x70 <= vk && vk <= 0x78 {
        let c = ((vk - 0x3F) as u8) as char;
        let r = string_of(&['F', c]);
        assert(r@ =~= seq!['F', (vk - 0x3F) as char]);
        Some(r)
    } else if vk == 0x79 {
        Some(string_of(&['F', '1', '0']))
    } else if vk == 0x7A {
        Some(string_of(&['F', '1', '1']))
    } else if vk == 0x7B {
        Some(string_of(&['F', '1', '2']))
    } else if vk == 0xBA {
        Some(string_of(&[';']))
    } else if vk == 0xBF {
        Some(string_of(&['/']))
    } else if vk == 0xC0 {
        Some(string_of(&['`']))
    } else if vk == 0xDB {
        Some(string_of(&['[']))
    } else if vk == 0xDC {
        Some(string_of(&['\\']))
    } else if vk == 0xDD {
        Some(string_of(&[']']))
    } else if vk == 0xDE {
        Some(string_of(&['\'']))
    } else if vk == 0xBC {
        Some(string_of(&[',']))
    } else if vk == 0xBD {
        Some(string_of(&['-']))
    } else if vk == 0xBE {
        Some(string_of(&['.']))
    } else if vk == 0xBB {
        Some(string_of(&['=']))
    } else {
        None
    }
}

fn single_key(c: char) -> (r: Option<u32>)
    ensures
        r == single_key_vk(c),
{
    if 'a' <= c && c <= 'z' {
        Some((c as u32) - 32)
    } else if '0' <= c && c <= '9' {
        Some(c as u32)
    } else if c == ';' {
        Some(0xBA)
    } else if c == '/' {
        Some(0xBF)
    } else if c == '`' {
        Some(0xC0)
    } else if c == '[' {
        Some(0xDB)
    } else if c == '\\' {
        Some(0xDC)
    } else if c == ']' {
        Some(0xDD)
    } else if c == '\'' {
        Some(0xDE)
    } else if c == ',' {
        Some(0xBC)
    } else if c == '-' {
        Some(0xBD)
    } else if c == '.' {
        Some(0xBE)
    } else if c == '=' {
        Some(0xBB)
    } else {
        None
    }
}

/// The virtual key named `name` (ASCII case ignored).
pub fn vk_from_key_name(name: &Vec<char>) -> (r: Option<u32>)
    ensures
        r == key_vk(name@),
{
    let l = lowered(name);
    if l.len() == 1 {
        single_key(l[0])
    } else if chars_are(&l, &['u', 'p']) {
        Some(0x26)
    } else if chars_are(&l, &['d', 'o', 'w', 'n']) {
        Some(0x28)
    } else if chars_are(&l, &['l', 'e', 'f', 't']) {
        Some(0x25)
    } else if chars_are(&l, &['r', 'i', 'g', 'h', 't']) {
        Some(0x27)
    } else if chars_are(&l, &['s', 'p', 'a', 'c', 'e']) {
        Some(0x20)
    } else if chars_are(&l, &['t', 'a', 'b']) {
        Some(0x09)
    } else if l.len() == 2 && l[0] == 'f' && '1' <= l[1] && l[1] <= '9' {
        Some((l[1] as u32) + 0x3F)
    } else if chars_are(&l, &['f', '1', '0']) {
        Some(0x79)
    } else if chars_are(&l, &['f', '1', '1']) {
        Some(0x7A)
    } else if chars_are(&l, &['f', '1', '2']) {
        Some(0x7B)
    } else {
        None
    }
}

/// The four hotkey slots.
#[derive(Clone, Copy, Debug, PartialEq, Eq, Structural)]
pub enum HotkeySlot {
    ToggleWindow,
    TextSizeUp,
    TextSizeDown,
    ClipboardWatch,
}

impl HotkeySlot {
    /// The label shown in the settings editor.
    pub fn label(self) -> (r: &'static str)
        ensures
            r@ == slot_label(self),
    {
        match self {
            HotkeySlot::ToggleWindow => {
                proof {
                    reveal_strlit("윈도우 토글");
                }
                "윈도우 토글"
            },
            HotkeySlot::TextSizeUp => {
                proof {
                    reveal_strlit("텍스트 크기 증가");
                }
                "텍스트 크기 증가"
            },
            HotkeySlot::TextSizeDown => {
                proof {
                    reveal_strlit("텍스트 크기 감소");
                }
                "텍스트 크기 감소"
            },
            HotkeySlot::ClipboardWatch => {
                proof {
                    reveal_strlit("클립보드 캡처 일시중지/재개");
                }
                "클립보드 캡처 일시중지/재개"
            },
        }
    }
}

pub open spec fn slot_label(s: HotkeySlot) -> Seq<char> {
    match s {
        HotkeySlot::ToggleWindow => "윈도우 토글"@,
        HotkeySlot::TextSizeUp => "텍스트 크기 증가"@,
        HotkeySlot::TextSizeDown => "텍스트 크기 감소"@,
        HotkeySlot::ClipboardWatch => "클립보드 캡처 일시중지/재개"@,
    }
}

/// The four registered hotkeys.
#[derive(Clone, Copy, Debug, PartialEq, Eq, Structural)]
pub struct HotkeyConfig {
    /// Show or hide the overlay.
    pub toggle_window: HotkeySpec,
    /// Larger text.
    pub text_size_up: HotkeySpec,
    /// Smaller text.
    pub text_size_down: HotkeySpec,
    /// Pause or resume clipboard capture.
    pub clipboard_watch: HotkeySpec,
}

impl Default for HotkeyConfig {
    /// Ctrl+Shift+A, Ctrl+Shift+Up, Ctrl+Shift+Down, Ctrl+Shift+C.
    fn default() -> (r: Self)
        ensures
            r == HotkeyConfig::default_spec(),
    {
        HotkeyConfig {
            toggle_window: HotkeySpec::new(true, true, false, false, VK_A),
            text_size_up: HotkeySpec::new(true, true, false, false, VK_UP),
            text_size_down: HotkeySpec::new(true, true, false, false, VK_DOWN),
            clipboard_watch: HotkeySpec::new(true, true, false, false, VK_C),
        }
    }
}

impl HotkeyConfig {
    /// Ctrl+Shift+A, Ctrl+Shift+Up, Ctrl+Shift+Down, Ctrl+Shift+C.
    pub open spec fn default_spec() -> HotkeyConfig {
        HotkeyConfig {
            toggle_window: HotkeySpec { ctrl: true, shift: true, alt: false, win: false, vk: VK_A },
            text_size_up: HotkeySpec { ctrl: true, shift: true, alt: false, win: false, vk: VK_UP },
            text_size_down: HotkeySpec { ctrl: true, shift: true, alt: false, win: false, vk: VK_DOWN },
            clipboard_watch: HotkeySpec { ctrl: true, shift: true, alt: false, win: false, vk: VK_C },
        }
    }

    /// The hotkey stored in `slot`.
    pub open spec fn slot(&self, slot: HotkeySlot) -> HotkeySpec {
        match slot {
            HotkeySlot::ToggleWindow => self.toggle_window,
            HotkeySlot::TextSizeUp => self.text_size_up,
            HotkeySlot::TextSizeDown => self.text_size_down,
            HotkeySlot::ClipboardWatch => self.clipboard_watch,
        }
    }

    /// The slots in their fixed order.
    pub open spec fn slot_order() -> Seq<HotkeySlot> {
        seq![
            HotkeySlot::ToggleWindow,
            HotkeySlot::TextSizeUp,
            HotkeySlot::TextSizeDown,
            HotkeySlot::ClipboardWatch,
        ]
    }

    /// (slot, hotkey) pairs in the fixed order shared by the editor and registration.
    pub fn entries(&self) -> (r: [(HotkeySlot, HotkeySpec); 4])
        ensures
            forall|i: int|
                0 <= i < 4 ==> (#[trigger] r@[i]).0 == Self::slot_order()[i] && r@[i].1 == self.slot(
                    Self::slot_order()[i],
                ),
    {
        [
            (HotkeySlot::ToggleWindow, self.toggle_window),
            (HotkeySlot::TextSizeUp, self.text_size_up),
            (HotkeySlot::TextSizeDown, self.text_size_down),
            (HotkeySlot::ClipboardWatch, self.clipboard_watch),
        ]
    }

    pub fn get(&self, slot: HotkeySlot) -> (r: HotkeySpec)
        ensures
            r == self.slot(slot),
    {
        match slot {
            HotkeySlot::ToggleWindow => self.toggle_window,
            HotkeySlot::TextSizeUp => self.text_size_up,
            HotkeySlot::TextSizeDown => self.text_size_down,
            HotkeySlot::ClipboardWatch => self.clipboard_watch,
        }
    }

    /// Writes one slot; the other slots keep their hotkeys.
    pub fn set(&mut self, slot: HotkeySlot, spec: HotkeySpec)
        ensures
            final(self).slot(slot) == spec,
            forall|s: HotkeySlot| s != slot ==> final(self).slot(s) == old(self).slot(s),
    {
        match slot {
            HotkeySlot::ToggleWindow => self.toggle_window = spec,
            HotkeySlot::TextSizeUp => self.text_size_up = spec,
            HotkeySlot::TextSizeDown => self.text_size_down = spec,
            HotkeySlot::ClipboardWatch => self.clipboard_watch = spec,
        }
    }

    /// The first pair of distinct slots, in slot order, that carry the same hotkey.
    pub fn find_conflict(&self) -> (r: Option<(HotkeySlot, HotkeySlot)>)
        ensures
            match r {
                None => forall|i: int, j: int|
                    0 <= i < j < 4 ==> self.slot(Self::slot_order()[i]) != self.slot(
                        Self::slot_order()[j],
                    ),
                Some((a, b)) => exists|i: int, j: int|
                    0 <= i < j < 4 && a == Self::slot_order()[i] && b == Self::slot_order()[j]
                        && self.slot(Self::slot_order()[i]) == self.slot(Self::slot_order()[j])
                        && forall|i2: int, j2: int|
                        0 <= i2 < j2 < 4 && (i2 < i || (i2 == i && j2 < j)) ==> self.slot(
                            Self::slot_order()[i2],
                        ) != self.slot(Self::slot_order()[j2]),
            },
    {
        let entries = self.entries();
        let mut i: usize = 0;
        while i < 4
            invariant
                i <= 4,
                forall|k: int|
                    0 <= k < 4 ==> (#[trigger] entries@[k]).0 == Self::slot_order()[k]
                        && entries@[k].1 == self.slot(Self::slot_order()[k]),
                forall|i2: int, j2: int|
                    0 <= i2 < j2 < 4 && i2 < i ==> self.slot(Self::slot_order()[i2]) != self.slot(
                        Self::slot_order()[j2],
                    ),
            decreases 4 - i,
        {
            let mut j: usize = i + 1;
            while j < 4
                invariant
                    i < 4,
                    i + 1 <= j <= 4,
                    forall|k: int|
                        0 <= k < 4 ==> (#[trigger] entries@[k]).0 == Self::slot_order()[k]
                            && entries@[k].1 == self.slot(Self::slot_order()[k]),
                    forall|i2: int, j2: int|
                        0 <= i2 < j2 < 4 && (i2 < i || (i2 == i && j2 < j)) ==> self.slot(
                            Self::slot_order()[i2],
                        ) != self.slot(Self::slot_order()[j2]),
                decreases 4 - j,
            {
                if entries[i].1 == entries[j].1 {
                    assert(entries@[i as int].1 == entries@[j as int].1);
                    return Some((entries[i].0, entries[j].0));
                }
                j = j + 1;
            }
            i = i + 1;
        }
        None
    }
}

impl core::str::FromStr for HotkeySpec {
    type Err = HotkeyParseError;

    /// Same as [`HotkeySpec::parse`].
    fn from_str(s: &str) -> (r: Result<HotkeySpec, HotkeyParseError>)
        ensures
            result_failure(r) == parse_spec(s@),
    {
        HotkeySpec::parse(s)
    }
}

} // verus!
