//! What the overlay shows and where: the text blocks for a name/original/
//! translation triple, DPI conversions of rectangles, window centring and
//! the retry back-off of the composition stack.
use crate::config::Config;
use crate::text::{chars_of, string_from_chars, trim, trim_bounds};
use crate::text_style::TextType;
use vstd::prelude::*;

verus! {

/// Result slot of a text measurement; one block per text kind and the notice.
#[derive(Debug, Clone, Copy, PartialEq, Eq, Structural)]
pub enum MeasureSlot {
    Name,
    Original,
    Translation,
    Notice,
}

/// The measurement slot of a text kind.
pub fn measure_slot_for(text_type: TextType) -> (r: MeasureSlot)
    ensures
        r == match text_type {
            TextType::Name => MeasureSlot::Name,
            TextType::Original => MeasureSlot::Original,
            TextType::Translation => MeasureSlot::Translation,
        },
{
    match text_type {
        TextType::Name => MeasureSlot::Name,
        TextType::Original => MeasureSlot::Original,
        TextType::Translation => MeasureSlot::Translation,
    }
}

/// A name separator: ASCII or full-width colon.
pub open spec fn is_name_sep(c: char) -> bool {
    c == ':' || c == '：'
}

/// The first separator of `s` is at `i`.
pub open spec fn first_sep_at(s: Seq<char>, i: int) -> bool {
    &&& 0 <= i < s.len()
    &&& is_name_sep(s[i])
    &&& forall|k: int| 0 <= k < i ==> !is_name_sep(#[trigger] s[k])
}

/// `s` has no separator.
pub open spec fn no_sep(s: Seq<char>) -> bool {
    forall|k: int| 0 <= k < s.len() ==> !is_name_sep(#[trigger] s[k])
}

/// `name: body` split at the first separator, both sides trimmed; none
/// without a separator or with an empty name.
pub open spec fn split_name_spec(s: Seq<char>) -> Option<(Seq<char>, Seq<char>)> {
    if exists|i: int| first_sep_at(s, i) {
        let i = choose|i: int| first_sep_at(s, i);
        let name = trim(s.take(i));
        if name.len() > 0 {
            Some((name, trim(s.skip(i + 1))))
        } else {
            None
        }
    } else {
        None
    }
}

proof fn lemma_first_sep_unique(s: Seq<char>, i: int, j: int)
    requires
        first_sep_at(s, i),
        first_sep_at(s, j),
    ensures
        i == j,
{
    if i < j {
        assert(!is_name_sep(s[i]));
    } else if j < i {
        assert(!is_name_sep(s[j]));
    }
}

/// Splits `name: body` (or `name：body`) at the first colon; none when there
/// is no colon or the trimmed name is empty.
pub fn split_name(text: &str) -> (r: Option<(String, String)>)
    ensures
        match (r, split_name_spec(text@)) {
            (Some((n, b)), Some((sn, sb))) => n@ == sn && b@ == sb,
            (None, None) => true,
            _ => false,
        },
{
    let v = chars_of(text);
    let mut i: usize = 0;
    while i < v.len()
        invariant
            v@ == text@,
            i <= v@.len(),
            forall|k: int| 0 <= k < i ==> !is_name_sep(#[trigger] v@[k]),
        ensures
            i <= v@.len(),
            forall|k: int| 0 <= k < i ==> !is_name_sep(#[trigger] v@[k]),
            i < v@.len() ==> is_name_sep(v@[i as int]),
        decreases v@.len() - i,
    {
        if v[i] == ':' || v[i] == '：' {
            break;
        }
        i = i + 1;
    }
    if i == v.len() {
        assert(no_sep(text@));
        assert(!exists|j: int| first_sep_at(text@, j)) by {
            if exists|j: int| first_sep_at(text@, j) {
                let j = choose|j: int| first_sep_at(text@, j);
                assert(is_name_sep(text@[j]));
            }
        }
        return None;
    }
    assert(first_sep_at(text@, i as int));
    proof {
        let c = choose|j: int| first_sep_at(text@, j);
        lemma_first_sep_unique(text@, i as int, c);
    }
    let (ns, ne) = trim_bounds(&v, 0, i);
    assert(v@.subrange(0, i as int) =~= text@.take(i as int));
    if ns == ne {
        return None;
    }
    let (bs, be) = trim_bounds(&v, i + 1, v.len());
    assert(v@.subrange(i + 1, v@.len() as int) =~= text@.skip(i + 1));
    let name = string_from_chars(&v, ns, ne);
    let body = string_from_chars(&v, bs, be);
    Some((name, body))
}

/// The name and body of a line: split only when `separate`; without a name
/// the body is the whole line.
pub open spec fn name_and_body(s: Seq<char>, separate: bool) -> (Option<Seq<char>>, Seq<char>) {
    if separate {
        match split_name_spec(s) {
            Some((n, b)) => (Some(n), b),
            None => (None, s),
        }
    } else {
        (None, s)
    }
}

/// The blocks shown for `original` and `translated`: the name (from the
/// translation, else from the original) when names are shown, then the
/// original body and the translated body when shown and non-empty.
pub open spec fn segments_spec(c: Config, original: Seq<char>, translated: Seq<char>) -> Seq<
    (TextType, Seq<char>),
> {
    let (on, ob) = name_and_body(original, c.separate_name);
    let (tn, tb) = name_and_body(translated, c.separate_name);
    let name = match tn {
        Some(n) => Some(n),
        None => on,
    };
    (if c.show_name && name is Some && name->0.len() > 0 {
        seq![(TextType::Name, name->0)]
    } else {
        Seq::empty()
    }) + (if c.show_original && ob.len() > 0 {
        seq![(TextType::Original, ob)]
    } else {
        Seq::empty()
    }) + (if c.show_translation && tb.len() > 0 {
        seq![(TextType::Translation, tb)]
    } else {
        Seq::empty()
    })
}

/// With names separated, a line `name: body` is shown without its name: when
/// the first colon (`:` or `：`) of the original line stands at `i` and the
/// text before it is not blank, every Original block is the trimmed text after
/// that colon, and there is one exactly when originals are shown and that text
/// is not empty.
pub proof fn lemma_original_block_drops_the_name(
    c: Config,
    original: Seq<char>,
    translated: Seq<char>,
    i: int,
)
    requires
        c.separate_name,
        0 <= i < original.len(),
        original[i] == ':' || original[i] == '：',
        forall|k: int| 0 <= k < i ==> original[k] != ':' && original[k] != '：',
        trim(original.take(i)).len() > 0,
    ensures
        forall|j: int|
            0 <= j < segments_spec(c, original, translated).len() && (#[trigger] segments_spec(
                c,
                original,
                translated,
            )[j]).0 == TextType::Original ==> segments_spec(c, original, translated)[j].1 == trim(
                original.skip(i + 1),
            ),
        (exists|j: int|
            0 <= j < segments_spec(c, original, translated).len() && (#[trigger] segments_spec(
                c,
                original,
                translated,
            )[j]).0 == TextType::Original) <==> (c.show_original && trim(original.skip(i + 1)).len()
            > 0),
{
    assert(first_sep_at(original, i));
    let k = choose|k: int| first_sep_at(original, k);
    lemma_first_sep_unique(original, i, k);
    assert(split_name_spec(original) == Some((trim(original.take(i)), trim(original.skip(i + 1)))));
    lemma_original_blocks(c, original, translated);
}

/// Without name separation the Original block, when there is one, is the
/// whole original line, and there is one exactly when originals are shown
/// and the line is not empty.
pub proof fn lemma_original_block_is_the_line(c: Config, original: Seq<char>, translated: Seq<char>)
    requires
        !c.separate_name,
    ensures
        forall|j: int|
            0 <= j < segments_spec(c, original, translated).len() && (#[trigger] segments_spec(
                c,
                original,
                translated,
            )[j]).0 == TextType::Original ==> segments_spec(c, original, translated)[j].1
                == original,
        (exists|j: int|
            0 <= j < segments_spec(c, original, translated).len() && (#[trigger] segments_spec(
                c,
                original,
                translated,
            )[j]).0 == TextType::Original) <==> (c.show_original && original.len() > 0),
{
    lemma_original_blocks(c, original, translated);
}

/// The Original blocks of the layout are the original body, once when shown.
proof fn lemma_original_blocks(c: Config, original: Seq<char>, translated: Seq<char>)
    ensures
        forall|j: int|
            0 <= j < segments_spec(c, original, translated).len() && (#[trigger] segments_spec(
                c,
                original,
                translated,
            )[j]).0 == TextType::Original ==> segments_spec(c, original, translated)[j].1
                == name_and_body(original, c.separate_name).1,
        (exists|j: int|
            0 <= j < segments_spec(c, original, translated).len() && (#[trigger] segments_spec(
                c,
                original,
                translated,
            )[j]).0 == TextType::Original) <==> (c.show_original && name_and_body(
            original,
            c.separate_name,
        ).1.len() > 0),
{
    let (on, ob) = name_and_body(original, c.separate_name);
    let (tn, tb) = name_and_body(translated, c.separate_name);
    let name = match tn {
        Some(n) => Some(n),
        None => on,
    };
    let a: Seq<(TextType, Seq<char>)> = if c.show_name && name is Some && name->0.len() > 0 {
        seq![(TextType::Name, name->0)]
    } else {
        Seq::empty()
    };
    let b: Seq<(TextType, Seq<char>)> = if c.show_original && ob.len() > 0 {
        seq![(TextType::Original, ob)]
    } else {
        Seq::empty()
    };
    let t: Seq<(TextType, Seq<char>)> = if c.show_translation && tb.len() > 0 {
        seq![(TextType::Translation, tb)]
    } else {
        Seq::empty()
    };
    let r = segments_spec(c, original, translated);
    assert(r =~= a + b + t);
    assert forall|j: int| 0 <= j < r.len() && (#[trigger] r[j]).0 == TextType::Original implies r[j].1
        == ob by {
        if j < a.len() {
            assert(r[j] == a[j]);
        } else if j < a.len() + b.len() {
            assert(r[j] == b[j - a.len()]);
        } else {
            assert(r[j] == t[j - a.len() - b.len()]);
        }
    }
    if c.show_original && ob.len() > 0 {
        assert(r[a.len() as int] == b[0]);
    }
    if exists|j: int| 0 <= j < r.len() && (#[trigger] r[j]).0 == TextType::Original {
        let j = choose|j: int| 0 <= j < r.len() && (#[trigger] r[j]).0 == TextType::Original;
        if j < a.len() {
            assert(r[j] == a[j]);
        } else if j < a.len() + b.len() {
            assert(r[j] == b[j - a.len()]);
        } else {
            assert(r[j] == t[j - a.len() - b.len()]);
        }
    }
}

pub open spec fn segment_views(v: Seq<(TextType, String)>) -> Seq<(TextType, Seq<char>)> {
    v.map_values(|p: (TextType, String)| (p.0, p.1@))
}

fn name_and_body_of(s: &str, separate: bool) -> (r: (Option<String>, String))
    ensures
        (match r.0 {
            Some(n) => Some(n@),
            None => None::<Seq<char>>,
        }) == name_and_body(s@, separate).0,
        r.1@ == name_and_body(s@, separate).1,
{
    if separate {
        match split_name(s) {
            Some((n, b)) => (Some(n), b),
            None => (None, crate::text::owned(s)),
        }
    } else {
        (None, crate::text::owned(s))
    }
}

/// The text blocks to draw, in order.
pub fn display_segments(config: &Config, original: &str, translated: &str) -> (r: Vec<
    (TextType, String),
>)
    ensures
        segment_views(r@) == segments_spec(*config, original@, translated@),
{
    let (original_name, original_body) = name_and_body_of(original, config.separate_name);
    let (translated_name, translated_body) = name_and_body_of(translated, config.separate_name);
    let name = match translated_name {
        Some(n) => Some(n),
        None => original_name,
    };
    let mut segments: Vec<(TextType, String)> = Vec::new();
    let ghost mut expect = Seq::<(TextType, Seq<char>)>::empty();
    if config.show_name {
        match name {
            Some(n) => {
                if !n.as_str().is_empty() {
                    segments.push((TextType::Name, n));
                }
            },
            None => {},
        }
    }
    let ghost first = segment_views(segments@);
    if config.show_original && !original_body.as_str().is_empty() {
        segments.push((TextType::Original, original_body));
        assert(segment_views(segments@) =~= first + seq![(TextType::Original, original_body@)]);
    } else {
        assert(segment_views(segments@) =~= first + Seq::<(TextType, Seq<char>)>::empty());
    }
    let ghost second = segment_views(segments@);
    if config.show_translation && !translated_body.as_str().is_empty() {
        segments.push((TextType::Translation, translated_body));
        assert(segment_views(segments@) =~= second + seq![(TextType::Translation, translated_body@)]);
    } else {
        assert(segment_views(segments@) =~= second + Seq::<(TextType, Seq<char>)>::empty());
    }
    assert(segment_views(segments@) =~= segments_spec(*config, original@, translated@));
    segments
}

/// The reference DPI: one DIP is one pixel.
pub const BASE_DPI: u32 = 96;

/// `dpi`, with 0 read as the reference DPI.
pub open spec fn effective_dpi(dpi: u32) -> int {
    if dpi == 0 {
        BASE_DPI as int
    } else {
        dpi as int
    }
}

/// DIPs to pixels, rounded down (towards negative infinity).
pub open spec fn dip_floor_spec(value: i32, dpi: u32) -> i32 {
    ((value as int * effective_dpi(dpi)) / (BASE_DPI as int)) as i32
}

/// DIPs to pixels, rounded up (towards positive infinity).
pub open spec fn dip_ceil_spec(value: i32, dpi: u32) -> i32 {
    (-((-(value as int * effective_dpi(dpi))) / (BASE_DPI as int))) as i32
}

fn scaled(value: i32, dpi: u32) -> (r: i64)
    ensures
        r == value as int * effective_dpi(dpi),
        -0x8000_0000 * 0xffff_ffff <= r <= 0x7fff_ffff * 0xffff_ffff,
{
    let d: i64 = if dpi == 0 {
        BASE_DPI as i64
    } else {
        dpi as i64
    };
    assert(-0x8000_0000 * 0xffff_ffff <= value as int * d <= 0x7fff_ffff * 0xffff_ffff)
        by (nonlinear_arith)
        requires
            -0x8000_0000 <= value <= 0x7fff_ffff,
            0 <= d <= 0xffff_ffff,
    ;
    value as i64 * d
}

/// Converts a DIP coordinate to pixels, rounding down.
pub fn dip_floor_to_pixels(value: i32, dpi: u32) -> (r: i32)
    ensures
        r == dip_floor_spec(value, dpi),
{
    let s = scaled(value, dpi);
    let q = s.checked_div_euclid(BASE_DPI as i64).unwrap();
    #[verifier::truncate]
    (q as i32)
}

/// Converts a DIP coordinate to pixels, rounding up.
pub fn dip_ceil_to_pixels(value: i32, dpi: u32) -> (r: i32)
    ensures
        r == dip_ceil_spec(value, dpi),
{
    let s = scaled(value, dpi);
    let q = (-s).checked_div_euclid(BASE_DPI as i64).unwrap();
    #[verifier::truncate]
    ((-q) as i32)
}

/// A rectangle in pixels or DIPs.
#[derive(Debug, Clone, Copy, PartialEq, Eq, Structural)]
pub struct Rect {
    pub left: i32,
    pub top: i32,
    pub right: i32,
    pub bottom: i32,
}

/// A DIP rectangle in pixels, grown outwards to whole pixels: left and top
/// round down, right and bottom round up.
pub fn dip_rect_to_pixels(rect: &Rect, dpi: u32) -> (r: Rect)
    ensures
        r == (Rect {
            left: dip_floor_spec(rect.left, dpi),
            top: dip_floor_spec(rect.top, dpi),
            right: dip_ceil_spec(rect.right, dpi),
            bottom: dip_ceil_spec(rect.bottom, dpi),
        }),
{
    Rect {
        left: dip_floor_to_pixels(rect.left, dpi),
        top: dip_floor_to_pixels(rect.top, dpi),
        right: dip_ceil_to_pixels(rect.right, dpi),
        bottom: dip_ceil_to_pixels(rect.bottom, dpi),
    }
}

/// Rust's `/ 2` on integers: the quotient rounded towards zero.
pub open spec fn half_toward_zero(x: int) -> int {
    if x >= 0 {
        x / 2
    } else {
        -((-x) / 2)
    }
}

/// The top-left corner that centres a `width` x `height` window on `monitor`.
pub open spec fn centered_spec(monitor: Rect, width: i32, height: i32) -> (int, int) {
    (
        monitor.left + half_toward_zero(monitor.right - monitor.left - width),
        monitor.top + half_toward_zero(monitor.bottom - monitor.top - height),
    )
}

/// The arithmetic of centring stays within `i32`.
pub open spec fn centering_fits(monitor: Rect, width: i32, height: i32) -> bool {
    let c = centered_spec(monitor, width, height);
    &&& i32::MIN <= monitor.right - monitor.left <= i32::MAX
    &&& i32::MIN <= monitor.right - monitor.left - width <= i32::MAX
    &&& i32::MIN <= monitor.bottom - monitor.top <= i32::MAX
    &&& i32::MIN <= monitor.bottom - monitor.top - height <= i32::MAX
    &&& i32::MIN <= c.0 <= i32::MAX
    &&& i32::MIN <= c.1 <= i32::MAX
}

fn half(x: i32) -> (r: i32)
    ensures
        r == half_toward_zero(x as int),
{
    let y = x as i64;
    let h = if y >= 0 {
        y / 2
    } else {
        -((-y) / 2)
    };
    h as i32
}

/// Centres a window of the given size on the whole monitor area.
pub fn centered_position(monitor: Rect, width: i32, height: i32) -> (r: (i32, i32))
    requires
        centering_fits(monitor, width, height),
    ensures
        r.0 == centered_spec(monitor, width, height).0,
        r.1 == centered_spec(monitor, width, height).1,
{
    (
        monitor.left + half(monitor.right - monitor.left - width),
        monitor.top + half(monitor.bottom - monitor.top - height),
    )
}

/// `2^k`.
pub open spec fn pow2_nat(k: nat) -> nat
    decreases k,
{
    if k == 0 {
        1
    } else {
        2 * pow2_nat((k - 1) as nat)
    }
}

/// The wait before re-creating the composition stack after `failures`
/// failed attempts: 250 ms doubling per failure, at most 32 times that.
pub open spec fn retry_delay_spec(failures: u32) -> int {
    let k: nat = if failures > 5 {
        5
    } else {
        failures as nat
    };
    250 * (pow2_nat(k) as int)
}

pub fn composition_retry_delay_ms(failures: u32) -> (r: u32)
    ensures
        r == retry_delay_spec(failures),
{
    let shift = if failures > 5 {
        5
    } else {
        failures
    };
    let mut delay: u32 = 250;
    let mut i: u32 = 0;
    while i < shift
        invariant
            i <= shift <= 5,
            delay == 250 * pow2_nat(i as nat),
            shift == if failures > 5 {
                5
            } else {
                failures
            },
        decreases shift - i,
    {
        assert(pow2_nat((i + 1) as nat) == 2 * pow2_nat(i as nat));
        assert(pow2_nat(i as nat) <= 16) by {
            reveal_with_fuel(pow2_nat, 6);
        }
        delay = delay * 2;
        i = i + 1;
    }
    delay
}

/// At the reference DPI (and at 0, read as the reference) a DIP is a pixel:
/// both roundings give the value back.
pub proof fn lemma_reference_dpi_is_identity(value: i32, dpi: u32)
    requires
        dpi == 0 || dpi == BASE_DPI,
    ensures
        dip_floor_spec(value, dpi) == value,
        dip_ceil_spec(value, dpi) == value,
{
    assert((value as int * 96) / 96 == value) by (nonlinear_arith);
    assert((-(value as int * 96)) / 96 == -value) by (nonlinear_arith);
}

/// The pixel rectangle of a DIP coordinate pair covers it: rounding down
/// never exceeds rounding up.
pub proof fn lemma_floor_le_ceil(value: i32, dpi: u32)
    ensures
        (value as int * effective_dpi(dpi)) / 96 <= -((-(value as int * effective_dpi(dpi))) / 96),
{
    let x = value as int * effective_dpi(dpi);
    assert(x / 96 <= -((-x) / 96)) by (nonlinear_arith);
}

/// `x` clamped to the `i32` range.
pub open spec fn sat_i32(x: int) -> int {
    if x > i32::MAX {
        i32::MAX as int
    } else if x < i32::MIN {
        i32::MIN as int
    } else {
        x
    }
}

/// `a + b`, saturating at the `i32` bounds.
fn saturating_add_i32(a: i32, b: i32) -> (r: i32)
    ensures
        r == sat_i32(a + b),
{
    let s: i64 = a as i64 + b as i64;
    if s > i32::MAX as i64 {
        i32::MAX
    } else if s < i32::MIN as i64 {
        i32::MIN
    } else {
        s as i32
    }
}

/// `|a|`, saturating at `i32::MAX`.
fn saturating_abs_i32(a: i32) -> (r: i32)
    ensures
        r == sat_i32(if a < 0 { -a } else { a as int }),
{
    if a == i32::MIN {
        i32::MAX
    } else if a < 0 {
        -a
    } else {
        a
    }
}

/// How far (pixels) the hit-test rectangles of a text block reach beyond its
/// glyph boxes: both outlines, the shadow offset when the shadow is drawn, and
/// one pixel; every sum saturates.
pub fn hit_test_inflate(
    outline1_size: i32,
    outline2_size: i32,
    shadow_enabled: bool,
    shadow_offset_x: i32,
    shadow_offset_y: i32,
) -> (r: i32)
    ensures
        r == sat_i32(
            sat_i32(
                sat_i32(outline1_size + outline2_size) + if shadow_enabled {
                    sat_i32(
                        sat_i32(
                            if shadow_offset_x < 0 { -shadow_offset_x } else { shadow_offset_x as int },
                        ) + sat_i32(
                            if shadow_offset_y < 0 { -shadow_offset_y } else { shadow_offset_y as int },
                        ),
                    )
                } else {
                    0
                },
            ) + 1,
        ),
{
    let shadow = if shadow_enabled {
        saturating_add_i32(saturating_abs_i32(shadow_offset_x), saturating_abs_i32(shadow_offset_y))
    } else {
        0
    };
    saturating_add_i32(
        saturating_add_i32(saturating_add_i32(outline1_size, outline2_size), shadow),
        1,
    )
}

} // verus!
