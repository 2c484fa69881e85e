//! Value ranges shared by the configuration file, the settings editor and
//! runtime preparation.
//!
//! Each function clamps its argument into the documented range; the `ensures`
//! of each one states the clamp exactly, and with it that the result lies in
//! the range, that a value already in range is kept, and that clamping twice
//! changes nothing more.
use vstd::prelude::*;

verus! {

pub const BORDER_WIDTH_MIN: i32 = 0;
pub const BORDER_WIDTH_MAX: i32 = 10;
pub const MARGIN_MIN: i32 = 0;
pub const MARGIN_MAX: i32 = 300;
pub const SHADOW_OFFSET_MIN: i32 = 0;
pub const SHADOW_OFFSET_MAX: i32 = 20;
pub const TEXT_SIZE_MIN: i32 = 6;
pub const TEXT_SIZE_MAX: i32 = 100;
pub const OUTLINE_SIZE_MIN: i32 = 0;
pub const OUTLINE_SIZE_MAX: i32 = 20;

pub const EZTRANS_PROCESS_COUNT_MIN: u32 = 1;
pub const EZTRANS_PROCESS_COUNT_MAX: u32 = 16;
pub const LLM_MAX_TOKENS_MIN: u32 = 1;
pub const LLM_MAX_TOKENS_MAX: u32 = 32_000;
pub const LLM_DEBOUNCE_MS_MIN: u32 = 0;
pub const LLM_DEBOUNCE_MS_MAX: u32 = 10_000;
pub const LLM_TEMPERATURE_SLIDER_MIN: i32 = 0;
pub const LLM_TEMPERATURE_SLIDER_MAX: i32 = 200;

/// The clamp of `v` into `[lo, hi]`.
pub open spec fn clamp_spec(v: int, lo: int, hi: int) -> int {
    if v < lo {
        lo
    } else if v > hi {
        hi
    } else {
        v
    }
}

/// Clamping into a non-empty range lands in the range, keeps values already
/// inside it, and is idempotent.
pub proof fn lemma_clamp_properties(v: int, lo: int, hi: int)
    requires
        lo <= hi,
    ensures
        lo <= clamp_spec(v, lo, hi) <= hi,
        lo <= v <= hi ==> clamp_spec(v, lo, hi) == v,
        clamp_spec(clamp_spec(v, lo, hi), lo, hi) == clamp_spec(v, lo, hi),
{
}

fn clamp_i32(value: i32, lo: i32, hi: i32) -> (r: i32)
    requires
        lo <= hi,
    ensures
        r == clamp_spec(value as int, lo as int, hi as int),
{
    if value < lo {
        lo
    } else if value > hi {
        hi
    } else {
        value
    }
}

fn clamp_u32(value: u32, lo: u32, hi: u32) -> (r: u32)
    requires
        lo <= hi,
    ensures
        r == clamp_spec(value as int, lo as int, hi as int),
{
    if value < lo {
        lo
    } else if value > hi {
        hi
    } else {
        value
    }
}

pub fn border_width(value: i32) -> (r: i32)
    ensures
        r == clamp_spec(value as int, BORDER_WIDTH_MIN as int, BORDER_WIDTH_MAX as int),
{
    clamp_i32(value, BORDER_WIDTH_MIN, BORDER_WIDTH_MAX)
}

pub fn margin(value: i32) -> (r: i32)
    ensures
        r == clamp_spec(value as int, MARGIN_MIN as int, MARGIN_MAX as int),
{
    clamp_i32(value, MARGIN_MIN, MARGIN_MAX)
}

pub fn shadow_offset(value: i32) -> (r: i32)
    ensures
        r == clamp_spec(value as int, SHADOW_OFFSET_MIN as int, SHADOW_OFFSET_MAX as int),
{
    clamp_i32(value, SHADOW_OFFSET_MIN, SHADOW_OFFSET_MAX)
}

pub fn text_size(value: i32) -> (r: i32)
    ensures
        r == clamp_spec(value as int, TEXT_SIZE_MIN as int, TEXT_SIZE_MAX as int),
{
    clamp_i32(value, TEXT_SIZE_MIN, TEXT_SIZE_MAX)
}

pub fn outline_size(value: i32) -> (r: i32)
    ensures
        r == clamp_spec(value as int, OUTLINE_SIZE_MIN as int, OUTLINE_SIZE_MAX as int),
{
    clamp_i32(value, OUTLINE_SIZE_MIN, OUTLINE_SIZE_MAX)
}

pub fn eztrans_process_count(value: u32) -> (r: u32)
    ensures
        r == clamp_spec(
            value as int,
            EZTRANS_PROCESS_COUNT_MIN as int,
            EZTRANS_PROCESS_COUNT_MAX as int,
        ),
{
    clamp_u32(value, EZTRANS_PROCESS_COUNT_MIN, EZTRANS_PROCESS_COUNT_MAX)
}

pub fn eztrans_process_count_usize(value: usize) -> (r: usize)
    ensures
        r == clamp_spec(
            value as int,
            EZTRANS_PROCESS_COUNT_MIN as int,
            EZTRANS_PROCESS_COUNT_MAX as int,
        ),
{
    let lo = EZTRANS_PROCESS_COUNT_MIN as usize;
    let hi = EZTRANS_PROCESS_COUNT_MAX as usize;
    if value < lo {
        lo
    } else if value > hi {
        hi
    } else {
        value
    }
}

pub fn llm_max_tokens(value: u32) -> (r: u32)
    ensures
        r == clamp_spec(value as int, LLM_MAX_TOKENS_MIN as int, LLM_MAX_TOKENS_MAX as int),
{
    clamp_u32(value, LLM_MAX_TOKENS_MIN, LLM_MAX_TOKENS_MAX)
}

pub fn llm_debounce_ms(value: u32) -> (r: u32)
    ensures
        r == clamp_spec(value as int, LLM_DEBOUNCE_MS_MIN as int, LLM_DEBOUNCE_MS_MAX as int),
{
    clamp_u32(value, LLM_DEBOUNCE_MS_MIN, LLM_DEBOUNCE_MS_MAX)
}

} // verus!
