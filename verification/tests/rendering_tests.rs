use anemone_core::config::Config;
use anemone_core::rendering::{
    hit_test_inflate,
    centered_position, composition_retry_delay_ms, dip_ceil_to_pixels, dip_floor_to_pixels,
    dip_rect_to_pixels, display_segments, measure_slot_for, split_name, MeasureSlot, Rect,
};
use anemone_core::text_style::TextType;

#[test]
fn centered_position_handles_monitor_origin() {
    let monitor = Rect {
        left: -1920,
        top: -100,
        right: 0,
        bottom: 980,
    };
    assert_eq!(centered_position(monitor, 400, 200), (-1160, 340));
}

#[test]
fn centering_a_larger_window_rounds_toward_zero() {
    let monitor = Rect { left: 0, top: 0, right: 100, bottom: 100 };
    assert_eq!(centered_position(monitor, 103, 101), (-1, 0));
}

#[test]
fn names_split_at_the_first_colon() {
    assert_eq!(
        split_name("  アリス : こんにちは：元気 "),
        Some(("アリス".to_string(), "こんにちは：元気".to_string()))
    );
    assert_eq!(split_name("名前：本文"), Some(("名前".to_string(), "本文".to_string())));
    assert_eq!(split_name(" : body"), None);
    assert_eq!(split_name("no colon"), None);
}

#[test]
fn segments_follow_the_show_settings() {
    let config = Config::default();
    let segments = display_segments(&config, "アリス：こんにちは", "앨리스: 안녕하세요");
    assert_eq!(
        segments,
        vec![
            (TextType::Name, "앨리스".to_string()),
            (TextType::Translation, "안녕하세요".to_string()),
        ]
    );
    let mut config = Config::default();
    config.show_original = true;
    config.separate_name = false;
    let segments = display_segments(&config, "a: b", "");
    assert_eq!(segments, vec![(TextType::Original, "a: b".to_string())]);
    let mut config = Config::default();
    config.show_name = true;
    let segments = display_segments(&config, "アリス：こんにちは", "안녕");
    assert_eq!(
        segments,
        vec![(TextType::Name, "アリス".to_string()), (TextType::Translation, "안녕".to_string())]
    );
}

#[test]
fn measure_slots_match_text_kinds() {
    assert_eq!(measure_slot_for(TextType::Name), MeasureSlot::Name);
    assert_eq!(measure_slot_for(TextType::Translation), MeasureSlot::Translation);
}

#[test]
fn dips_round_outward() {
    assert_eq!(dip_floor_to_pixels(10, 144), 15);
    assert_eq!(dip_floor_to_pixels(11, 144), 16);
    assert_eq!(dip_ceil_to_pixels(11, 144), 17);
    assert_eq!(dip_floor_to_pixels(-11, 144), -17);
    assert_eq!(dip_ceil_to_pixels(-11, 144), -16);
    assert_eq!(dip_floor_to_pixels(37, 0), 37);
    assert_eq!(dip_ceil_to_pixels(37, 96), 37);
    let r = dip_rect_to_pixels(&Rect { left: 1, top: 1, right: 3, bottom: 3 }, 120);
    assert_eq!(r, Rect { left: 1, top: 1, right: 4, bottom: 4 });
}

#[test]
fn retry_delay_doubles_up_to_eight_seconds() {
    assert_eq!(composition_retry_delay_ms(0), 250);
    assert_eq!(composition_retry_delay_ms(1), 500);
    assert_eq!(composition_retry_delay_ms(5), 8000);
    assert_eq!(composition_retry_delay_ms(u32::MAX), 8000);
}

#[test]
fn hit_regions_reach_past_outlines_and_shadow() {
    assert_eq!(hit_test_inflate(2, 3, false, 4, -5), 6);
    assert_eq!(hit_test_inflate(2, 3, true, 4, -5), 15);
    assert_eq!(hit_test_inflate(0, 0, true, i32::MIN, 0), i32::MAX);
    assert_eq!(hit_test_inflate(i32::MAX, 1, false, 0, 0), i32::MAX);
}
