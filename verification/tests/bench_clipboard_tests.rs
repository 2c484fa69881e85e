use anemone_core::bench::{bench_disable_outline, bench_force_cache_miss, paint_bench_detailed_iters, paint_bench_iters};
use anemone_core::bench::{
    BenchAccumulator, MemSnapshot, PhaseField, PhaseRecord, PhaseRecorder,
    PhasedBenchAccumulator, QpcTimer,
};
use anemone_core::clipboard::{
    exceeds_utf16_limit, nul_terminated_len, ClipboardUpdate, ClipboardWatcher, TextRead,
};
use anemone_core::secret::{looks_sealed, open, seal, SecretError};

#[test]
fn timer_frequency_is_at_least_one() {
    assert_eq!(QpcTimer::new(0).frequency(), 1);
    assert_eq!(QpcTimer::new(10_000_000).frequency(), 10_000_000);
}

#[test]
fn stats_summarise_sorted_samples() {
    let mut acc = BenchAccumulator::with_capacity(8, QpcTimer::new(1000));
    assert!(acc.report().is_none());
    for t in [5, -3, 9, 1, 7] {
        acc.push(t);
    }
    let st = acc.report().unwrap();
    assert_eq!(st.n, 5);
    assert_eq!(st.sum, 19);
    assert_eq!(st.avg, 3);
    assert_eq!(st.min, -3);
    assert_eq!(st.max, 9);
    assert_eq!(st.p50, 5);
    assert_eq!(st.p99, 9);
    let mut neg = BenchAccumulator::with_capacity(2, QpcTimer::new(1));
    neg.push(-3);
    neg.push(-4);
    assert_eq!(neg.report().unwrap().avg, -3);
}

#[test]
fn p99_uses_the_floor_index() {
    let mut acc = BenchAccumulator::with_capacity(200, QpcTimer::new(1));
    for t in 0..200 {
        acc.push(t);
    }
    let st = acc.report().unwrap();
    assert_eq!(st.p99, 198);
    assert_eq!(st.p50, 100);
}

#[test]
fn phases_accumulate_ticks() {
    let mut rec = PhaseRecord::new(QpcTimer::new(1));
    let t = rec.add(PhaseField::Setup, 100, 130);
    assert_eq!(t, 130);
    let t = rec.add(PhaseField::Setup, t, 150);
    assert_eq!(rec.setup, 50);
    assert_eq!(rec.text, 0);
    assert_eq!(t, 150);
}

#[test]
fn recorder_is_inert_until_started() {
    let mut r = PhaseRecorder::new();
    assert_eq!(r.phase_now(77), 0);
    assert_eq!(r.phase_record(PhaseField::Text, 0, 10), 0);
    assert!(r.phase_end().is_none());
    r.phase_begin(QpcTimer::new(1));
    assert_eq!(r.phase_now(77), 77);
    assert_eq!(r.phase_record(PhaseField::Text, 70, 90), 90);
    let rec = r.phase_end().unwrap();
    assert_eq!(rec.text, 20);
    assert!(r.phase_end().is_none());
}

#[test]
fn phased_accumulator_reports_in_order() {
    let mut acc = PhasedBenchAccumulator::with_capacity(4, QpcTimer::new(1));
    let mut rec = PhaseRecord::new(QpcTimer::new(1));
    rec.add(PhaseField::Border, 0, 3);
    acc.push(&rec, 10);
    let reports = acc.report();
    assert_eq!(reports.len(), 10);
    assert_eq!(reports[0].label, "paint_detailed_total");
    assert_eq!(reports[0].stats.unwrap().sum, 10);
    assert_eq!(reports[5].label, "paint_detailed_border");
    assert_eq!(reports[5].stats.unwrap().max, 3);
    assert_eq!(reports[9].label, "paint_detailed_hit_region");
}

#[test]
fn memory_deltas() {
    let start = MemSnapshot { total_bytes: 100, live_bytes: 50, peak_bytes: 80 };
    let end = MemSnapshot { total_bytes: 400, live_bytes: 40, peak_bytes: 300 };
    let d = end.delta(start);
    assert_eq!((d.total_delta, d.live_delta, d.peak), (300, 0, 300));
    let end = MemSnapshot { total_bytes: 100, live_bytes: 60, peak_bytes: 70 };
    let d = end.delta(start);
    assert_eq!((d.total_delta, d.live_delta, d.peak), (0, 10, 80));
}

#[test]
fn repeated_notifications_are_not_read() {
    let mut w = ClipboardWatcher::new();
    w.start(10);
    assert!(w.is_watching());
    assert!(!w.should_read(10));
    assert!(w.should_read(11));
    assert!(w.should_read(0));
    match w.on_clipboard_update::<String>(11, Ok(TextRead::Text("x".to_string()))) {
        ClipboardUpdate::Text(t) => assert_eq!(t, "x"),
        _ => panic!("expected text"),
    }
    assert_eq!(w.last_sequence, 11);
    assert!(!w.should_read(11));
}

#[test]
fn failed_reads_are_retried_twice_then_given_up() {
    let mut w = ClipboardWatcher::new();
    w.start(1);
    assert!(matches!(w.on_clipboard_update(2, Err("busy")), ClipboardUpdate::Retry("busy")));
    assert!(matches!(w.on_clipboard_update(2, Err("busy")), ClipboardUpdate::Retry("busy")));
    assert!(matches!(w.on_clipboard_update(2, Err("busy")), ClipboardUpdate::Failed("busy")));
    assert_eq!(w.last_sequence, 2);
    assert_eq!(w.read_failures, 0);
    assert!(matches!(w.on_clipboard_update(3, Err("busy")), ClipboardUpdate::Retry("busy")));
    assert!(matches!(w.on_clipboard_update::<&str>(3, Ok(TextRead::TooLong)), ClipboardUpdate::TooLong));
    assert!(matches!(w.on_clipboard_update::<&str>(4, Ok(TextRead::NoText)), ClipboardUpdate::Unchanged));
}

#[test]
fn a_new_change_resets_the_failure_count() {
    let mut w = ClipboardWatcher::new();
    w.start(1);
    assert!(matches!(w.on_clipboard_update(2, Err(())), ClipboardUpdate::Retry(())));
    assert!(matches!(w.on_clipboard_update(2, Err(())), ClipboardUpdate::Retry(())));
    assert!(matches!(w.on_clipboard_update(5, Err(())), ClipboardUpdate::Retry(())));
    assert_eq!(w.read_failures, 1);
    w.stop();
    assert!(!w.is_watching());
    w.start(9);
    assert_eq!(w.last_sequence, 9);
    w.stop_for_window_destroy();
    assert!(!w.watching);
}

#[test]
fn utf16_length_limits() {
    assert_eq!(nul_terminated_len(&[65, 66, 0, 67]), 2);
    assert_eq!(nul_terminated_len(&[65, 66]), 2);
    assert!(!exceeds_utf16_limit(600, 300));
    assert!(exceeds_utf16_limit(601, 300));
    assert!(!exceeds_utf16_limit(usize::MAX, 0));
    assert!(!exceeds_utf16_limit(usize::MAX, usize::MAX));
}

#[test]
fn secrets_in_the_public_build() {
    assert!(looks_sealed("  enc.v1:abc"));
    assert!(!looks_sealed("enc.v2:abc"));
    assert!(!looks_sealed("x enc.v1:"));
    assert_eq!(seal("plain"), Ok("plain".to_string()));
    assert_eq!(open("enc.v1:abc"), Err(SecretError::Unavailable));
    assert_eq!(SecretError::Unavailable.message(), "이 빌드에서는 읽을 수 없는 값입니다");
}

#[test]
fn bench_variables_are_read_like_the_environment() {
    assert_eq!(paint_bench_iters(None), None);
    assert_eq!(paint_bench_iters(Some(" 250 ")), Some(250));
    assert_eq!(paint_bench_iters(Some("+3")), Some(3));
    assert_eq!(paint_bench_iters(Some("0")), None);
    assert_eq!(paint_bench_iters(Some("-3")), None);
    assert_eq!(paint_bench_iters(Some("many")), None);
    assert_eq!(paint_bench_iters(Some("99999999999999999999999")), None);
    assert_eq!(paint_bench_detailed_iters(Some("12")), Some(12));
    assert!(bench_disable_outline(Some("1")));
    assert!(bench_force_cache_miss(Some("true")));
    assert!(!bench_disable_outline(Some("TRUE")));
    assert!(!bench_force_cache_miss(None));
}

#[test]
fn phased_reports_keep_every_sample() {
    let mut acc = PhasedBenchAccumulator::with_capacity(4, QpcTimer::new(1));
    for (border, total) in [(5, 30), (1, 10), (3, 20)] {
        let mut rec = PhaseRecord::new(QpcTimer::new(1));
        rec.add(PhaseField::Border, 0, border);
        acc.push(&rec, total);
    }
    let first = acc.report();
    let total = first[0].stats.unwrap();
    assert_eq!((total.n, total.sum, total.min, total.max), (3, 60, 10, 30));
    let border = first[5].stats.unwrap();
    assert_eq!((border.n, border.sum, border.p50), (3, 9, 3));
    // A second report sees the same samples, now sorted.
    let second = acc.report();
    assert_eq!(second[0].stats.unwrap().n, 3);
    assert_eq!(second[0].stats.unwrap().sum, 60);
    assert_eq!(second[5].stats.unwrap().sum, 9);
    assert_eq!((second[1].stats.unwrap().n, second[1].stats.unwrap().sum), (3, 0));
}

#[test]
fn beginning_again_discards_the_record() {
    let mut r = PhaseRecorder::new();
    r.phase_begin(QpcTimer::new(1));
    r.phase_record(PhaseField::Text, 0, 40);
    r.phase_begin(QpcTimer::new(2));
    let rec = r.phase_end().unwrap();
    assert_eq!(rec, PhaseRecord::new(QpcTimer::new(2)));
    assert_eq!(rec.text, 0);
}
