//! Benchmark bookkeeping: tick samples and their summary statistics, per-phase
//! tick accumulation during one paint, and allocation counter deltas. The
//! clock and the allocator counters are read by the caller.
use crate::text::owned;
use vstd::prelude::*;

verus! {

/// A high-resolution tick clock, by its frequency (ticks per second).
#[derive(Debug, Clone, Copy, PartialEq, Eq, Structural)]
pub struct QpcTimer {
    frequency: i64,
}

impl QpcTimer {
    pub closed spec fn frequency_spec(&self) -> i64 {
        self.frequency
    }

    /// A timer for a clock that ticks `frequency` times a second; a
    /// frequency below 1 is taken as 1.
    pub fn new(frequency: i64) -> (r: Self)
        ensures
            r.frequency_spec() == if frequency < 1 {
                1
            } else {
                frequency
            },
    {
        QpcTimer {
            frequency: if frequency < 1 {
                1
            } else {
                frequency
            },
        }
    }

    /// Ticks per second, at least 1.
    pub fn frequency(&self) -> (r: i64)
        ensures
            r == self.frequency_spec(),
    {
        self.frequency
    }
}

/// `s` is in ascending order.
pub open spec fn ascending(s: Seq<i64>) -> bool {
    forall|i: int, j: int| 0 <= i <= j < s.len() ==> s[i] <= s[j]
}

/// Sorts `v` in ascending order: std `slice::sort_unstable`, which, as its
/// documentation says, sorts the slice in place (keeping its elements, in
/// ascending order by `Ord`) without keeping the order of equal elements.
#[verifier::external_body]
fn sort_ticks(v: &mut Vec<i64>)
    ensures
        ascending(final(v)@),
        final(v)@.to_multiset() == old(v)@.to_multiset(),
        final(v)@.len() == old(v)@.len(),
{
    v.sort_unstable();
}

/// The sum of `s`.
pub open spec fn sum_of(s: Seq<i64>) -> int
    decreases s.len(),
{
    if s.len() == 0 {
        0
    } else {
        sum_of(s.drop_last()) + s.last()
    }
}

/// Integer division rounding towards zero, as Rust's `/` does.
pub open spec fn div_toward_zero(a: int, b: int) -> int {
    if a >= 0 {
        a / b
    } else {
        -((-a) / b)
    }
}

/// The index of the 99th percentile among `n` sorted samples.
pub open spec fn p99_index(n: int) -> int {
    if n * 99 / 100 < n - 1 {
        n * 99 / 100
    } else {
        n - 1
    }
}

/// Summary of a set of tick samples.
#[derive(Debug, Clone, Copy, PartialEq, Eq, Structural)]
pub struct BenchStats {
    pub n: usize,
    pub sum: i128,
    /// The mean, rounded towards zero.
    pub avg: i64,
    pub p50: i64,
    pub p99: i64,
    pub min: i64,
    pub max: i64,
}

/// The statistics of the ascending samples `s`.
pub open spec fn stats_of(s: Seq<i64>, st: BenchStats) -> bool {
    let n = s.len() as int;
    &&& st.n == n
    &&& st.sum == sum_of(s)
    &&& st.avg == div_toward_zero(sum_of(s), n)
    &&& st.min == s[0]
    &&& st.max == s[n - 1]
    &&& st.p50 == s[n / 2]
    &&& st.p99 == s[p99_index(n)]
}

proof fn lemma_sum_bounds(s: Seq<i64>)
    ensures
        s.len() * i64::MIN <= sum_of(s) <= s.len() * i64::MAX,
    decreases s.len(),
{
    if s.len() > 0 {
        lemma_sum_bounds(s.drop_last());
    }
}

proof fn lemma_avg_bounds(sum: int, n: int)
    requires
        n > 0,
        n * i64::MIN <= sum <= n * i64::MAX,
    ensures
        i64::MIN <= div_toward_zero(sum, n) <= i64::MAX,
{
    if sum >= 0 {
        assert(sum / n <= i64::MAX) by (nonlinear_arith)
            requires
                n > 0,
                0 <= sum <= n * i64::MAX,
        ;
        assert(sum / n >= 0) by (nonlinear_arith)
            requires
                n > 0,
                0 <= sum,
        ;
    } else {
        assert((-sum) / n <= -(i64::MIN as int)) by (nonlinear_arith)
            requires
                n > 0,
                0 < -sum <= n * (-(i64::MIN as int)),
        ;
        assert((-sum) / n >= 0) by (nonlinear_arith)
            requires
                n > 0,
                0 < -sum,
        ;
    }
}

/// Collects samples and summarises them.
pub struct BenchAccumulator {
    samples: Vec<i64>,
    timer: QpcTimer,
}

impl View for BenchAccumulator {
    type V = Seq<i64>;

    closed spec fn view(&self) -> Seq<i64> {
        self.samples@
    }
}

impl BenchAccumulator {
    pub closed spec fn timer_spec(&self) -> QpcTimer {
        self.timer
    }

    /// An empty accumulator for about `n` samples, converting with `timer`.
    pub fn with_capacity(n: usize, timer: QpcTimer) -> (r: Self)
        ensures
            r@ == Seq::<i64>::empty(),
            r.timer_spec() == timer,
    {
        BenchAccumulator { samples: Vec::with_capacity(n), timer }
    }

    pub fn timer(&self) -> (r: &QpcTimer)
        ensures
            *r == self.timer_spec(),
    {
        &self.timer
    }

    pub fn push(&mut self, ticks: i64)
        ensures
            final(self)@ == old(self)@.push(ticks),
            final(self).timer_spec() == old(self).timer_spec(),
    {
        self.samples.push(ticks);
    }

    /// Sorts the samples and summarises them; none without samples.
    pub fn report(&mut self) -> (r: Option<BenchStats>)
        ensures
            ascending(final(self)@),
            final(self)@.to_multiset() == old(self)@.to_multiset(),
            final(self)@.len() == old(self)@.len(),
            final(self).timer_spec() == old(self).timer_spec(),
            old(self)@.len() == 0 <==> r is None,
            r matches Some(st) ==> stats_of(final(self)@, st),
    {
        if self.samples.len() == 0 {
            return None;
        }
        sort_ticks(&mut self.samples);
        let n = self.samples.len();
        let mut sum: i128 = 0;
        let mut i: usize = 0;
        while i < n
            invariant
                n == self.samples@.len(),
                i <= n,
                sum == sum_of(self.samples@.take(i as int)),
            decreases n - i,
        {
            proof {
                assert(self.samples@.take(i + 1).drop_last() =~= self.samples@.take(i as int));
                lemma_sum_bounds(self.samples@.take(i as int));
                assert(i * i64::MIN >= -0x8000_0000_0000_0000_0000_0000_0000_0000 + 0x8000_0000_0000_0000)
                    by (nonlinear_arith)
                    requires
                        i < 0x1_0000_0000_0000_0000,
                ;
                assert(i * i64::MAX <= 0x7fff_ffff_ffff_ffff_ffff_ffff_ffff_ffff - 0x8000_0000_0000_0000)
                    by (nonlinear_arith)
                    requires
                        i < 0x1_0000_0000_0000_0000,
                ;
            }
            sum = sum + self.samples[i] as i128;
            i = i + 1;
        }
        assert(self.samples@.take(n as int) =~= self.samples@);
        proof {
            lemma_sum_bounds(self.samples@);
            lemma_avg_bounds(sum as int, n as int);
        }
        let nn = n as i128;
        let avg: i128 = if sum >= 0 {
            sum / nn
        } else {
            -((-sum) / nn)
        };
        let q = n / 100;
        let rem = n % 100;
        let scaled = q * 99 + rem * 99 / 100;
        proof {
            assert(scaled == n * 99 / 100) by (nonlinear_arith)
                requires
                    q == n / 100,
                    rem == n % 100,
                    scaled == q * 99 + rem * 99 / 100,
                    n >= 1,
            ;
        }
        let p99_at = if scaled < n - 1 {
            scaled
        } else {
            n - 1
        };
        Some(
            BenchStats {
                n,
                sum,
                avg: avg as i64,
                p50: self.samples[n / 2],
                p99: self.samples[p99_at],
                min: self.samples[0],
                max: self.samples[n - 1],
            },
        )
    }
}

/// The paint phases that a detailed benchmark times.
#[derive(Debug, Clone, Copy, PartialEq, Eq, Structural)]
pub enum PhaseField {
    LazyInit,
    SwapChainWait,
    Setup,
    BeginClear,
    Border,
    Text,
    EndDraw,
    Present,
    HitRegion,
}

/// Ticks spent in each phase of one paint.
#[derive(Debug, Clone, Copy, PartialEq, Eq, Structural)]
pub struct PhaseRecord {
    pub timer: QpcTimer,
    pub lazy_init: i64,
    pub swap_chain_wait: i64,
    pub setup: i64,
    pub begin_clear: i64,
    pub border: i64,
    pub text: i64,
    pub end_draw: i64,
    pub present: i64,
    pub hit_region: i64,
}

impl PhaseRecord {
    /// The ticks of phase `f`.
    pub open spec fn field(&self, f: PhaseField) -> i64 {
        match f {
            PhaseField::LazyInit => self.lazy_init,
            PhaseField::SwapChainWait => self.swap_chain_wait,
            PhaseField::Setup => self.setup,
            PhaseField::BeginClear => self.begin_clear,
            PhaseField::Border => self.border,
            PhaseField::Text => self.text,
            PhaseField::EndDraw => self.end_draw,
            PhaseField::Present => self.present,
            PhaseField::HitRegion => self.hit_region,
        }
    }

    pub closed spec fn timer_spec(&self) -> QpcTimer {
        self.timer
    }

    /// A record with every phase at zero.
    pub fn new(timer: QpcTimer) -> (r: Self)
        ensures
            forall|f: PhaseField| #[trigger] r.field(f) == 0,
            r.timer_spec() == timer,
            r == PhaseRecord::new_spec(timer),
    {
        PhaseRecord {
            timer,
            lazy_init: 0,
            swap_chain_wait: 0,
            setup: 0,
            begin_clear: 0,
            border: 0,
            text: 0,
            end_draw: 0,
            present: 0,
            hit_region: 0,
        }
    }

    /// Adds the ticks from `since` to the clock reading `now` to phase
    /// `field`, and returns `now` as the start of the next phase.
    pub fn add(&mut self, field: PhaseField, since: i64, now: i64) -> (r: i64)
        requires
            i64::MIN <= now - since <= i64::MAX,
            i64::MIN <= old(self).field(field) + (now - since) <= i64::MAX,
        ensures
            r == now,
            final(self).field(field) == old(self).field(field) + (now - since),
            forall|f: PhaseField| f != field ==> #[trigger] final(self).field(f) == old(self).field(f),
            final(self).timer_spec() == old(self).timer_spec(),
    {
        let delta = now - since;
        match field {
            PhaseField::LazyInit => self.lazy_init = self.lazy_init + delta,
            PhaseField::SwapChainWait => self.swap_chain_wait = self.swap_chain_wait + delta,
            PhaseField::Setup => self.setup = self.setup + delta,
            PhaseField::BeginClear => self.begin_clear = self.begin_clear + delta,
            PhaseField::Border => self.border = self.border + delta,
            PhaseField::Text => self.text = self.text + delta,
            PhaseField::EndDraw => self.end_draw = self.end_draw + delta,
            PhaseField::Present => self.present = self.present + delta,
            PhaseField::HitRegion => self.hit_region = self.hit_region + delta,
        }
        now
    }

    pub fn timer(&self) -> (r: &QpcTimer)
        ensures
            *r == self.timer_spec(),
    {
        &self.timer
    }
}

/// The slot the paint hooks record into; empty while no detailed benchmark
/// runs, so the hooks cost one check.
pub struct PhaseRecorder {
    slot: Option<PhaseRecord>,
}

/// The recorder `s` holds a fresh record with clock `timer`, as `phase_begin`
/// leaves it, whatever it held before.
pub open spec fn begun(s: PhaseRecorder, timer: QpcTimer) -> bool {
    s.slot_spec() == Some(PhaseRecord::new_spec(timer))
}

/// `phase_end` took `r` out of `before`, leaving `after` inactive.
pub open spec fn ended(before: PhaseRecorder, after: PhaseRecorder, r: Option<PhaseRecord>) -> bool {
    &&& r == before.slot_spec()
    &&& after.slot_spec() is None
}

impl PhaseRecorder {
    pub closed spec fn slot_spec(&self) -> Option<PhaseRecord> {
        self.slot
    }

    /// An inactive recorder.
    pub fn new() -> (r: Self)
        ensures
            r.slot_spec() is None,
    {
        PhaseRecorder { slot: None }
    }

    /// Starts recording into a fresh record.
    pub fn phase_begin(&mut self, timer: QpcTimer)
        ensures
            begun(*final(self), timer),
    {
        self.slot = Some(PhaseRecord::new(timer));
    }

    /// Stops recording and hands out the record.
    pub fn phase_end(&mut self) -> (r: Option<PhaseRecord>)
        ensures
            ended(*old(self), *final(self), r),
    {
        self.slot.take()
    }

    /// The start mark of a phase: the clock reading `now` while recording, 0
    /// otherwise.
    pub fn phase_now(&self, now: i64) -> (r: i64)
        ensures
            r == if self.slot_spec() is Some {
                now
            } else {
                0
            },
    {
        match &self.slot {
            Some(_) => now,
            None => 0,
        }
    }

    /// Records the phase `field` from `since` to the clock reading `now`
    /// while recording and returns the next start mark; 0 otherwise.
    pub fn phase_record(&mut self, field: PhaseField, since: i64, now: i64) -> (r: i64)
        requires
            old(self).slot_spec() matches Some(rec) ==> (i64::MIN <= now - since <= i64::MAX
                && i64::MIN <= rec.field(field) + (now - since) <= i64::MAX),
        ensures
            match old(self).slot_spec() {
                Some(rec) => r == now && (final(self).slot_spec() matches Some(rec2) && rec2.field(
                    field,
                ) == rec.field(field) + (now - since) && (forall|f: PhaseField|
                    f != field ==> #[trigger] rec2.field(f) == rec.field(f))
                    && rec2.timer_spec() == rec.timer_spec()),
                None => r == 0 && final(self).slot_spec() is None,
            },
    {
        match &mut self.slot {
            Some(rec) => rec.add(field, since, now),
            None => 0,
        }
    }
}

impl PhaseRecord {
    pub closed spec fn new_spec(timer: QpcTimer) -> PhaseRecord {
        PhaseRecord {
            timer,
            lazy_init: 0,
            swap_chain_wait: 0,
            setup: 0,
            begin_clear: 0,
            border: 0,
            text: 0,
            end_draw: 0,
            present: 0,
            hit_region: 0,
        }
    }
}

/// One accumulator per paint phase and one for the whole paint.
pub struct PhasedBenchAccumulator {
    pub lazy_init: BenchAccumulator,
    pub swap_chain_wait: BenchAccumulator,
    pub setup: BenchAccumulator,
    pub begin_clear: BenchAccumulator,
    pub border: BenchAccumulator,
    pub text: BenchAccumulator,
    pub end_draw: BenchAccumulator,
    pub present: BenchAccumulator,
    pub hit_region: BenchAccumulator,
    pub total: BenchAccumulator,
}

/// A labelled summary.
pub struct PhaseReport {
    pub label: String,
    pub stats: Option<BenchStats>,
}

impl PhasedBenchAccumulator {
    /// The samples of phase `f`.
    pub open spec fn phase(&self, f: PhaseField) -> Seq<i64> {
        match f {
            PhaseField::LazyInit => self.lazy_init@,
            PhaseField::SwapChainWait => self.swap_chain_wait@,
            PhaseField::Setup => self.setup@,
            PhaseField::BeginClear => self.begin_clear@,
            PhaseField::Border => self.border@,
            PhaseField::Text => self.text@,
            PhaseField::EndDraw => self.end_draw@,
            PhaseField::Present => self.present@,
            PhaseField::HitRegion => self.hit_region@,
        }
    }

    /// Every accumulator converts with `timer`.
    pub open spec fn uses_timer(&self, timer: QpcTimer) -> bool {
        &&& self.lazy_init.timer_spec() == timer
        &&& self.swap_chain_wait.timer_spec() == timer
        &&& self.setup.timer_spec() == timer
        &&& self.begin_clear.timer_spec() == timer
        &&& self.border.timer_spec() == timer
        &&& self.text.timer_spec() == timer
        &&& self.end_draw.timer_spec() == timer
        &&& self.present.timer_spec() == timer
        &&& self.hit_region.timer_spec() == timer
        &&& self.total.timer_spec() == timer
    }

    /// Empty accumulators for about `n` paints, all converting with `timer`.
    pub fn with_capacity(n: usize, timer: QpcTimer) -> (r: Self)
        ensures
            forall|f: PhaseField| #[trigger] r.phase(f) == Seq::<i64>::empty(),
            r.total@ == Seq::<i64>::empty(),
            r.uses_timer(timer),
    {
        PhasedBenchAccumulator {
            lazy_init: BenchAccumulator::with_capacity(n, timer),
            swap_chain_wait: BenchAccumulator::with_capacity(n, timer),
            setup: BenchAccumulator::with_capacity(n, timer),
            begin_clear: BenchAccumulator::with_capacity(n, timer),
            border: BenchAccumulator::with_capacity(n, timer),
            text: BenchAccumulator::with_capacity(n, timer),
            end_draw: BenchAccumulator::with_capacity(n, timer),
            present: BenchAccumulator::with_capacity(n, timer),
            hit_region: BenchAccumulator::with_capacity(n, timer),
            total: BenchAccumulator::with_capacity(n, timer),
        }
    }

    /// Adds one paint: each phase of `rec` to its accumulator and the whole
    /// paint's ticks to the total.
    pub fn push(&mut self, rec: &PhaseRecord, total_ticks: i64)
        ensures
            forall|f: PhaseField| #[trigger] final(self).phase(f) == old(self).phase(f).push(
                rec.field(f),
            ),
            final(self).total@ == old(self).total@.push(total_ticks),
    {
        self.lazy_init.push(rec.lazy_init);
        self.swap_chain_wait.push(rec.swap_chain_wait);
        self.setup.push(rec.setup);
        self.begin_clear.push(rec.begin_clear);
        self.border.push(rec.border);
        self.text.push(rec.text);
        self.end_draw.push(rec.end_draw);
        self.present.push(rec.present);
        self.hit_region.push(rec.hit_region);
        self.total.push(total_ticks);
    }

    /// Summaries of the total and of every phase, labelled, in that order.
    pub fn report(&mut self) -> (r: Vec<PhaseReport>)
        ensures
            r@.len() == 10,
            r@[0].label@ == "paint_detailed_total"@,
            r@[0].stats is None <==> old(self).total@.len() == 0,
            r@[0].stats matches Some(st) ==> stats_of(final(self).total@, st),
            r@[1].label@ == "paint_detailed_lazy_init"@,
            r@[2].label@ == "paint_detailed_swap_chain_wait"@,
            r@[3].label@ == "paint_detailed_setup"@,
            r@[4].label@ == "paint_detailed_begin_clear"@,
            r@[5].label@ == "paint_detailed_border"@,
            r@[6].label@ == "paint_detailed_text"@,
            r@[7].label@ == "paint_detailed_end_draw"@,
            r@[8].label@ == "paint_detailed_present"@,
            r@[9].label@ == "paint_detailed_hit_region"@,
            forall|k: int|
                1 <= k < 10 ==> {
                    let f = phase_at(k);
                    &&& (#[trigger] r@[k]).stats is None <==> old(self).phase(f).len() == 0
                    &&& r@[k].stats matches Some(st) ==> stats_of(final(self).phase(f), st)
                },
            ascending(final(self).total@),
            final(self).total@.to_multiset() == old(self).total@.to_multiset(),
            final(self).total@.len() == old(self).total@.len(),
            forall|f: PhaseField|
                {
                    &&& ascending(#[trigger] final(self).phase(f))
                    &&& final(self).phase(f).to_multiset() == old(self).phase(f).to_multiset()
                    &&& final(self).phase(f).len() == old(self).phase(f).len()
                },
    {
        let mut out: Vec<PhaseReport> = Vec::new();
        out.push(PhaseReport { label: owned("paint_detailed_total"), stats: self.total.report() });
        out.push(
            PhaseReport { label: owned("paint_detailed_lazy_init"), stats: self.lazy_init.report() },
        );
        out.push(
            PhaseReport {
                label: owned("paint_detailed_swap_chain_wait"),
                stats: self.swap_chain_wait.report(),
            },
        );
        out.push(PhaseReport { label: owned("paint_detailed_setup"), stats: self.setup.report() });
        out.push(
            PhaseReport {
                label: owned("paint_detailed_begin_clear"),
                stats: self.begin_clear.report(),
            },
        );
        out.push(PhaseReport { label: owned("paint_detailed_border"), stats: self.border.report() });
        out.push(PhaseReport { label: owned("paint_detailed_text"), stats: self.text.report() });
        out.push(
            PhaseReport { label: owned("paint_detailed_end_draw"), stats: self.end_draw.report() },
        );
        out.push(
            PhaseReport { label: owned("paint_detailed_present"), stats: self.present.report() },
        );
        out.push(
            PhaseReport {
                label: owned("paint_detailed_hit_region"),
                stats: self.hit_region.report(),
            },
        );
        out
    }
}

/// The phase reported at position `k` (1 to 9) of a detailed report.
pub open spec fn phase_at(k: int) -> PhaseField {
    if k == 1 {
        PhaseField::LazyInit
    } else if k == 2 {
        PhaseField::SwapChainWait
    } else if k == 3 {
        PhaseField::Setup
    } else if k == 4 {
        PhaseField::BeginClear
    } else if k == 5 {
        PhaseField::Border
    } else if k == 6 {
        PhaseField::Text
    } else if k == 7 {
        PhaseField::EndDraw
    } else if k == 8 {
        PhaseField::Present
    } else {
        PhaseField::HitRegion
    }
}

/// The allocation counters at one moment.
#[derive(Debug, Clone, Copy, Default, PartialEq, Eq, Structural)]
pub struct MemSnapshot {
    /// Bytes allocated since the process started.
    pub total_bytes: u64,
    /// Bytes allocated and not yet freed.
    pub live_bytes: u64,
    /// Largest number of live bytes so far.
    pub peak_bytes: u64,
}

/// What a piece of work allocated.
#[derive(Debug, Clone, Copy, PartialEq, Eq, Structural)]
pub struct MemDelta {
    /// Bytes allocated during the work (churn).
    pub total_delta: u64,
    /// Live bytes left over after the work (caches and the like).
    pub live_delta: u64,
    /// The process-wide peak of live bytes up to the end of the work (it may
    /// have been reached before the work started).
    pub peak: u64,
}

impl MemSnapshot {
    /// The change from `start` to `self`: the allocated bytes in between, the
    /// live bytes gained (0 if fewer) and the larger of the two process-wide
    /// peaks.
    pub fn delta(&self, start: MemSnapshot) -> (r: MemDelta)
        requires
            start.total_bytes <= self.total_bytes,
        ensures
            r.total_delta == self.total_bytes - start.total_bytes,
            r.live_delta == if self.live_bytes >= start.live_bytes {
                self.live_bytes - start.live_bytes
            } else {
                0
            },
            r.peak == if self.peak_bytes >= start.peak_bytes {
                self.peak_bytes
            } else {
                start.peak_bytes
            },
    {
        MemDelta {
            total_delta: self.total_bytes - start.total_bytes,
            live_delta: if self.live_bytes >= start.live_bytes {
                self.live_bytes - start.live_bytes
            } else {
                0
            },
            peak: if self.peak_bytes >= start.peak_bytes {
                self.peak_bytes
            } else {
                start.peak_bytes
            },
        }
    }
}

pub open spec fn is_digit(c: char) -> bool {
    '0' <= c && c <= '9'
}

/// The value of the decimal digits `s`.
pub open spec fn digits_value(s: Seq<char>) -> int
    decreases s.len(),
{
    if s.len() == 0 {
        0
    } else {
        digits_value(s.drop_last()) * 10 + ((s.last() as u32) - 48)
    }
}

/// `s` without a leading `+`.
pub open spec fn plus_stripped(s: Seq<char>) -> Seq<char> {
    if s.len() > 0 && s[0] == '+' {
        s.drop_first()
    } else {
        s
    }
}

/// All characters of `s` are ASCII digits.
pub open spec fn all_digits(s: Seq<char>) -> bool {
    forall|k: int| 0 <= k < s.len() ==> is_digit(#[trigger] s[k])
}

/// The `usize` a string spells the way Rust's unsigned parser reads it: an
/// optional `+`, then one or more ASCII digits, and a value in range.
pub open spec fn parse_usize_spec(s: Seq<char>) -> Option<usize> {
    let body = plus_stripped(s);
    if body.len() == 0 || !all_digits(body) {
        None
    } else if digits_value(body) <= usize::MAX {
        Some(digits_value(body) as usize)
    } else {
        None
    }
}

proof fn lemma_digits_grow(s: Seq<char>, c: char)
    requires
        forall|k: int| 0 <= k < s.len() ==> is_digit(#[trigger] s[k]),
        is_digit(c),
    ensures
        digits_value(s.push(c)) >= digits_value(s) >= 0,
    decreases s.len(),
{
    assert(s.push(c).drop_last() =~= s);
    if s.len() > 0 {
        assert forall|k: int| 0 <= k < s.drop_last().len() implies is_digit(#[trigger] s.drop_last()[k]) by {
            assert(s.drop_last()[k] == s[k]);
        }
        lemma_digits_grow(s.drop_last(), s.last());
        assert(s.drop_last().push(s.last()) =~= s);
    }
}

/// Parses a `usize` as Rust's unsigned integer parser does.
pub fn parse_usize(raw: &Vec<char>) -> (r: Option<usize>)
    ensures
        r == parse_usize_spec(raw@),
{
    let n = raw.len();
    let start: usize = if n > 0 && raw[0] == '+' {
        1
    } else {
        0
    };
    let ghost body = plus_stripped(raw@);
    assert(body =~= raw@.subrange(start as int, n as int));
    if start == n {
        return None;
    }
    let mut acc: usize = 0;
    let mut over = false;
    let mut i: usize = start;
    while i < n
        invariant
            n == raw@.len(),
            start <= i <= n,
            body == raw@.subrange(start as int, n as int),
            body == plus_stripped(raw@),
            forall|k: int| start <= k < i ==> is_digit(#[trigger] raw@[k]),
            !over ==> acc as int == digits_value(raw@.subrange(start as int, i as int)),
            over ==> digits_value(raw@.subrange(start as int, i as int)) > usize::MAX,
        decreases n - i,
    {
        let c = raw[i];
        if !('0' <= c && c <= '9') {
            assert(body[i - start] == c);
            assert(!is_digit(body[(i - start) as int]));
            assert(!all_digits(body));
            return None;
        }
        let d = (c as u32 - 48) as usize;
        let ghost pre = raw@.subrange(start as int, i as int);
        let ghost next = raw@.subrange(start as int, i + 1);
        assert(pre.push(c) =~= next);
        proof {
            assert forall|k: int| 0 <= k < pre.len() implies is_digit(#[trigger] pre[k]) by {
                assert(pre[k] == raw@[start + k]);
            }
            lemma_digits_grow(pre, c);
            assert(next.drop_last() =~= pre);
        }
        if over {
        } else if acc > (usize::MAX - d) / 10 {
            assert(acc * 10 + d > usize::MAX) by (nonlinear_arith)
                requires
                    acc > (usize::MAX - d) / 10,
                    d <= 9,
            ;
            over = true;
        } else {
            assert(acc * 10 + d <= usize::MAX) by (nonlinear_arith)
                requires
                    acc <= (usize::MAX - d) / 10,
                    d <= 9,
            ;
            acc = acc * 10 + d;
        }
        i = i + 1;
    }
    if over {
        None
    } else {
        Some(acc)
    }
}

/// The iteration count of a paint benchmark from the value of its
/// environment variable: a positive integer (surrounding white space
/// ignored); unset, unparsable or 0 means no benchmark.
pub fn paint_bench_iters(raw: Option<&str>) -> (r: Option<usize>)
    ensures
        match raw {
            None => r is None,
            Some(s) => match parse_usize_spec(crate::text::trim(s@)) {
                Some(n) => if n == 0 {
                    r is None
                } else {
                    r == Some(n)
                },
                None => r is None,
            },
        },
{
    match raw {
        None => None,
        Some(s) => {
            let t = crate::text::trimmed(s);
            let v = crate::text::chars_of(t.as_str());
            match parse_usize(&v) {
                Some(n) => if n == 0 {
                    None
                } else {
                    Some(n)
                },
                None => None,
            }
        },
    }
}

/// The iteration count of the detailed paint benchmark, read as
/// [`paint_bench_iters`] reads its variable.
pub fn paint_bench_detailed_iters(raw: Option<&str>) -> (r: Option<usize>)
    ensures
        r == match raw {
            None => None::<usize>,
            Some(s) => match parse_usize_spec(crate::text::trim(s@)) {
                Some(n) => if n == 0 {
                    None
                } else {
                    Some(n)
                },
                None => None,
            },
        },
{
    paint_bench_iters(raw)
}

/// A benchmark switch is on when its variable is exactly `1` or `true`.
pub open spec fn switch_on(raw: Option<Seq<char>>) -> bool {
    match raw {
        Some(s) => s == "1"@ || s == "true"@,
        None => false,
    }
}

fn switch_enabled(raw: Option<&str>) -> (r: bool)
    ensures
        r == switch_on(match raw {
            Some(s) => Some(s@),
            None => None,
        }),
{
    match raw {
        Some(s) => crate::text::str_eq(s, "1") || crate::text::str_eq(s, "true"),
        None => false,
    }
}

/// Whether the benchmark draws without outlines and shadow.
pub fn bench_disable_outline(raw: Option<&str>) -> (r: bool)
    ensures
        r == switch_on(match raw {
            Some(s) => Some(s@),
            None => None,
        }),
{
    switch_enabled(raw)
}

/// Whether the benchmark changes the text every iteration to defeat caches.
pub fn bench_force_cache_miss(raw: Option<&str>) -> (r: bool)
    ensures
        r == switch_on(match raw {
            Some(s) => Some(s@),
            None => None,
        }),
{
    switch_enabled(raw)
}

/// `phase_begin` discards whatever was recorded before: the record that the
/// next `phase_end` hands out has every phase at zero and the clock given to
/// `phase_begin`.
pub proof fn lemma_begin_resets_record(
    s1: PhaseRecorder,
    s2: PhaseRecorder,
    timer: QpcTimer,
    r: Option<PhaseRecord>,
)
    requires
        begun(s1, timer),
        ended(s1, s2, r),
    ensures
        r matches Some(rec) && rec.timer_spec() == timer && forall|f: PhaseField|
            #[trigger] rec.field(f) == 0,
        s2.slot_spec() is None,
{
}

} // verus!
