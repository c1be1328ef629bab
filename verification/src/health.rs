//! Video health monitoring of the screen share: once a second the inbound
//! (remote screen) and outbound (local screen) statistics are sampled, and
//! stalls and quality problems are detected and reported once per call.
//!
//! Times are nanoseconds on a monotonic clock; freeze and quality-limited
//! durations are milliseconds.

use std::collections::VecDeque;
use vstd::prelude::*;
use vstd::string::StringExecFns;
use crate::text::{chars_lt, chars_of, lemma_text_lt_total, lemma_text_lt_transitive, text_lt};

verus! {

/// Samples taken before this much time has passed since a stream was first
/// seen only set the baseline.
pub const WARMUP_NANOS: u64 = 10_000_000_000;

/// Span of the inbound quality window.
pub const QUALITY_WINDOW_NANOS: u64 = 5_000_000_000;

/// Consecutive stalled samples that make a stall.
pub const STALL_SAMPLES: u8 = 3;

/// Consecutive samples limited for the same reason that make a limitation.
pub const LIMIT_SAMPLES: u8 = 5;

/// A window needs this many decoded and dropped frames before its drop
/// ratio counts.
pub const MIN_DROP_FRAMES: u64 = 30;

/// Freezing this long within a window degrades it.
pub const MIN_FREEZE_MILLIS: u64 = 2000;

/// A set of labels, listed in ascending order of their text (`text_lt`),
/// each once.
#[derive(Debug)]
pub struct LabelSet {
    items: Vec<String>,
}

impl View for LabelSet {
    type V = Set<Seq<char>>;

    closed spec fn view(&self) -> Set<Seq<char>> {
        Set::new(|l: Seq<char>| exists|i: int| 0 <= i < self.items@.len() && self.items@[i]@ == l)
    }
}

/// The texts of `items` ascend strictly.
pub open spec fn ascending(items: Seq<String>) -> bool {
    forall|i: int, j: int|
        #![trigger items[i], items[j]]
        0 <= i < j < items.len() ==> text_lt(items[i]@, items[j]@)
}

impl LabelSet {
    #[verifier::type_invariant]
    spec fn listed_in_order(self) -> bool {
        ascending(self.items@)
    }

    /// The empty set.
    pub fn new() -> (r: Self)
        ensures
            r@ == Set::<Seq<char>>::empty(),
    {
        let r = LabelSet { items: Vec::new() };
        assert(r@ =~= Set::<Seq<char>>::empty());
        r
    }

    /// Whether `label` is in the set.
    pub fn contains(&self, label: &str) -> (r: bool)
        ensures
            r == self@.contains(label@),
    {
        let wanted = String::from_str(label);
        let mut i: usize = 0;
        while i < self.items.len()
            invariant
                i <= self.items@.len(),
                wanted@ == label@,
                forall|k: int| 0 <= k < i ==> self.items@[k]@ != label@,
            decreases self.items@.len() - i,
        {
            if self.items[i] == wanted {
                return true;
            }
            i += 1;
        }
        false
    }

    /// Adds `label`, in its place in the order.
    pub fn insert(&mut self, label: &str)
        ensures
            final(self)@ == old(self)@.insert(label@),
    {
        proof {
            use_type_invariant(&*self);
        }
        let wanted = chars_of(label);
        let mut p: usize = 0;
        while p < self.items.len()
            invariant
                p <= self.items@.len(),
                wanted@ == label@,
                forall|k: int| 0 <= k < p ==> text_lt(#[trigger] self.items@[k]@, label@),
            ensures
                p <= self.items@.len(),
                forall|k: int| 0 <= k < p ==> text_lt(#[trigger] self.items@[k]@, label@),
                p < self.items@.len() ==> !text_lt(self.items@[p as int]@, label@),
            decreases self.items@.len() - p,
        {
            let here = chars_of(self.items[p].as_str());
            if !chars_lt(here.as_slice(), wanted.as_slice()) {
                break;
            }
            p += 1;
        }
        let text = String::from_str(label);
        if p < self.items.len() && self.items[p] == text {
            assert(self@ =~= old(self)@.insert(label@)) by {
                assert(self.items@[p as int]@ == label@);
            }
            return;
        }
        let ghost before = self.items@;
        let ghost after = before.insert(p as int, text);
        proof {
            assert forall|i: int, j: int|
                #![trigger after[i], after[j]]
                0 <= i < j < after.len() implies text_lt(after[i]@, after[j]@) by {
                if j < p {
                    assert(after[i] == before[i] && after[j] == before[j]);
                } else if j == p {
                    assert(after[i] == before[i]);
                } else if i == p {
                    assert(after[j] == before[j - 1]);
                    lemma_text_lt_total(before[p as int]@, label@);
                    if j - 1 > p {
                        assert(text_lt(before[p as int]@, before[j - 1]@));
                        lemma_text_lt_transitive(label@, before[p as int]@, before[j - 1]@);
                    }
                } else if i < p {
                    assert(after[i] == before[i] && after[j] == before[j - 1]);
                } else {
                    assert(after[i] == before[i - 1] && after[j] == before[j - 1]);
                }
            }
        }
        let mut items: Vec<String> = Vec::new();
        std::mem::swap(&mut items, &mut self.items);
        items.insert(p, text);
        self.items = items;
        assert(self@ =~= old(self)@.insert(label@)) by {
            assert(self.items@[p as int]@ == label@);
            assert forall|l: Seq<char>| self@.contains(l) implies old(self)@.insert(label@).contains(l) by {
                let i = choose|i: int| 0 <= i < self.items@.len() && self.items@[i]@ == l;
                if i < p {
                    assert(self.items@[i] == before[i]);
                } else if i > p {
                    assert(self.items@[i] == before[i - 1]);
                }
            }
            assert forall|l: Seq<char>| old(self)@.contains(l) implies self@.contains(l) by {
                let i = choose|i: int| 0 <= i < before.len() && before[i]@ == l;
                if i < p {
                    assert(self.items@[i] == before[i]);
                } else {
                    assert(self.items@[i + 1] == before[i]);
                }
            }
        }
    }

    /// The labels in ascending order of their text, each once.
    pub fn labels(&self) -> (r: Vec<String>)
        ensures
            forall|l: Seq<char>| self@.contains(l) <==> exists|i: int| 0 <= i < r@.len() && r@[i]@ == l,
            ascending(r@),
    {
        proof {
            use_type_invariant(self);
        }
        let mut r: Vec<String> = Vec::new();
        let mut i: usize = 0;
        while i < self.items.len()
            invariant
                i <= self.items@.len(),
                r@ == self.items@.take(i as int),
            decreases self.items@.len() - i,
        {
            r.push(self.items[i].clone());
            i += 1;
            assert(r@ =~= self.items@.take(i as int));
        }
        assert(r@ =~= self.items@);
        r
    }
}

impl Clone for LabelSet {
    /// A set with the same labels.
    fn clone(&self) -> (r: Self)
        ensures
            r@ == self@,
    {
        let items = self.labels();
        let r = LabelSet { items };
        assert(r@ =~= self@);
        r
    }
}

/// The problems the monitor reports.
#[derive(Debug, Clone, Copy, PartialEq, Eq, Structural)]
pub enum HealthIssue {
    DecoderStalled,
    DecoderQualityDegraded,
    EncoderStalled,
    EncoderQualityLimited,
}

impl HealthIssue {
    /// The name an issue is reported under.
    pub open spec fn spec_name(&self) -> Seq<char> {
        match self {
            HealthIssue::DecoderStalled => "decoder_stalled"@,
            HealthIssue::DecoderQualityDegraded => "decoder_quality_degraded"@,
            HealthIssue::EncoderStalled => "encoder_stalled"@,
            HealthIssue::EncoderQualityLimited => "encoder_quality_limited"@,
        }
    }

    /// The name an issue is reported under.
    pub fn name(&self) -> (r: &'static str)
        ensures
            r@ == self.spec_name(),
    {
        match self {
            HealthIssue::DecoderStalled => "decoder_stalled",
            HealthIssue::DecoderQualityDegraded => "decoder_quality_degraded",
            HealthIssue::EncoderStalled => "encoder_stalled",
            HealthIssue::EncoderQualityLimited => "encoder_quality_limited",
        }
    }
}

/// Cumulative statistics of the received screen share stream.
#[derive(Debug, Clone)]
pub struct InboundSample {
    pub id: String,
    pub codec: String,
    pub decoder: String,
    pub frames_received: u64,
    pub frames_decoded: u64,
    pub frames_dropped: u64,
    pub freeze_millis: u64,
}

/// Cumulative statistics of the sent screen share stream.
#[derive(Debug, Clone)]
pub struct OutboundSample {
    pub id: String,
    pub codec: String,
    pub encoder: String,
    pub source_frames: u64,
    pub frames_encoded: u64,
    /// Why the encoder limits quality, lower case; `none` when it does not.
    pub quality_reason: String,
    pub quality_limited_millis: u64,
}

/// A reported problem, with the figures that show it.
#[derive(Debug)]
pub enum HealthEvent {
    Inbound {
        issue: HealthIssue,
        codec: String,
        decoder: String,
        received: u64,
        decoded: u64,
        dropped: u64,
        freeze_millis: u64,
    },
    Outbound {
        issue: HealthIssue,
        codec: String,
        encoder: String,
        limitation_reason: String,
        source: u64,
        encoded: u64,
    },
}

impl HealthEvent {
    pub open spec fn issue(&self) -> HealthIssue {
        match self {
            HealthEvent::Inbound { issue, .. } => *issue,
            HealthEvent::Outbound { issue, .. } => *issue,
        }
    }
}

/// One sample of the inbound quality window.
#[derive(Debug, Clone, Copy, PartialEq, Eq, Structural)]
pub struct WindowEntry {
    pub at_nanos: u64,
    pub received: u64,
    pub decoded: u64,
    pub dropped: u64,
    pub freeze_millis: u64,
}

/// What the monitor keeps of the inbound stream.
#[derive(Debug)]
pub struct InboundState {
    pub started_at_nanos: u64,
    pub previous: InboundSample,
    pub stall_samples: u8,
    pub window: VecDeque<WindowEntry>,
}

/// What the monitor keeps of the outbound stream.
#[derive(Debug)]
pub struct OutboundState {
    pub started_at_nanos: u64,
    pub previous: OutboundSample,
    pub stall_samples: u8,
    pub limitation_samples: u8,
    pub limitation_reason: String,
}

/// Totals over the whole call, logged when it ends.
#[derive(Debug, Clone)]
pub struct VideoHealthSummary {
    pub inbound_observed: bool,
    pub inbound_frames_received: u64,
    pub inbound_frames_decoded: u64,
    pub inbound_frames_dropped: u64,
    pub inbound_freeze_millis: u64,
    pub max_decoder_stall_seconds: u8,
    pub outbound_source_frames: u64,
    pub outbound_observed: bool,
    pub outbound_frames_encoded: u64,
    pub outbound_quality_limited_millis: u64,
    pub max_encoder_stall_seconds: u8,
    pub quality_limitation_reasons: LabelSet,
    pub codecs: LabelSet,
    pub implementations: LabelSet,
    /// The names of the issues reported so far.
    pub alerts: LabelSet,
}

/// `a + b`, or the largest `u64` where that overflows.
pub open spec fn sat_add(a: u64, b: u64) -> u64 {
    if a + b > u64::MAX {
        u64::MAX
    } else {
        (a + b) as u64
    }
}

/// `a - b`, or 0 where `b` is larger.
pub open spec fn sat_sub(a: u64, b: u64) -> u64 {
    if a >= b {
        (a - b) as u64
    } else {
        0
    }
}

/// Time from `from` to `to`, 0 where `to` is earlier.
pub open spec fn elapsed(from: u64, to: u64) -> u64 {
    sat_sub(to, from)
}

/// Whether a stream first seen at `started` is past its warm-up at `now`.
pub open spec fn warmed_up(started: u64, now: u64) -> bool {
    elapsed(started, now) >= WARMUP_NANOS
}

/// The quality window entry of a sample.
pub open spec fn entry_of(s: InboundSample, now: u64) -> WindowEntry {
    WindowEntry {
        at_nanos: now,
        received: s.frames_received,
        decoded: s.frames_decoded,
        dropped: s.frames_dropped,
        freeze_millis: s.freeze_millis,
    }
}

/// Entries older than the start of the window are dropped from the front,
/// but never the newest one: the front entry goes while the one after it is
/// at or before `cutoff`.
pub open spec fn trim_window(w: Seq<WindowEntry>, cutoff: u64) -> Seq<WindowEntry>
    decreases w.len(),
{
    if w.len() >= 2 && w[1].at_nanos <= cutoff {
        trim_window(w.drop_first(), cutoff)
    } else {
        w
    }
}

/// The start of the quality window that ends at `now`.
pub open spec fn window_cutoff(now: u64) -> u64 {
    if now >= QUALITY_WINDOW_NANOS {
        (now - QUALITY_WINDOW_NANOS) as u64
    } else {
        now
    }
}

/// Frame counts over a window: received, decoded, dropped, freeze.
pub open spec fn window_deltas(w: Seq<WindowEntry>) -> (u64, u64, u64, u64) {
    (
        sat_sub(w.last().received, w[0].received),
        sat_sub(w.last().decoded, w[0].decoded),
        sat_sub(w.last().dropped, w[0].dropped),
        sat_sub(w.last().freeze_millis, w[0].freeze_millis),
    )
}

/// Whether a window that spans the whole quality window froze too long, or
/// dropped at least a fifth of enough frames.
pub open spec fn window_degraded(w: Seq<WindowEntry>) -> bool {
    let d = window_deltas(w);
    let total = d.1 + d.2;
    &&& w.len() > 0
    &&& elapsed(w[0].at_nanos, w.last().at_nanos) >= QUALITY_WINDOW_NANOS
    &&& (d.3 >= MIN_FREEZE_MILLIS || (total >= MIN_DROP_FRAMES && 5 * d.2 >= total))
}

/// Whether the inbound stream starts over with `s`: a first sample, another
/// stream, or counters that went back.
pub open spec fn inbound_restarts(state: Option<InboundState>, s: InboundSample) -> bool {
    match state {
        None => true,
        Some(st) => st.previous.id@ != s.id@ || s.frames_received < st.previous.frames_received
            || s.frames_decoded < st.previous.frames_decoded || s.frames_dropped
            < st.previous.frames_dropped,
    }
}

/// `a` raised to `b` where that is larger.
pub open spec fn max_u8(a: u8, b: u8) -> u8 {
    if a >= b {
        a
    } else {
        b
    }
}

/// The stall counter after a warmed-up sample: one more while frames arrive
/// and none is decoded, else back to 0.
pub open spec fn next_stall(stall: u8, arrived: u64, processed: u64) -> u8 {
    if arrived > 0 && processed == 0 {
        if stall == u8::MAX {
            u8::MAX
        } else {
            (stall + 1) as u8
        }
    } else {
        0
    }
}

fn add_sat(a: u64, b: u64) -> (r: u64)
    ensures
        r == sat_add(a, b),
{
    a.saturating_add(b)
}

fn sub_sat(a: u64, b: u64) -> (r: u64)
    ensures
        r == sat_sub(a, b),
{
    a.saturating_sub(b)
}

fn stall_step(stall: u8, arrived: u64, processed: u64) -> (r: u8)
    ensures
        r == next_stall(stall, arrived, processed),
{
    if arrived > 0 && processed == 0 {
        stall.saturating_add(1)
    } else {
        0
    }
}

fn trim_front(window: &mut VecDeque<WindowEntry>, cutoff: u64)
    ensures
        final(window)@ == trim_window(old(window)@, cutoff),
    decreases old(window)@.len(),
{
    if window.len() >= 2 && window[1].at_nanos <= cutoff {
        window.pop_front();
        assert(window@ =~= old(window)@.drop_first());
        trim_front(window, cutoff);
    }
}

fn is_degraded(window: &VecDeque<WindowEntry>) -> (r: bool)
    requires
        window@.len() > 0,
    ensures
        r == window_degraded(window@),
{
    let first = window[0];
    let last = window[window.len() - 1];
    let decoded = sub_sat(last.decoded, first.decoded);
    let dropped = sub_sat(last.dropped, first.dropped);
    let freeze = sub_sat(last.freeze_millis, first.freeze_millis);
    let total = decoded as u128 + dropped as u128;
    sub_sat(last.at_nanos, first.at_nanos) >= QUALITY_WINDOW_NANOS && (freeze >= MIN_FREEZE_MILLIS
        || (total >= MIN_DROP_FRAMES as u128 && 5 * (dropped as u128) >= total))
}

impl VideoHealthSummary {
    /// The totals of a call in which nothing was observed yet.
    pub fn new() -> (r: Self)
        ensures
            !r.inbound_observed && !r.outbound_observed,
            r.inbound_frames_received == 0 && r.inbound_frames_decoded == 0,
            r.inbound_frames_dropped == 0 && r.inbound_freeze_millis == 0,
            r.outbound_source_frames == 0 && r.outbound_frames_encoded == 0,
            r.outbound_quality_limited_millis == 0,
            r.max_decoder_stall_seconds == 0 && r.max_encoder_stall_seconds == 0,
            r.quality_limitation_reasons@.is_empty(),
            r.codecs@.is_empty(),
            r.implementations@.is_empty(),
            r.alerts@.is_empty(),
    {
        VideoHealthSummary {
            inbound_observed: false,
            inbound_frames_received: 0,
            inbound_frames_decoded: 0,
            inbound_frames_dropped: 0,
            inbound_freeze_millis: 0,
            max_decoder_stall_seconds: 0,
            outbound_source_frames: 0,
            outbound_observed: false,
            outbound_frames_encoded: 0,
            outbound_quality_limited_millis: 0,
            max_encoder_stall_seconds: 0,
            quality_limitation_reasons: LabelSet::new(),
            codecs: LabelSet::new(),
            implementations: LabelSet::new(),
            alerts: LabelSet::new(),
        }
    }
}

/// The monitor: the state of both streams and the call's totals.
#[derive(Debug)]
pub struct HealthMonitor {
    pub inbound: Option<InboundState>,
    pub outbound: Option<OutboundState>,
    pub summary: VideoHealthSummary,
}

/// The events an inbound sample raises past warm-up: a stall when the stall
/// counter reached its threshold, with the sample's deltas; a degraded
/// quality window, with the window's deltas.
pub open spec fn inbound_events(
    stall: u8,
    w: Seq<WindowEntry>,
    s: InboundSample,
    d: (u64, u64, u64, u64),
) -> Seq<HealthEvent> {
    let wd = window_deltas(w);
    (if stall >= STALL_SAMPLES {
        seq![
            HealthEvent::Inbound {
                issue: HealthIssue::DecoderStalled,
                codec: s.codec,
                decoder: s.decoder,
                received: d.0,
                decoded: d.1,
                dropped: d.2,
                freeze_millis: d.3,
            },
        ]
    } else {
        Seq::empty()
    }) + (if window_degraded(w) {
        seq![
            HealthEvent::Inbound {
                issue: HealthIssue::DecoderQualityDegraded,
                codec: s.codec,
                decoder: s.decoder,
                received: wd.0,
                decoded: wd.1,
                dropped: wd.2,
                freeze_millis: wd.3,
            },
        ]
    } else {
        Seq::empty()
    })
}

/// A label set with `label` added unless it is empty.
pub open spec fn with_label(set: Set<Seq<char>>, label: Seq<char>) -> Set<Seq<char>> {
    if label.len() > 0 {
        set.insert(label)
    } else {
        set
    }
}

/// The outbound totals of `b` are those of `a`.
pub open spec fn outbound_totals_same(a: VideoHealthSummary, b: VideoHealthSummary) -> bool {
    &&& b.outbound_source_frames == a.outbound_source_frames
    &&& b.outbound_observed == a.outbound_observed
    &&& b.outbound_frames_encoded == a.outbound_frames_encoded
    &&& b.outbound_quality_limited_millis == a.outbound_quality_limited_millis
    &&& b.max_encoder_stall_seconds == a.max_encoder_stall_seconds
}

/// The inbound totals of `b` are those of `a`.
pub open spec fn inbound_totals_same(a: VideoHealthSummary, b: VideoHealthSummary) -> bool {
    &&& b.inbound_observed == a.inbound_observed
    &&& b.inbound_frames_received == a.inbound_frames_received
    &&& b.inbound_frames_decoded == a.inbound_frames_decoded
    &&& b.inbound_frames_dropped == a.inbound_frames_dropped
    &&& b.inbound_freeze_millis == a.inbound_freeze_millis
    &&& b.max_decoder_stall_seconds == a.max_decoder_stall_seconds
}

/// What an inbound sample leaves as it was in the summary.
pub open spec fn outbound_totals_kept(a: VideoHealthSummary, b: VideoHealthSummary) -> bool {
    &&& outbound_totals_same(a, b)
    &&& b.quality_limitation_reasons@ == a.quality_limitation_reasons@
    &&& b.alerts@ == a.alerts@
}

/// What an outbound sample leaves as it was in the summary.
pub open spec fn inbound_totals_kept(a: VideoHealthSummary, b: VideoHealthSummary) -> bool {
    &&& inbound_totals_same(a, b)
    &&& b.alerts@ == a.alerts@
}

/// The frame deltas of an inbound sample against the previous one:
/// received, decoded, dropped, freeze.
pub open spec fn inbound_deltas(st: InboundState, s: InboundSample) -> (u64, u64, u64, u64) {
    (
        (s.frames_received - st.previous.frames_received) as u64,
        (s.frames_decoded - st.previous.frames_decoded) as u64,
        (s.frames_dropped - st.previous.frames_dropped) as u64,
        sat_sub(s.freeze_millis, st.previous.freeze_millis),
    )
}

/// The stall counter after a warmed-up inbound sample.
pub open spec fn next_inbound_stall(st: InboundState, s: InboundSample) -> u8 {
    next_stall(st.stall_samples, inbound_deltas(st, s).0, inbound_deltas(st, s).1)
}

/// The quality window after a warmed-up inbound sample.
pub open spec fn next_inbound_window(st: InboundState, s: InboundSample, now: u64) -> Seq<WindowEntry> {
    trim_window(st.window@.push(entry_of(s, now)), window_cutoff(now))
}

/// The inbound state after sample `s` at `now`.
pub open spec fn inbound_state_after(
    old_state: Option<InboundState>,
    s: InboundSample,
    now: u64,
    new_state: Option<InboundState>,
) -> bool {
    new_state matches Some(st) && {
        &&& st.previous == s
        &&& if inbound_restarts(old_state, s) {
            &&& st.started_at_nanos == now
            &&& st.stall_samples == 0
            &&& st.window@ == seq![entry_of(s, now)]
        } else {
            let o = old_state.unwrap();
            &&& st.started_at_nanos == o.started_at_nanos
            &&& if warmed_up(o.started_at_nanos, now) {
                &&& st.stall_samples == next_inbound_stall(o, s)
                &&& st.window@ == next_inbound_window(o, s, now)
            } else {
                &&& st.stall_samples == 0
                &&& st.window@ == seq![entry_of(s, now)]
            }
        }
    }
}

/// The summary's inbound totals after sample `s` at `now`: a stream that
/// starts over adds its whole counts, a continuing one its deltas.
pub open spec fn inbound_totals_after(
    a: VideoHealthSummary,
    b: VideoHealthSummary,
    old_state: Option<InboundState>,
    s: InboundSample,
    now: u64,
) -> bool {
    let restart = inbound_restarts(old_state, s);
    let d = if restart {
        (s.frames_received, s.frames_decoded, s.frames_dropped, s.freeze_millis)
    } else {
        inbound_deltas(old_state.unwrap(), s)
    };
    &&& b.inbound_observed == (a.inbound_observed || restart)
    &&& b.inbound_frames_received == sat_add(a.inbound_frames_received, d.0)
    &&& b.inbound_frames_decoded == sat_add(a.inbound_frames_decoded, d.1)
    &&& b.inbound_frames_dropped == sat_add(a.inbound_frames_dropped, d.2)
    &&& b.inbound_freeze_millis == sat_add(a.inbound_freeze_millis, d.3)
    &&& b.max_decoder_stall_seconds == (if !restart && warmed_up(
        old_state.unwrap().started_at_nanos,
        now,
    ) {
        max_u8(a.max_decoder_stall_seconds, next_inbound_stall(old_state.unwrap(), s))
    } else {
        a.max_decoder_stall_seconds
    })
}

/// The labels an inbound sample adds: its codec and decoder, when the
/// stream starts over.
pub open spec fn inbound_labels_recorded(
    a: VideoHealthSummary,
    b: VideoHealthSummary,
    old_state: Option<InboundState>,
    s: InboundSample,
) -> bool {
    if inbound_restarts(old_state, s) {
        &&& b.codecs@ == with_label(a.codecs@, s.codec@)
        &&& b.implementations@ == with_label(a.implementations@, s.decoder@)
    } else {
        &&& b.codecs@ == a.codecs@
        &&& b.implementations@ == a.implementations@
    }
}

/// The events of inbound sample `s` at `now`.
pub open spec fn inbound_step_events(old_state: Option<InboundState>, s: InboundSample, now: u64) -> Seq<
    HealthEvent,
> {
    if inbound_restarts(old_state, s) {
        Seq::empty()
    } else {
        let o = old_state.unwrap();
        if warmed_up(o.started_at_nanos, now) {
            inbound_events(
                next_inbound_stall(o, s),
                next_inbound_window(o, s, now),
                s,
                inbound_deltas(o, s),
            )
        } else {
            Seq::empty()
        }
    }
}

impl HealthMonitor {
    /// A monitor that has seen nothing yet.
    pub fn new() -> (r: Self)
        ensures
            r.inbound is None,
            r.outbound is None,
            !r.summary.inbound_observed && !r.summary.outbound_observed,
            r.summary.inbound_frames_received == 0 && r.summary.inbound_frames_decoded == 0,
            r.summary.inbound_frames_dropped == 0 && r.summary.inbound_freeze_millis == 0,
            r.summary.outbound_source_frames == 0 && r.summary.outbound_frames_encoded == 0,
            r.summary.outbound_quality_limited_millis == 0,
            r.summary.max_decoder_stall_seconds == 0 && r.summary.max_encoder_stall_seconds == 0,
            r.summary.quality_limitation_reasons@.is_empty(),
            r.summary.codecs@.is_empty(),
            r.summary.implementations@.is_empty(),
            r.summary.alerts@.is_empty(),
    {
        HealthMonitor { inbound: None, outbound: None, summary: VideoHealthSummary::new() }
    }

    /// Takes an inbound sample at `now` and returns the problems it shows.
    /// A stream seen for the first time, or starting over, only sets the
    /// baseline; before its warm-up has passed a sample moves the baseline;
    /// after it, stalls and the quality window are checked.
    pub fn update_inbound(&mut self, sample: InboundSample, now: u64) -> (r: Vec<HealthEvent>)
        ensures
            final(self).outbound == old(self).outbound,
            outbound_totals_kept(old(self).summary, final(self).summary),
            inbound_state_after(old(self).inbound, sample, now, final(self).inbound),
            inbound_totals_after(old(self).summary, final(self).summary, old(self).inbound, sample, now),
            inbound_labels_recorded(old(self).summary, final(self).summary, old(self).inbound, sample),
            r@ == inbound_step_events(old(self).inbound, sample, now),
    {
        let old_state = self.inbound.take();
        let restart = match &old_state {
            None => true,
            Some(st) => st.previous.id != sample.id || sample.frames_received
                < st.previous.frames_received || sample.frames_decoded
                < st.previous.frames_decoded || sample.frames_dropped < st.previous.frames_dropped,
        };
        let entry = WindowEntry {
            at_nanos: now,
            received: sample.frames_received,
            decoded: sample.frames_decoded,
            dropped: sample.frames_dropped,
            freeze_millis: sample.freeze_millis,
        };
        if restart {
            self.summary.inbound_observed = true;
            self.summary.inbound_frames_received = add_sat(
                self.summary.inbound_frames_received,
                sample.frames_received,
            );
            self.summary.inbound_frames_decoded = add_sat(
                self.summary.inbound_frames_decoded,
                sample.frames_decoded,
            );
            self.summary.inbound_frames_dropped = add_sat(
                self.summary.inbound_frames_dropped,
                sample.frames_dropped,
            );
            self.summary.inbound_freeze_millis = add_sat(
                self.summary.inbound_freeze_millis,
                sample.freeze_millis,
            );
            if !sample.codec.as_str().is_empty() {
                self.summary.codecs.insert(sample.codec.as_str());
            }
            if !sample.decoder.as_str().is_empty() {
                self.summary.implementations.insert(sample.decoder.as_str());
            }
            let mut window: VecDeque<WindowEntry> = VecDeque::new();
            window.push_back(entry);
            assert(window@ =~= seq![entry_of(sample, now)]);
            self.inbound = Some(
                InboundState { started_at_nanos: now, previous: sample, stall_samples: 0, window },
            );
            return Vec::new();
        }
        let mut st = old_state.unwrap();
        let received = sample.frames_received - st.previous.frames_received;
        let decoded = sample.frames_decoded - st.previous.frames_decoded;
        let dropped = sample.frames_dropped - st.previous.frames_dropped;
        let freeze = sub_sat(sample.freeze_millis, st.previous.freeze_millis);
        self.summary.inbound_frames_received = add_sat(
            self.summary.inbound_frames_received,
            received,
        );
        self.summary.inbound_frames_decoded = add_sat(self.summary.inbound_frames_decoded, decoded);
        self.summary.inbound_frames_dropped = add_sat(self.summary.inbound_frames_dropped, dropped);
        self.summary.inbound_freeze_millis = add_sat(self.summary.inbound_freeze_millis, freeze);
        if sub_sat(now, st.started_at_nanos) < WARMUP_NANOS {
            st.stall_samples = 0;
            st.window.clear();
            st.window.push_back(entry);
            assert(st.window@ =~= seq![entry_of(sample, now)]);
            st.previous = sample;
            self.inbound = Some(st);
            return Vec::new();
        }
        st.stall_samples = stall_step(st.stall_samples, received, decoded);
        if self.summary.max_decoder_stall_seconds < st.stall_samples {
            self.summary.max_decoder_stall_seconds = st.stall_samples;
        }
        st.window.push_back(entry);
        let cutoff = if now >= QUALITY_WINDOW_NANOS {
            now - QUALITY_WINDOW_NANOS
        } else {
            now
        };
        trim_front(&mut st.window, cutoff);
        let mut events: Vec<HealthEvent> = Vec::new();
        if st.stall_samples >= STALL_SAMPLES {
            events.push(
                HealthEvent::Inbound {
                    issue: HealthIssue::DecoderStalled,
                    codec: sample.codec.clone(),
                    decoder: sample.decoder.clone(),
                    received,
                    decoded,
                    dropped,
                    freeze_millis: freeze,
                },
            );
        }
        let ghost stalled_events = events@;
        proof {
            lemma_trim_window_nonempty(old_state.unwrap().window@.push(entry_of(sample, now)), cutoff);
        }
        if is_degraded(&st.window) {
            let first = st.window[0];
            let last = st.window[st.window.len() - 1];
            events.push(
                HealthEvent::Inbound {
                    issue: HealthIssue::DecoderQualityDegraded,
                    codec: sample.codec.clone(),
                    decoder: sample.decoder.clone(),
                    received: sub_sat(last.received, first.received),
                    decoded: sub_sat(last.decoded, first.decoded),
                    dropped: sub_sat(last.dropped, first.dropped),
                    freeze_millis: sub_sat(last.freeze_millis, first.freeze_millis),
                },
            );
        }
        st.previous = sample;
        self.inbound = Some(st);
        assert(events@ =~= inbound_events(
            self.inbound.unwrap().stall_samples,
            self.inbound.unwrap().window@,
            sample,
            (received, decoded, dropped, freeze),
        ));
        events
    }
}

/// The events an outbound sample raises past warm-up: a stall, and a
/// quality limitation that lasted long enough, each with the sample's deltas.
pub open spec fn outbound_events(stall: u8, limited: u8, s: OutboundSample, source: u64, encoded: u64) -> Seq<
    HealthEvent,
> {
    (if stall >= STALL_SAMPLES {
        seq![
            HealthEvent::Outbound {
                issue: HealthIssue::EncoderStalled,
                codec: s.codec,
                encoder: s.encoder,
                limitation_reason: s.quality_reason,
                source,
                encoded,
            },
        ]
    } else {
        Seq::empty()
    }) + (if limited >= LIMIT_SAMPLES {
        seq![
            HealthEvent::Outbound {
                issue: HealthIssue::EncoderQualityLimited,
                codec: s.codec,
                encoder: s.encoder,
                limitation_reason: s.quality_reason,
                source,
                encoded,
            },
        ]
    } else {
        Seq::empty()
    })
}

/// Whether the outbound stream starts over with `s`: a first sample, another
/// stream, or counters that went back.
pub open spec fn outbound_restarts(state: Option<OutboundState>, s: OutboundSample) -> bool {
    match state {
        None => true,
        Some(st) => st.previous.id@ != s.id@ || s.source_frames < st.previous.source_frames
            || s.frames_encoded < st.previous.frames_encoded,
    }
}

/// Whether the encoder reports a quality limitation.
pub open spec fn is_limited(reason: Seq<char>) -> bool {
    reason != "none"@
}

/// The summary's label sets after an outbound sample.
pub open spec fn outbound_labels_recorded(a: VideoHealthSummary, b: VideoHealthSummary, s: OutboundSample) -> bool {
    &&& b.codecs@ == with_label(a.codecs@, s.codec@)
    &&& b.implementations@ == with_label(a.implementations@, s.encoder@)
    &&& b.quality_limitation_reasons@ == (if is_limited(s.quality_reason@) {
        a.quality_limitation_reasons@.insert(s.quality_reason@)
    } else {
        a.quality_limitation_reasons@
    })
}

/// The deltas of an outbound sample against the previous one: source
/// frames, encoded frames, quality-limited time.
pub open spec fn outbound_deltas(st: OutboundState, s: OutboundSample) -> (u64, u64, u64) {
    (
        (s.source_frames - st.previous.source_frames) as u64,
        (s.frames_encoded - st.previous.frames_encoded) as u64,
        sat_sub(s.quality_limited_millis, st.previous.quality_limited_millis),
    )
}

/// The stall counter after a warmed-up outbound sample.
pub open spec fn next_outbound_stall(st: OutboundState, s: OutboundSample) -> u8 {
    next_stall(st.stall_samples, outbound_deltas(st, s).0, outbound_deltas(st, s).1)
}

/// The limitation counter and reason after a warmed-up outbound sample: one
/// more while the same reason goes on, 1 for a new reason, 0 without one.
pub open spec fn next_limitation(st: OutboundState, s: OutboundSample) -> (u8, Seq<char>) {
    if !is_limited(s.quality_reason@) {
        (0, Seq::empty())
    } else if st.limitation_reason@ == s.quality_reason@ {
        (
            if st.limitation_samples == u8::MAX {
                u8::MAX
            } else {
                (st.limitation_samples + 1) as u8
            },
            st.limitation_reason@,
        )
    } else {
        (1, s.quality_reason@)
    }
}

/// The outbound state after sample `s` at `now`.
pub open spec fn outbound_state_after(
    old_state: Option<OutboundState>,
    s: OutboundSample,
    now: u64,
    new_state: Option<OutboundState>,
) -> bool {
    new_state matches Some(st) && {
        &&& st.previous == s
        &&& if outbound_restarts(old_state, s) {
            &&& st.started_at_nanos == now
            &&& st.stall_samples == 0
            &&& st.limitation_samples == 0
            &&& st.limitation_reason@ == Seq::<char>::empty()
        } else {
            let o = old_state.unwrap();
            &&& st.started_at_nanos == o.started_at_nanos
            &&& if warmed_up(o.started_at_nanos, now) {
                &&& st.stall_samples == next_outbound_stall(o, s)
                &&& st.limitation_samples == next_limitation(o, s).0
                &&& st.limitation_reason@ == next_limitation(o, s).1
            } else {
                &&& st.stall_samples == 0
                &&& st.limitation_samples == 0
                &&& st.limitation_reason@ == Seq::<char>::empty()
            }
        }
    }
}

/// The summary's outbound totals after sample `s` at `now`: a stream that
/// starts over adds its whole counts, a continuing one its deltas.
pub open spec fn outbound_totals_after(
    a: VideoHealthSummary,
    b: VideoHealthSummary,
    old_state: Option<OutboundState>,
    s: OutboundSample,
    now: u64,
) -> bool {
    let restart = outbound_restarts(old_state, s);
    let d = if restart {
        (s.source_frames, s.frames_encoded, s.quality_limited_millis)
    } else {
        outbound_deltas(old_state.unwrap(), s)
    };
    &&& b.outbound_observed == (a.outbound_observed || restart)
    &&& b.outbound_source_frames == sat_add(a.outbound_source_frames, d.0)
    &&& b.outbound_frames_encoded == sat_add(a.outbound_frames_encoded, d.1)
    &&& b.outbound_quality_limited_millis == sat_add(a.outbound_quality_limited_millis, d.2)
    &&& b.max_encoder_stall_seconds == (if !restart && warmed_up(
        old_state.unwrap().started_at_nanos,
        now,
    ) {
        max_u8(a.max_encoder_stall_seconds, next_outbound_stall(old_state.unwrap(), s))
    } else {
        a.max_encoder_stall_seconds
    })
}

/// The events of outbound sample `s` at `now`.
pub open spec fn outbound_step_events(old_state: Option<OutboundState>, s: OutboundSample, now: u64) -> Seq<
    HealthEvent,
> {
    if outbound_restarts(old_state, s) {
        Seq::empty()
    } else {
        let o = old_state.unwrap();
        if warmed_up(o.started_at_nanos, now) {
            outbound_events(
                next_outbound_stall(o, s),
                next_limitation(o, s).0,
                s,
                outbound_deltas(o, s).0,
                outbound_deltas(o, s).1,
            )
        } else {
            Seq::empty()
        }
    }
}

impl HealthMonitor {
    fn record_outbound_labels(&mut self, s: &OutboundSample)
        ensures
            outbound_labels_recorded(old(self).summary, final(self).summary, *s),
            inbound_totals_kept(old(self).summary, final(self).summary),
            final(self).inbound == old(self).inbound,
            final(self).outbound == old(self).outbound,
            outbound_totals_same(old(self).summary, final(self).summary),
    {
        if !s.codec.as_str().is_empty() {
            self.summary.codecs.insert(s.codec.as_str());
        }
        if !s.encoder.as_str().is_empty() {
            self.summary.implementations.insert(s.encoder.as_str());
        }
        let none = String::from_str("none");
        if s.quality_reason != none {
            self.summary.quality_limitation_reasons.insert(s.quality_reason.as_str());
        }
    }

    /// Takes an outbound sample at `now` and returns the problems it shows.
    /// A stream seen for the first time, or starting over, only sets the
    /// baseline; before its warm-up has passed a sample moves the baseline;
    /// after it, stalls and quality limitations are counted.
    pub fn update_outbound(&mut self, sample: OutboundSample, now: u64) -> (r: Vec<HealthEvent>)
        ensures
            final(self).inbound == old(self).inbound,
            inbound_totals_kept(old(self).summary, final(self).summary),
            outbound_state_after(old(self).outbound, sample, now, final(self).outbound),
            outbound_totals_after(old(self).summary, final(self).summary, old(self).outbound, sample, now),
            outbound_labels_recorded(old(self).summary, final(self).summary, sample),
            r@ == outbound_step_events(old(self).outbound, sample, now),
    {
        let old_state = self.outbound.take();
        let restart = match &old_state {
            None => true,
            Some(st) => st.previous.id != sample.id || sample.source_frames
                < st.previous.source_frames || sample.frames_encoded < st.previous.frames_encoded,
        };
        self.record_outbound_labels(&sample);
        if restart {
            self.summary.outbound_observed = true;
            self.summary.outbound_source_frames = add_sat(
                self.summary.outbound_source_frames,
                sample.source_frames,
            );
            self.summary.outbound_frames_encoded = add_sat(
                self.summary.outbound_frames_encoded,
                sample.frames_encoded,
            );
            self.summary.outbound_quality_limited_millis = add_sat(
                self.summary.outbound_quality_limited_millis,
                sample.quality_limited_millis,
            );
            self.outbound = Some(
                OutboundState {
                    started_at_nanos: now,
                    previous: sample,
                    stall_samples: 0,
                    limitation_samples: 0,
                    limitation_reason: String::new(),
                },
            );
            return Vec::new();
        }
        let mut st = old_state.unwrap();
        let source = sample.source_frames - st.previous.source_frames;
        let encoded = sample.frames_encoded - st.previous.frames_encoded;
        self.summary.outbound_source_frames = add_sat(self.summary.outbound_source_frames, source);
        self.summary.outbound_frames_encoded = add_sat(
            self.summary.outbound_frames_encoded,
            encoded,
        );
        self.summary.outbound_quality_limited_millis = add_sat(
            self.summary.outbound_quality_limited_millis,
            sub_sat(sample.quality_limited_millis, st.previous.quality_limited_millis),
        );
        if sub_sat(now, st.started_at_nanos) < WARMUP_NANOS {
            st.stall_samples = 0;
            st.limitation_samples = 0;
            st.limitation_reason = String::new();
            st.previous = sample;
            self.outbound = Some(st);
            return Vec::new();
        }
        st.stall_samples = stall_step(st.stall_samples, source, encoded);
        if self.summary.max_encoder_stall_seconds < st.stall_samples {
            self.summary.max_encoder_stall_seconds = st.stall_samples;
        }
        let none = String::from_str("none");
        if sample.quality_reason != none {
            if st.limitation_reason == sample.quality_reason {
                st.limitation_samples = st.limitation_samples.saturating_add(1);
            } else {
                st.limitation_reason = sample.quality_reason.clone();
                st.limitation_samples = 1;
            }
        } else {
            st.limitation_reason = String::new();
            st.limitation_samples = 0;
        }
        let mut events: Vec<HealthEvent> = Vec::new();
        if st.stall_samples >= STALL_SAMPLES {
            events.push(
                HealthEvent::Outbound {
                    issue: HealthIssue::EncoderStalled,
                    codec: sample.codec.clone(),
                    encoder: sample.encoder.clone(),
                    limitation_reason: sample.quality_reason.clone(),
                    source,
                    encoded,
                },
            );
        }
        if st.limitation_samples >= LIMIT_SAMPLES {
            events.push(
                HealthEvent::Outbound {
                    issue: HealthIssue::EncoderQualityLimited,
                    codec: sample.codec.clone(),
                    encoder: sample.encoder.clone(),
                    limitation_reason: sample.quality_reason.clone(),
                    source,
                    encoded,
                },
            );
        }
        st.previous = sample;
        self.outbound = Some(st);
        assert(events@ =~= outbound_events(
            self.outbound.unwrap().stall_samples,
            self.outbound.unwrap().limitation_samples,
            sample,
            source,
            encoded,
        ));
        events
    }
}

/// Reporting `es` in order when the names in `alerts` were reported
/// before: the events reported, each issue only the first time, and the
/// names reported after.
pub open spec fn report_fold(es: Seq<HealthEvent>, alerts: Set<Seq<char>>) -> (
    Seq<HealthEvent>,
    Set<Seq<char>>,
)
    decreases es.len(),
{
    if es.len() == 0 {
        (Seq::empty(), alerts)
    } else {
        let before = report_fold(es.drop_last(), alerts);
        let name = es.last().issue().spec_name();
        if before.1.contains(name) {
            before
        } else {
            (before.0.push(es.last()), before.1.insert(name))
        }
    }
}

fn event_issue(e: &HealthEvent) -> (r: HealthIssue)
    ensures
        r == e.issue(),
{
    match e {
        HealthEvent::Inbound { issue, .. } => *issue,
        HealthEvent::Outbound { issue, .. } => *issue,
    }
}

/// The codecs known after samples of both streams.
pub open spec fn codecs_after(
    a: Set<Seq<char>>,
    old_in: Option<InboundState>,
    inbound: Option<InboundSample>,
    outbound: Option<OutboundSample>,
) -> Set<Seq<char>> {
    let mid = match inbound {
        Some(s) => if inbound_restarts(old_in, s) {
            with_label(a, s.codec@)
        } else {
            a
        },
        None => a,
    };
    match outbound {
        Some(o) => with_label(mid, o.codec@),
        None => mid,
    }
}

/// The encoder and decoder implementations known after samples of both
/// streams.
pub open spec fn implementations_after(
    a: Set<Seq<char>>,
    old_in: Option<InboundState>,
    inbound: Option<InboundSample>,
    outbound: Option<OutboundSample>,
) -> Set<Seq<char>> {
    let mid = match inbound {
        Some(s) => if inbound_restarts(old_in, s) {
            with_label(a, s.decoder@)
        } else {
            a
        },
        None => a,
    };
    match outbound {
        Some(o) => with_label(mid, o.encoder@),
        None => mid,
    }
}

/// The events both streams raise for one sampling.
pub open spec fn step_events(
    old_in: Option<InboundState>,
    old_out: Option<OutboundState>,
    inbound: Option<InboundSample>,
    outbound: Option<OutboundSample>,
    now: u64,
) -> Seq<HealthEvent> {
    (match inbound {
        Some(s) => inbound_step_events(old_in, s, now),
        None => Seq::empty(),
    }) + (match outbound {
        Some(o) => outbound_step_events(old_out, o, now),
        None => Seq::empty(),
    })
}

impl HealthMonitor {
    /// Marks the issues of `events` as reported and returns, in order, the
    /// events whose issue had not been reported yet; each issue is reported
    /// once.
    pub fn report(&mut self, events: Vec<HealthEvent>) -> (r: Vec<HealthEvent>)
        ensures
            r@ == report_fold(events@, old(self).summary.alerts@).0,
            final(self).summary.alerts@ == report_fold(events@, old(self).summary.alerts@).1,
            final(self).inbound == old(self).inbound,
            final(self).outbound == old(self).outbound,
            inbound_totals_same(old(self).summary, final(self).summary),
            outbound_totals_same(old(self).summary, final(self).summary),
            final(self).summary.codecs@ == old(self).summary.codecs@,
            final(self).summary.implementations@ == old(self).summary.implementations@,
            final(self).summary.quality_limitation_reasons@
                == old(self).summary.quality_limitation_reasons@,
    {
        let total = events.len();
        let ghost all = events@;
        let ghost alerts = self.summary.alerts@;
        let mut rest = events;
        let mut out: Vec<HealthEvent> = Vec::new();
        let mut k: usize = 0;
        while rest.len() > 0
            invariant
                all.len() == total,
                k + rest@.len() == all.len(),
                rest@ == all.subrange(k as int, all.len() as int),
                out@ == report_fold(all.take(k as int), alerts).0,
                self.summary.alerts@ == report_fold(all.take(k as int), alerts).1,
                self.inbound == old(self).inbound,
                self.outbound == old(self).outbound,
                inbound_totals_same(old(self).summary, self.summary),
                outbound_totals_same(old(self).summary, self.summary),
                self.summary.codecs@ == old(self).summary.codecs@,
                self.summary.implementations@ == old(self).summary.implementations@,
                self.summary.quality_limitation_reasons@
                    == old(self).summary.quality_limitation_reasons@,
            decreases rest@.len(),
        {
            let e = rest.remove(0);
            proof {
                assert(all.take(k + 1).drop_last() =~= all.take(k as int));
                assert(all.take(k + 1).last() == e);
                assert(rest@ =~= all.subrange(k + 1, all.len() as int));
            }
            let name = event_issue(&e).name();
            if !self.summary.alerts.contains(name) {
                self.summary.alerts.insert(name);
                out.push(e);
            }
            k += 1;
        }
        assert(all.take(k as int) =~= all);
        out
    }

    /// One sampling of both streams at `now`: a stream without a sample is
    /// forgotten. Returns the problems reported for the first time.
    pub fn update(&mut self, inbound: Option<InboundSample>, outbound: Option<OutboundSample>, now: u64) -> (r: Vec<HealthEvent>)
        ensures
            match inbound {
                Some(s) => {
                    &&& inbound_state_after(old(self).inbound, s, now, final(self).inbound)
                    &&& inbound_totals_after(
                        old(self).summary,
                        final(self).summary,
                        old(self).inbound,
                        s,
                        now,
                    )
                },
                None => {
                    &&& final(self).inbound is None
                    &&& inbound_totals_same(old(self).summary, final(self).summary)
                },
            },
            match outbound {
                Some(o) => {
                    &&& outbound_state_after(old(self).outbound, o, now, final(self).outbound)
                    &&& outbound_totals_after(
                        old(self).summary,
                        final(self).summary,
                        old(self).outbound,
                        o,
                        now,
                    )
                },
                None => {
                    &&& final(self).outbound is None
                    &&& outbound_totals_same(old(self).summary, final(self).summary)
                },
            },
            final(self).summary.codecs@ == codecs_after(
                old(self).summary.codecs@,
                old(self).inbound,
                inbound,
                outbound,
            ),
            final(self).summary.implementations@ == implementations_after(
                old(self).summary.implementations@,
                old(self).inbound,
                inbound,
                outbound,
            ),
            final(self).summary.quality_limitation_reasons@ == (match outbound {
                Some(o) => if is_limited(o.quality_reason@) {
                    old(self).summary.quality_limitation_reasons@.insert(o.quality_reason@)
                } else {
                    old(self).summary.quality_limitation_reasons@
                },
                None => old(self).summary.quality_limitation_reasons@,
            }),
            r@ == report_fold(
                step_events(old(self).inbound, old(self).outbound, inbound, outbound, now),
                old(self).summary.alerts@,
            ).0,
            final(self).summary.alerts@ == report_fold(
                step_events(old(self).inbound, old(self).outbound, inbound, outbound, now),
                old(self).summary.alerts@,
            ).1,
    {
        let mut events: Vec<HealthEvent> = match inbound {
            Some(s) => self.update_inbound(s, now),
            None => {
                self.inbound = None;
                Vec::new()
            },
        };
        let mut more: Vec<HealthEvent> = match outbound {
            Some(o) => self.update_outbound(o, now),
            None => {
                self.outbound = None;
                Vec::new()
            },
        };
        events.append(&mut more);
        self.report(events)
    }
}

proof fn lemma_trim_window_nonempty(w: Seq<WindowEntry>, cutoff: u64)
    requires
        w.len() > 0,
    ensures
        trim_window(w, cutoff).len() > 0,
    decreases w.len(),
{
    if w.len() >= 2 && w[1].at_nanos <= cutoff {
        lemma_trim_window_nonempty(w.drop_first(), cutoff);
    }
}

proof fn lemma_report_fold(es: Seq<HealthEvent>, alerts: Set<Seq<char>>)
    ensures
        alerts.subset_of(report_fold(es, alerts).1),
        forall|i: int|
            0 <= i < report_fold(es, alerts).0.len() ==> {
                &&& !alerts.contains(#[trigger] report_fold(es, alerts).0[i].issue().spec_name())
                &&& report_fold(es, alerts).1.contains(report_fold(es, alerts).0[i].issue().spec_name())
            },
        forall|i: int, j: int|
            0 <= i < j < report_fold(es, alerts).0.len() ==> (#[trigger] report_fold(
                es,
                alerts,
            ).0[i]).issue().spec_name() != (#[trigger] report_fold(es, alerts).0[j]).issue().spec_name(),
        forall|n: Seq<char>|
            #[trigger] report_fold(es, alerts).1.contains(n) ==> alerts.contains(n) || exists|i: int|
                0 <= i < report_fold(es, alerts).0.len() && report_fold(es, alerts).0[i].issue().spec_name()
                    == n,
    decreases es.len(),
{
    if es.len() > 0 {
        lemma_report_fold(es.drop_last(), alerts);
        let before = report_fold(es.drop_last(), alerts);
        assert forall|n: Seq<char>| #[trigger] report_fold(es, alerts).1.contains(n) implies alerts.contains(n)
            || exists|i: int|
            0 <= i < report_fold(es, alerts).0.len() && report_fold(es, alerts).0[i].issue().spec_name()
                == n by {
            if before.1.contains(n) {
                if !alerts.contains(n) {
                    let i = choose|i: int|
                        0 <= i < before.0.len() && before.0[i].issue().spec_name() == n;
                    assert(report_fold(es, alerts).0[i] == before.0[i]);
                }
            } else {
                let out = report_fold(es, alerts).0;
                assert(out[out.len() - 1].issue().spec_name() == n);
            }
        }
    }
}

/// An issue is reported at most once per call: across two reportings, the
/// second never repeats an issue the first reported, and neither reports an
/// issue twice or one reported before.
pub proof fn law_issue_reported_once(
    first: Seq<HealthEvent>,
    second: Seq<HealthEvent>,
    alerts: Set<Seq<char>>,
)
    ensures
        ({
            let (r1, a1) = report_fold(first, alerts);
            let (r2, a2) = report_fold(second, a1);
            &&& forall|i: int, j: int|
                0 <= i < r1.len() && 0 <= j < r2.len() ==> (#[trigger] r1[i]).issue().spec_name()
                    != (#[trigger] r2[j]).issue().spec_name()
            &&& forall|i: int, j: int|
                0 <= i < j < r2.len() ==> (#[trigger] r2[i]).issue().spec_name()
                    != (#[trigger] r2[j]).issue().spec_name()
            &&& forall|j: int| 0 <= j < r2.len() ==> !alerts.contains(#[trigger] r2[j].issue().spec_name())
        }),
{
    lemma_report_fold(first, alerts);
    let a1 = report_fold(first, alerts).1;
    lemma_report_fold(second, a1);
}

/// Reporting the events of successive calls: the events each call reports,
/// and the names reported after the last call.
pub open spec fn report_calls(batches: Seq<Seq<HealthEvent>>, alerts: Set<Seq<char>>) -> (
    Seq<Seq<HealthEvent>>,
    Set<Seq<char>>,
)
    decreases batches.len(),
{
    if batches.len() == 0 {
        (Seq::empty(), alerts)
    } else {
        let before = report_calls(batches.drop_last(), alerts);
        let last = report_fold(batches.last(), before.1);
        (before.0.push(last.0), last.1)
    }
}

/// The name under which the `k`-th event reported by call `i` went out.
pub open spec fn sent_name(outs: Seq<Seq<HealthEvent>>, i: int, k: int) -> Seq<char> {
    outs[i][k].issue().spec_name()
}

/// Over any sequence of calls, each issue is reported at most once: no
/// reported issue had been reported before, no two reports (in one call or
/// in different calls) share an issue, and the names reported in the end are
/// those reported before and those of the reports.
pub proof fn law_issue_reported_once_per_monitor(batches: Seq<Seq<HealthEvent>>, alerts: Set<Seq<char>>)
    ensures
        ({
            let (outs, a) = report_calls(batches, alerts);
            &&& outs.len() == batches.len()
            &&& alerts.subset_of(a)
            &&& forall|i: int, k: int|
                0 <= i < outs.len() && 0 <= k < outs[i].len() ==> !alerts.contains(
                    #[trigger] sent_name(outs, i, k),
                ) && a.contains(sent_name(outs, i, k))
            &&& forall|i: int, k: int, j: int, l: int|
                0 <= i < outs.len() && 0 <= k < outs[i].len() && 0 <= j < outs.len() && 0 <= l
                    < outs[j].len() && (i, k) != (j, l) ==> #[trigger] sent_name(outs, i, k)
                    != #[trigger] sent_name(outs, j, l)
            &&& forall|n: Seq<char>|
                #[trigger] a.contains(n) ==> alerts.contains(n) || exists|i: int, k: int|
                    0 <= i < outs.len() && 0 <= k < outs[i].len() && sent_name(outs, i, k) == n
        }),
    decreases batches.len(),
{
    if batches.len() > 0 {
        law_issue_reported_once_per_monitor(batches.drop_last(), alerts);
        let (pouts, pa) = report_calls(batches.drop_last(), alerts);
        let (o, a2) = report_fold(batches.last(), pa);
        lemma_report_fold(batches.last(), pa);
        let (outs, a) = report_calls(batches, alerts);
        assert(outs == pouts.push(o));
        assert(a == a2);
        let m = pouts.len() as int;
        assert forall|i: int, k: int| 0 <= i < outs.len() && 0 <= k < outs[i].len() implies !alerts.contains(
            #[trigger] sent_name(outs, i, k),
        ) && a.contains(sent_name(outs, i, k)) by {
            if i < m {
                assert(sent_name(outs, i, k) == sent_name(pouts, i, k));
            } else {
                assert(sent_name(outs, i, k) == o[k].issue().spec_name());
            }
        }
        assert forall|i: int, k: int, j: int, l: int|
            0 <= i < outs.len() && 0 <= k < outs[i].len() && 0 <= j < outs.len() && 0 <= l
                < outs[j].len() && (i, k) != (j, l) implies #[trigger] sent_name(outs, i, k)
            != #[trigger] sent_name(outs, j, l) by {
            if i < m && j < m {
                assert(sent_name(outs, i, k) == sent_name(pouts, i, k));
                assert(sent_name(outs, j, l) == sent_name(pouts, j, l));
            } else if i < m {
                assert(sent_name(outs, i, k) == sent_name(pouts, i, k));
                assert(pa.contains(sent_name(pouts, i, k)));
                assert(sent_name(outs, j, l) == o[l].issue().spec_name());
            } else if j < m {
                assert(sent_name(outs, j, l) == sent_name(pouts, j, l));
                assert(pa.contains(sent_name(pouts, j, l)));
                assert(sent_name(outs, i, k) == o[k].issue().spec_name());
            } else {
                assert(sent_name(outs, i, k) == o[k].issue().spec_name());
                assert(sent_name(outs, j, l) == o[l].issue().spec_name());
                if k > l {
                    assert(o[l].issue().spec_name() != o[k].issue().spec_name());
                }
            }
        }
        assert forall|n: Seq<char>| #[trigger] a.contains(n) implies alerts.contains(n) || exists|
            i: int,
            k: int,
        | 0 <= i < outs.len() && 0 <= k < outs[i].len() && sent_name(outs, i, k) == n by {
            if pa.contains(n) {
                if !alerts.contains(n) {
                    let (i, k) = choose|i: int, k: int|
                        0 <= i < pouts.len() && 0 <= k < pouts[i].len() && sent_name(pouts, i, k)
                            == n;
                    assert(sent_name(outs, i, k) == sent_name(pouts, i, k));
                }
            } else {
                let k = choose|k: int| 0 <= k < o.len() && o[k].issue().spec_name() == n;
                assert(sent_name(outs, m, k) == n);
            }
        }
    }
}

/// The stall counter after a run of warmed-up samples, each given by the
/// frames that arrived and the frames processed, from counter `stall`.
pub open spec fn stall_after(stall: u8, ds: Seq<(u64, u64)>) -> u8
    decreases ds.len(),
{
    if ds.len() == 0 {
        stall
    } else {
        next_stall(stall_after(stall, ds.drop_last()), ds.last().0, ds.last().1)
    }
}

/// How many samples at the end of `ds` were stalled: frames arrived and none
/// was processed.
pub open spec fn trailing_stalls(ds: Seq<(u64, u64)>) -> nat
    decreases ds.len(),
{
    if ds.len() > 0 && ds.last().0 > 0 && ds.last().1 == 0 {
        trailing_stalls(ds.drop_last()) + 1
    } else {
        0
    }
}

/// The stall counter counts the stalled samples in a row: after a reset to
/// 0 (a new stream or the warm-up), it is the number of stalled samples at
/// the end of the run, capped at 255; so a stall is reported exactly when
/// the last three or more samples stalled.
pub proof fn law_stall_counts_the_run(ds: Seq<(u64, u64)>)
    ensures
        stall_after(0, ds) == (if trailing_stalls(ds) > 255 {
            255
        } else {
            trailing_stalls(ds)
        }),
        stall_after(0, ds) >= STALL_SAMPLES <==> trailing_stalls(ds) >= STALL_SAMPLES,
    decreases ds.len(),
{
    if ds.len() > 0 {
        law_stall_counts_the_run(ds.drop_last());
    }
}

/// One warmed-up step of the limitation counter and reason, by the sample's
/// reason alone.
pub open spec fn limit_step(state: (u8, Seq<char>), reason: Seq<char>) -> (u8, Seq<char>) {
    if !is_limited(reason) {
        (0, Seq::empty())
    } else if state.1 == reason {
        (
            if state.0 == u8::MAX {
                u8::MAX
            } else {
                (state.0 + 1) as u8
            },
            state.1,
        )
    } else {
        (1, reason)
    }
}

/// The limitation counter and reason after a run of warmed-up reasons.
pub open spec fn limit_after(state: (u8, Seq<char>), rs: Seq<Seq<char>>) -> (u8, Seq<char>)
    decreases rs.len(),
{
    if rs.len() == 0 {
        state
    } else {
        limit_step(limit_after(state, rs.drop_last()), rs.last())
    }
}

/// How many reasons at the end of `rs` equal the last one.
pub open spec fn trailing_same(rs: Seq<Seq<char>>) -> nat
    decreases rs.len(),
{
    if rs.len() == 0 {
        0
    } else if rs.len() >= 2 && rs[rs.len() - 2] == rs.last() {
        trailing_same(rs.drop_last()) + 1
    } else {
        1
    }
}

/// `limit_step` is the step `update_outbound` takes.
pub proof fn lemma_limit_step(st: OutboundState, s: OutboundSample)
    ensures
        next_limitation(st, s) == limit_step(
            (st.limitation_samples, st.limitation_reason@),
            s.quality_reason@,
        ),
{
}

/// The limitation counter counts the samples in a row limited for the same
/// reason: after a reset (a new stream or the warm-up), the counter is the
/// length of the run of equal reasons at the end, capped at 255, and 0 when
/// the last reason is `none`; the reason kept is the last one. So a
/// limitation is reported exactly when the last five or more samples were
/// limited for one reason.
pub proof fn law_limitation_counts_the_run(rs: Seq<Seq<char>>)
    ensures
        ({
            let st = limit_after((0, Seq::empty()), rs);
            let run = trailing_same(rs);
            &&& rs.len() == 0 ==> st == (0u8, Seq::<char>::empty())
            &&& rs.len() > 0 && !is_limited(rs.last()) ==> st == (0u8, Seq::<char>::empty())
            &&& rs.len() > 0 && is_limited(rs.last()) ==> st == ((if run > 255 {
                255
            } else {
                run
            }) as u8, rs.last())
            &&& (st.0 >= LIMIT_SAMPLES <==> (rs.len() > 0 && is_limited(rs.last()) && run
                >= LIMIT_SAMPLES))
        }),
    decreases rs.len(),
{
    if rs.len() > 0 {
        let p = rs.drop_last();
        law_limitation_counts_the_run(p);
        if p.len() > 0 {
            assert(p.last() == rs[rs.len() - 2]);
        }
    }
}

proof fn lemma_trim_window(w: Seq<WindowEntry>, cutoff: u64)
    requires
        w.len() > 0,
    ensures
        trim_window(w, cutoff).len() > 0,
        trim_window(w, cutoff).last() == w.last(),
        exists|k: int| 0 <= k < w.len() && trim_window(w, cutoff) == #[trigger] w.subrange(k, w.len() as int),
        trim_window(w, cutoff).len() >= 2 ==> trim_window(w, cutoff)[1].at_nanos > cutoff,
    decreases w.len(),
{
    if w.len() >= 2 && w[1].at_nanos <= cutoff {
        lemma_trim_window(w.drop_first(), cutoff);
        let k = choose|k: int|
            0 <= k < w.drop_first().len() && trim_window(w.drop_first(), cutoff)
                == w.drop_first().subrange(k, w.drop_first().len() as int);
        assert(w.drop_first().subrange(k, w.drop_first().len() as int) =~= w.subrange(
            k + 1,
            w.len() as int,
        ));
    } else {
        assert(w.subrange(0, w.len() as int) =~= w);
    }
}

/// The quality window keeps the newest sample and drops only old ones from
/// its front: what is left is a tail of the samples, ends with the newest,
/// and its second entry, if any, is newer than the window's start.
pub proof fn law_window_keeps_newest(w: Seq<WindowEntry>, entry: WindowEntry, now: u64)
    ensures
        ({
            let t = trim_window(w.push(entry), window_cutoff(now));
            &&& t.len() > 0
            &&& t.last() == entry
            &&& exists|k: int| 0 <= k <= w.len() && t == #[trigger] w.push(entry).subrange(k, w.len() + 1int)
            &&& t.len() >= 2 ==> t[1].at_nanos > window_cutoff(now)
        }),
{
    lemma_trim_window(w.push(entry), window_cutoff(now));
}

/// The call's totals never go down: after any inbound sample each inbound
/// total is at least what it was, and so for the outbound ones.
pub proof fn law_totals_never_decrease(
    a: VideoHealthSummary,
    b: VideoHealthSummary,
    c: VideoHealthSummary,
    old_in: Option<InboundState>,
    s: InboundSample,
    old_out: Option<OutboundState>,
    o: OutboundSample,
    now: u64,
)
    requires
        inbound_totals_after(a, b, old_in, s, now),
        outbound_totals_after(a, c, old_out, o, now),
    ensures
        b.inbound_frames_received >= a.inbound_frames_received,
        b.inbound_frames_decoded >= a.inbound_frames_decoded,
        b.inbound_frames_dropped >= a.inbound_frames_dropped,
        b.inbound_freeze_millis >= a.inbound_freeze_millis,
        b.max_decoder_stall_seconds >= a.max_decoder_stall_seconds,
        c.outbound_source_frames >= a.outbound_source_frames,
        c.outbound_frames_encoded >= a.outbound_frames_encoded,
        c.outbound_quality_limited_millis >= a.outbound_quality_limited_millis,
        c.max_encoder_stall_seconds >= a.max_encoder_stall_seconds,
{
}

/// A stream raises no problem while it warms up: a sample that starts a
/// stream over, or comes less than the warm-up after the stream started,
/// raises no event.
pub proof fn law_no_events_during_warmup(
    old_in: Option<InboundState>,
    s: InboundSample,
    old_out: Option<OutboundState>,
    o: OutboundSample,
    now: u64,
)
    ensures
        (inbound_restarts(old_in, s) || !warmed_up(old_in.unwrap().started_at_nanos, now))
            ==> inbound_step_events(old_in, s, now).len() == 0,
        (outbound_restarts(old_out, o) || !warmed_up(old_out.unwrap().started_at_nanos, now))
            ==> outbound_step_events(old_out, o, now).len() == 0,
{
}

/// A run of inbound samples taken by `update_inbound` at `times`, with the
/// states it left before and after each: every sample continues the stream
/// (same id, counters not going back) past its warm-up.
pub open spec fn continuing_inbound_run(
    states: Seq<Option<InboundState>>,
    samples: Seq<InboundSample>,
    times: Seq<u64>,
) -> bool {
    &&& states.len() == samples.len() + 1
    &&& times.len() == samples.len()
    &&& forall|i: int|
        0 <= i < samples.len() ==> #[trigger] inbound_state_after(
            states[i],
            samples[i],
            times[i],
            states[i + 1],
        )
    &&& forall|i: int|
        0 <= i < samples.len() ==> !#[trigger] inbound_restarts(states[i], samples[i]) && warmed_up(
            states[i].unwrap().started_at_nanos,
            times[i],
        )
}

/// The frames that arrived and were decoded with each sample of a run.
pub open spec fn inbound_run_deltas(states: Seq<Option<InboundState>>, samples: Seq<InboundSample>) -> Seq<
    (u64, u64),
> {
    Seq::new(
        samples.len(),
        |i: int|
            (
                inbound_deltas(states[i].unwrap(), samples[i]).0,
                inbound_deltas(states[i].unwrap(), samples[i]).1,
            ),
    )
}

/// Whether some event of `es` reports `issue`.
pub open spec fn reports(es: Seq<HealthEvent>, issue: HealthIssue) -> bool {
    exists|k: int| 0 <= k < es.len() && (#[trigger] es[k]).issue() == issue
}

/// Over a run of continuing inbound samples, the stall counter is the one
/// `stall_after` computes from the run's deltas; from a reset counter it is
/// the number of stalled samples at the end of the run, capped at 255, and
/// the last sample of the run reports a decoder stall exactly when the last
/// three or more samples stalled.
pub proof fn law_inbound_run_counts_stalls(
    states: Seq<Option<InboundState>>,
    samples: Seq<InboundSample>,
    times: Seq<u64>,
)
    requires
        continuing_inbound_run(states, samples, times),
        states[0] is Some,
    ensures
        states.last() is Some,
        states.last().unwrap().stall_samples == stall_after(
            states[0].unwrap().stall_samples,
            inbound_run_deltas(states, samples),
        ),
        states[0].unwrap().stall_samples == 0 ==> states.last().unwrap().stall_samples == (if trailing_stalls(
            inbound_run_deltas(states, samples),
        ) > 255 {
            255
        } else {
            trailing_stalls(inbound_run_deltas(states, samples))
        }),
        samples.len() > 0 ==> (reports(
            inbound_step_events(
                states[samples.len() - 1],
                samples[samples.len() - 1],
                times[samples.len() - 1],
            ),
            HealthIssue::DecoderStalled,
        ) <==> states.last().unwrap().stall_samples >= STALL_SAMPLES),
    decreases samples.len(),
{
    let n = samples.len();
    if n == 0 {
        return;
    }
    let ps = states.drop_last();
    let pm = samples.drop_last();
    let pt = times.drop_last();
    assert(continuing_inbound_run(ps, pm, pt)) by {
        assert forall|i: int| 0 <= i < pm.len() implies #[trigger] inbound_state_after(
            ps[i],
            pm[i],
            pt[i],
            ps[i + 1],
        ) by {
            assert(inbound_state_after(states[i], samples[i], times[i], states[i + 1]));
        }
        assert forall|i: int| 0 <= i < pm.len() implies !#[trigger] inbound_restarts(ps[i], pm[i])
            && warmed_up(ps[i].unwrap().started_at_nanos, pt[i]) by {
            assert(!inbound_restarts(states[i], samples[i]));
        }
    }
    law_inbound_run_counts_stalls(ps, pm, pt);
    assert(inbound_run_deltas(states, samples).drop_last() =~= inbound_run_deltas(ps, pm));
    assert(inbound_state_after(states[n - 1], samples[n - 1], times[n - 1], states[n as int]));
    assert(!inbound_restarts(states[n - 1], samples[n - 1]));
    if states[0].unwrap().stall_samples == 0 {
        law_stall_counts_the_run(inbound_run_deltas(states, samples));
    }
    let o = states[n - 1].unwrap();
    let es = inbound_step_events(states[n - 1], samples[n - 1], times[n - 1]);
    let stall = next_inbound_stall(o, samples[n - 1]);
    let w = next_inbound_window(o, samples[n - 1], times[n - 1]);
    if stall >= STALL_SAMPLES {
        assert(es[0].issue() == HealthIssue::DecoderStalled);
    } else {
        if reports(es, HealthIssue::DecoderStalled) {
            let k = choose|k: int| 0 <= k < es.len() && (#[trigger] es[k]).issue() == HealthIssue::DecoderStalled;
            assert(window_degraded(w) && es[k].issue() == HealthIssue::DecoderQualityDegraded);
        }
    }
}

/// A run of outbound samples taken by `update_outbound` at `times`, with the
/// states it left before and after each: every sample continues the stream
/// past its warm-up.
pub open spec fn continuing_outbound_run(
    states: Seq<Option<OutboundState>>,
    samples: Seq<OutboundSample>,
    times: Seq<u64>,
) -> bool {
    &&& states.len() == samples.len() + 1
    &&& times.len() == samples.len()
    &&& forall|i: int|
        0 <= i < samples.len() ==> #[trigger] outbound_state_after(
            states[i],
            samples[i],
            times[i],
            states[i + 1],
        )
    &&& forall|i: int|
        0 <= i < samples.len() ==> !#[trigger] outbound_restarts(states[i], samples[i]) && warmed_up(
            states[i].unwrap().started_at_nanos,
            times[i],
        )
}

/// The limitation reasons of a run's samples, in order.
pub open spec fn run_reasons(samples: Seq<OutboundSample>) -> Seq<Seq<char>> {
    Seq::new(samples.len(), |i: int| samples[i].quality_reason@)
}

/// The frames captured and encoded with each sample of a run.
pub open spec fn outbound_run_deltas(states: Seq<Option<OutboundState>>, samples: Seq<OutboundSample>) -> Seq<
    (u64, u64),
> {
    Seq::new(
        samples.len(),
        |i: int|
            (
                outbound_deltas(states[i].unwrap(), samples[i]).0,
                outbound_deltas(states[i].unwrap(), samples[i]).1,
            ),
    )
}

/// Over a run of continuing outbound samples, the limitation counter and
/// reason are those `limit_after` computes from the run's reasons, and the
/// stall counter the one `stall_after` computes from its deltas; from reset
/// counters, the limitation counter is the length of the run of equal
/// limited reasons at the end (capped at 255) and reaches the threshold of a
/// report exactly when the last five or more samples were limited for one
/// reason.
pub proof fn law_outbound_run_counts(
    states: Seq<Option<OutboundState>>,
    samples: Seq<OutboundSample>,
    times: Seq<u64>,
)
    requires
        continuing_outbound_run(states, samples, times),
        states[0] is Some,
    ensures
        states.last() is Some,
        (states.last().unwrap().limitation_samples, states.last().unwrap().limitation_reason@)
            == limit_after(
            (states[0].unwrap().limitation_samples, states[0].unwrap().limitation_reason@),
            run_reasons(samples),
        ),
        states.last().unwrap().stall_samples == stall_after(
            states[0].unwrap().stall_samples,
            outbound_run_deltas(states, samples),
        ),
        states[0].unwrap().limitation_samples == 0 && states[0].unwrap().limitation_reason@
            == Seq::<char>::empty() ==> (states.last().unwrap().limitation_samples >= LIMIT_SAMPLES
            <==> (samples.len() > 0 && is_limited(samples.last().quality_reason@) && trailing_same(
            run_reasons(samples),
        ) >= LIMIT_SAMPLES)),
    decreases samples.len(),
{
    let n = samples.len();
    if n == 0 {
        return;
    }
    let ps = states.drop_last();
    let pm = samples.drop_last();
    let pt = times.drop_last();
    assert(continuing_outbound_run(ps, pm, pt)) by {
        assert forall|i: int| 0 <= i < pm.len() implies #[trigger] outbound_state_after(
            ps[i],
            pm[i],
            pt[i],
            ps[i + 1],
        ) by {
            assert(outbound_state_after(states[i], samples[i], times[i], states[i + 1]));
        }
        assert forall|i: int| 0 <= i < pm.len() implies !#[trigger] outbound_restarts(ps[i], pm[i])
            && warmed_up(ps[i].unwrap().started_at_nanos, pt[i]) by {
            assert(!outbound_restarts(states[i], samples[i]));
        }
    }
    law_outbound_run_counts(ps, pm, pt);
    assert(run_reasons(samples).drop_last() =~= run_reasons(pm));
    assert(outbound_run_deltas(states, samples).drop_last() =~= outbound_run_deltas(ps, pm));
    assert(outbound_state_after(states[n - 1], samples[n - 1], times[n - 1], states[n as int]));
    assert(!outbound_restarts(states[n - 1], samples[n - 1]));
    lemma_limit_step(states[n - 1].unwrap(), samples[n - 1]);
    if states[0].unwrap().limitation_samples == 0 && states[0].unwrap().limitation_reason@
        == Seq::<char>::empty() {
        law_limitation_counts_the_run(run_reasons(samples));
    }
}

/// `after` is `before` grown by `d`, stopping at the largest `u64`.
pub open spec fn grown_by(before: u64, d: int, after: u64) -> bool {
    &&& before + d <= u64::MAX ==> after == before + d
    &&& before + d > u64::MAX ==> after == u64::MAX
}

/// Over a continuing outbound stream (same id, frame counters not going
/// back), each total of the summary grows by exactly the growth of the
/// sample's cumulative counter, the quality-limited time by 0 where its
/// counter went back; a stream seen for the first time, or starting over,
/// adds its whole counters and marks the outbound side observed.
pub proof fn law_outbound_totals_follow_counters(
    a: VideoHealthSummary,
    b: VideoHealthSummary,
    old_state: Option<OutboundState>,
    s: OutboundSample,
    now: u64,
)
    requires
        outbound_totals_after(a, b, old_state, s, now),
    ensures
        old_state is Some && old_state.unwrap().previous.id@ == s.id@ && s.source_frames
            >= old_state.unwrap().previous.source_frames && s.frames_encoded >= old_state.unwrap().previous.frames_encoded ==> {
            &&& grown_by(a.outbound_source_frames, s.source_frames - old_state.unwrap().previous.source_frames, b.outbound_source_frames)
            &&& grown_by(a.outbound_frames_encoded, s.frames_encoded - old_state.unwrap().previous.frames_encoded, b.outbound_frames_encoded)
            &&& grown_by(
                a.outbound_quality_limited_millis,
                if s.quality_limited_millis >= old_state.unwrap().previous.quality_limited_millis {
                    s.quality_limited_millis - old_state.unwrap().previous.quality_limited_millis
                } else {
                    0
                },
                b.outbound_quality_limited_millis,
            )
            &&& b.outbound_observed == a.outbound_observed
        },
        !(old_state is Some && old_state.unwrap().previous.id@ == s.id@ && s.source_frames
            >= old_state.unwrap().previous.source_frames && s.frames_encoded >= old_state.unwrap().previous.frames_encoded) ==> {
            &&& grown_by(a.outbound_source_frames, s.source_frames as int, b.outbound_source_frames)
            &&& grown_by(a.outbound_frames_encoded, s.frames_encoded as int, b.outbound_frames_encoded)
            &&& grown_by(a.outbound_quality_limited_millis, s.quality_limited_millis as int, b.outbound_quality_limited_millis)
            &&& b.outbound_observed
        },
{
}

/// Over a continuing inbound stream (same id, frame counters not going
/// back), each total grows by exactly the growth of the sample's cumulative
/// counter, the freeze time by 0 where its counter went back; a stream seen
/// for the first time, or starting over, adds its whole counters and marks
/// the inbound side observed.
pub proof fn law_inbound_totals_follow_counters(
    a: VideoHealthSummary,
    b: VideoHealthSummary,
    old_state: Option<InboundState>,
    s: InboundSample,
    now: u64,
)
    requires
        inbound_totals_after(a, b, old_state, s, now),
    ensures
        old_state is Some && old_state.unwrap().previous.id@ == s.id@ && s.frames_received
            >= old_state.unwrap().previous.frames_received && s.frames_decoded >= old_state.unwrap().previous.frames_decoded
            && s.frames_dropped >= old_state.unwrap().previous.frames_dropped ==> {
            &&& grown_by(a.inbound_frames_received, s.frames_received - old_state.unwrap().previous.frames_received, b.inbound_frames_received)
            &&& grown_by(a.inbound_frames_decoded, s.frames_decoded - old_state.unwrap().previous.frames_decoded, b.inbound_frames_decoded)
            &&& grown_by(a.inbound_frames_dropped, s.frames_dropped - old_state.unwrap().previous.frames_dropped, b.inbound_frames_dropped)
            &&& grown_by(
                a.inbound_freeze_millis,
                if s.freeze_millis >= old_state.unwrap().previous.freeze_millis {
                    s.freeze_millis - old_state.unwrap().previous.freeze_millis
                } else {
                    0
                },
                b.inbound_freeze_millis,
            )
            &&& b.inbound_observed == a.inbound_observed
        },
        !(old_state is Some && old_state.unwrap().previous.id@ == s.id@ && s.frames_received
            >= old_state.unwrap().previous.frames_received && s.frames_decoded >= old_state.unwrap().previous.frames_decoded
            && s.frames_dropped >= old_state.unwrap().previous.frames_dropped) ==> {
            &&& grown_by(a.inbound_frames_received, s.frames_received as int, b.inbound_frames_received)
            &&& grown_by(a.inbound_frames_decoded, s.frames_decoded as int, b.inbound_frames_decoded)
            &&& grown_by(a.inbound_frames_dropped, s.frames_dropped as int, b.inbound_frames_dropped)
            &&& grown_by(a.inbound_freeze_millis, s.freeze_millis as int, b.inbound_freeze_millis)
            &&& b.inbound_observed
        },
{
}

/// From a summary with no quality-limited time, a stream that starts with one
/// sample and continues with a second whose counter did not go back ends
/// with exactly the second sample's quality-limited time: the cumulative
/// counter is counted once, not added again.
pub proof fn law_outbound_quality_time_counted_once(
    a0: VideoHealthSummary,
    a1: VideoHealthSummary,
    a2: VideoHealthSummary,
    st1: Option<OutboundState>,
    s1: OutboundSample,
    s2: OutboundSample,
    t1: u64,
    t2: u64,
)
    requires
        a0.outbound_quality_limited_millis == 0,
        outbound_totals_after(a0, a1, None, s1, t1),
        outbound_state_after(None, s1, t1, st1),
        outbound_totals_after(a1, a2, st1, s2, t2),
        s2.id@ == s1.id@,
        s2.source_frames >= s1.source_frames,
        s2.frames_encoded >= s1.frames_encoded,
        s2.quality_limited_millis >= s1.quality_limited_millis,
    ensures
        a1.outbound_quality_limited_millis == s1.quality_limited_millis,
        a2.outbound_quality_limited_millis == s2.quality_limited_millis,
{
    law_outbound_totals_follow_counters(a0, a1, None, s1, t1);
    law_outbound_totals_follow_counters(a1, a2, st1, s2, t2);
}

/// `b - a`, or 0 where `b` is below `a`.
pub open spec fn growth(a: u64, b: u64) -> int {
    if b >= a {
        b - a
    } else {
        0
    }
}

/// What one inbound sample does, in terms of the sample and the state
/// before it. A first sample, one of another stream, or one whose frame
/// counters went back starts the stream over at `now` and reports nothing.
/// Within ten seconds of the stream's start a sample reports nothing and
/// keeps the stall counter at 0. After that, the stall counter goes up by
/// one (stopping at 255) when frames arrived and none was decoded, and back
/// to 0 otherwise; a decoder stall is reported exactly when the counter is 3
/// or more, and degraded quality exactly when the window, which ends with
/// this sample, spans five seconds or more and either froze two seconds or
/// more, or decoded and dropped 30 frames or more of which at least a fifth
/// were dropped. Nothing else is ever reported.
pub proof fn law_inbound_sample_effects(
    old_state: Option<InboundState>,
    s: InboundSample,
    now: u64,
    new_state: Option<InboundState>,
)
    requires
        inbound_state_after(old_state, s, now, new_state),
    ensures
        new_state is Some,
        new_state.unwrap().previous == s,
        forall|k: int|
            0 <= k < inbound_step_events(old_state, s, now).len() ==> {
                let e = #[trigger] inbound_step_events(old_state, s, now)[k];
                e.issue() == HealthIssue::DecoderStalled || e.issue() == HealthIssue::DecoderQualityDegraded
            },
        old_state is None || old_state.unwrap().previous.id@ != s.id@ || s.frames_received
            < old_state.unwrap().previous.frames_received || s.frames_decoded
            < old_state.unwrap().previous.frames_decoded || s.frames_dropped
            < old_state.unwrap().previous.frames_dropped ==> {
            &&& new_state.unwrap().started_at_nanos == now
            &&& new_state.unwrap().stall_samples == 0
            &&& inbound_step_events(old_state, s, now).len() == 0
        },
        !inbound_restarts(old_state, s) && now < old_state.unwrap().started_at_nanos + 10_000_000_000 ==> {
            &&& new_state.unwrap().started_at_nanos == old_state.unwrap().started_at_nanos
            &&& new_state.unwrap().stall_samples == 0
            &&& inbound_step_events(old_state, s, now).len() == 0
        },
        !inbound_restarts(old_state, s) && now >= old_state.unwrap().started_at_nanos + 10_000_000_000 ==> {
            let o = old_state.unwrap();
            let n = new_state.unwrap();
            let w = n.window@;
            &&& n.started_at_nanos == o.started_at_nanos
            &&& n.stall_samples == (if s.frames_received > o.previous.frames_received
                && s.frames_decoded == o.previous.frames_decoded {
                if o.stall_samples == 255 {
                    255
                } else {
                    o.stall_samples + 1
                }
            } else {
                0
            })
            &&& w.len() > 0 && w.last().at_nanos == now && w.last().freeze_millis == s.freeze_millis
                && w.last().decoded == s.frames_decoded && w.last().dropped == s.frames_dropped
            &&& reports(inbound_step_events(old_state, s, now), HealthIssue::DecoderStalled) == (
            n.stall_samples >= 3)
            &&& reports(inbound_step_events(old_state, s, now), HealthIssue::DecoderQualityDegraded)
                == (w.last().at_nanos >= w[0].at_nanos + 5_000_000_000 && (growth(
                w[0].freeze_millis,
                w.last().freeze_millis,
            ) >= 2000 || (growth(w[0].decoded, w.last().decoded) + growth(w[0].dropped, w.last().dropped)
                >= 30 && 5 * growth(w[0].dropped, w.last().dropped) >= growth(
                w[0].decoded,
                w.last().decoded,
            ) + growth(w[0].dropped, w.last().dropped))))
        },
{
    let es = inbound_step_events(old_state, s, now);
    if !inbound_restarts(old_state, s) {
        let o = old_state.unwrap();
        if warmed_up(o.started_at_nanos, now) {
            let stall = next_inbound_stall(o, s);
            let w = next_inbound_window(o, s, now);
            lemma_trim_window(o.window@.push(entry_of(s, now)), window_cutoff(now));
            let a = if stall >= STALL_SAMPLES {
                seq![HealthEvent::Inbound {
                    issue: HealthIssue::DecoderStalled,
                    codec: s.codec,
                    decoder: s.decoder,
                    received: inbound_deltas(o, s).0,
                    decoded: inbound_deltas(o, s).1,
                    dropped: inbound_deltas(o, s).2,
                    freeze_millis: inbound_deltas(o, s).3,
                }]
            } else {
                Seq::empty()
            };
            assert(es == a + (if window_degraded(w) {
                seq![HealthEvent::Inbound {
                    issue: HealthIssue::DecoderQualityDegraded,
                    codec: s.codec,
                    decoder: s.decoder,
                    received: window_deltas(w).0,
                    decoded: window_deltas(w).1,
                    dropped: window_deltas(w).2,
                    freeze_millis: window_deltas(w).3,
                }]
            } else {
                Seq::empty()
            }));
            if stall >= STALL_SAMPLES {
                assert(es[0].issue() == HealthIssue::DecoderStalled);
            }
            if window_degraded(w) {
                assert(es[es.len() - 1].issue() == HealthIssue::DecoderQualityDegraded);
            }
            if reports(es, HealthIssue::DecoderStalled) {
                let k = choose|k: int| 0 <= k < es.len() && (#[trigger] es[k]).issue() == HealthIssue::DecoderStalled;
                assert(stall >= STALL_SAMPLES);
            }
            if reports(es, HealthIssue::DecoderQualityDegraded) {
                let k = choose|k: int| 0 <= k < es.len() && (#[trigger] es[k]).issue() == HealthIssue::DecoderQualityDegraded;
                assert(window_degraded(w));
            }
        }
    }
}

/// What one outbound sample does, in terms of the sample and the state
/// before it. A first sample, one of another stream, or one whose frame
/// counters went back starts the stream over at `now` and reports nothing.
/// Within ten seconds of the stream's start a sample reports nothing and
/// keeps its counters at 0. After that, the stall counter goes up by one
/// (stopping at 255) when frames were captured and none was encoded, and
/// back to 0 otherwise; the limitation counter goes back to 0 with the
/// reason `none`, goes up by one (stopping at 255) while the reason stays the
/// same, and starts at 1 with a new reason. An encoder stall is reported
/// exactly when the stall counter is 3 or more, and a quality limitation
/// exactly when the limitation counter is 5 or more. Nothing else is ever
/// reported.
pub proof fn law_outbound_sample_effects(
    old_state: Option<OutboundState>,
    s: OutboundSample,
    now: u64,
    new_state: Option<OutboundState>,
)
    requires
        outbound_state_after(old_state, s, now, new_state),
    ensures
        new_state is Some,
        new_state.unwrap().previous == s,
        forall|k: int|
            0 <= k < outbound_step_events(old_state, s, now).len() ==> {
                let e = #[trigger] outbound_step_events(old_state, s, now)[k];
                e.issue() == HealthIssue::EncoderStalled || e.issue() == HealthIssue::EncoderQualityLimited
            },
        old_state is None || old_state.unwrap().previous.id@ != s.id@ || s.source_frames
            < old_state.unwrap().previous.source_frames || s.frames_encoded
            < old_state.unwrap().previous.frames_encoded ==> {
            &&& new_state.unwrap().started_at_nanos == now
            &&& new_state.unwrap().stall_samples == 0
            &&& new_state.unwrap().limitation_samples == 0
            &&& outbound_step_events(old_state, s, now).len() == 0
        },
        !outbound_restarts(old_state, s) && now < old_state.unwrap().started_at_nanos + 10_000_000_000 ==> {
            &&& new_state.unwrap().started_at_nanos == old_state.unwrap().started_at_nanos
            &&& new_state.unwrap().stall_samples == 0
            &&& new_state.unwrap().limitation_samples == 0
            &&& outbound_step_events(old_state, s, now).len() == 0
        },
        !outbound_restarts(old_state, s) && now >= old_state.unwrap().started_at_nanos + 10_000_000_000 ==> {
            let o = old_state.unwrap();
            let n = new_state.unwrap();
            &&& n.started_at_nanos == o.started_at_nanos
            &&& n.stall_samples == (if s.source_frames > o.previous.source_frames && s.frames_encoded
                == o.previous.frames_encoded {
                if o.stall_samples == 255 {
                    255
                } else {
                    o.stall_samples + 1
                }
            } else {
                0
            })
            &&& s.quality_reason@ == "none"@ ==> n.limitation_samples == 0
            &&& s.quality_reason@ != "none"@ && s.quality_reason@ == o.limitation_reason@
                ==> n.limitation_samples == (if o.limitation_samples == 255 {
                255
            } else {
                o.limitation_samples + 1
            }) && n.limitation_reason@ == s.quality_reason@
            &&& s.quality_reason@ != "none"@ && s.quality_reason@ != o.limitation_reason@
                ==> n.limitation_samples == 1 && n.limitation_reason@ == s.quality_reason@
            &&& reports(outbound_step_events(old_state, s, now), HealthIssue::EncoderStalled) == (
            n.stall_samples >= 3)
            &&& reports(outbound_step_events(old_state, s, now), HealthIssue::EncoderQualityLimited)
                == (n.limitation_samples >= 5)
        },
{
    let es = outbound_step_events(old_state, s, now);
    if !outbound_restarts(old_state, s) {
        let o = old_state.unwrap();
        if warmed_up(o.started_at_nanos, now) {
            let stall = next_outbound_stall(o, s);
            let lim = next_limitation(o, s).0;
            if stall >= STALL_SAMPLES {
                assert(es[0].issue() == HealthIssue::EncoderStalled);
            }
            if lim >= LIMIT_SAMPLES {
                assert(es[es.len() - 1].issue() == HealthIssue::EncoderQualityLimited);
            }
            if reports(es, HealthIssue::EncoderStalled) {
                let k = choose|k: int| 0 <= k < es.len() && (#[trigger] es[k]).issue() == HealthIssue::EncoderStalled;
                assert(stall >= STALL_SAMPLES);
            }
            if reports(es, HealthIssue::EncoderQualityLimited) {
                let k = choose|k: int| 0 <= k < es.len() && (#[trigger] es[k]).issue() == HealthIssue::EncoderQualityLimited;
                assert(lim >= LIMIT_SAMPLES);
            }
        }
    }
}

/// The labels a sample adds to the call's summary: an outbound sample adds
/// its codec and encoder, each unless empty, and its limitation reason
/// unless it is `none`; an inbound sample adds its codec and decoder, each
/// unless empty, only when its stream starts (or starts over). No label is
/// ever removed.
pub proof fn law_labels_collected(
    a: VideoHealthSummary,
    b: VideoHealthSummary,
    os: OutboundSample,
    ins: InboundSample,
    old_in: Option<InboundState>,
    c: VideoHealthSummary,
)
    requires
        outbound_labels_recorded(a, b, os),
        inbound_labels_recorded(a, c, old_in, ins),
    ensures
        forall|l: Seq<char>| #[trigger] b.codecs@.contains(l) == (a.codecs@.contains(l) || (l == os.codec@ && l.len() > 0)),
        forall|l: Seq<char>|
            #[trigger] b.implementations@.contains(l) == (a.implementations@.contains(l) || (l == os.encoder@
                && l.len() > 0)),
        forall|l: Seq<char>|
            #[trigger] b.quality_limitation_reasons@.contains(l) == (a.quality_limitation_reasons@.contains(l) || (l
                == os.quality_reason@ && l != "none"@)),
        forall|l: Seq<char>|
            #[trigger] c.codecs@.contains(l) == (a.codecs@.contains(l) || (l == ins.codec@ && l.len() > 0
                && inbound_restarts(old_in, ins))),
        forall|l: Seq<char>|
            #[trigger] c.implementations@.contains(l) == (a.implementations@.contains(l) || (l == ins.decoder@
                && l.len() > 0 && inbound_restarts(old_in, ins))),
        (old_in is None || old_in.unwrap().previous.id@ != ins.id@) ==> inbound_restarts(old_in, ins),
{
}

} // verus!
