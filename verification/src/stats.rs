//! Codec labels of the WebRTC statistics shown in the stats window and
//! attached to video health reports.

use crate::health::{sat_add, InboundSample, OutboundSample};
use crate::text::{chars_eq, chars_of, is_whitespace, spec_is_whitespace, split_chars, split_parts, string_from_chars};
use vstd::prelude::*;

verus! {

/// `s` without leading whitespace.
pub open spec fn trim_start(s: Seq<char>) -> Seq<char>
    decreases s.len(),
{
    if s.len() > 0 && spec_is_whitespace(s[0]) {
        trim_start(s.drop_first())
    } else {
        s
    }
}

/// `s` without trailing whitespace.
pub open spec fn trim_end(s: Seq<char>) -> Seq<char>
    decreases s.len(),
{
    if s.len() > 0 && spec_is_whitespace(s.last()) {
        trim_end(s.drop_last())
    } else {
        s
    }
}

/// `s` without leading and trailing whitespace, as `str::trim` gives it.
pub open spec fn trim(s: Seq<char>) -> Seq<char> {
    trim_end(trim_start(s))
}

/// `c` with ASCII `a`..`z` upper-cased.
pub open spec fn ascii_upper(c: char) -> char {
    if 'a' <= c <= 'z' {
        ((c as u32) - 32) as char
    } else {
        c
    }
}

/// The codec name of a MIME type: the part before the first `;`, trimmed;
/// of that, the part after the last `/`, trimmed; ASCII upper-cased.
/// For example `video/vp8; profile=0` gives `VP8`.
pub open spec fn spec_codec_label(mime: Seq<char>) -> Seq<char> {
    let base = trim(split_parts(mime, ';')[0]);
    let last = trim(split_parts(base, '/').last());
    last.map_values(|c: char| ascii_upper(c))
}

proof fn lemma_trim_start_step(s: Seq<char>, i: int)
    requires
        0 <= i <= s.len(),
        forall|k: int| 0 <= k < i ==> spec_is_whitespace(s[k]),
    ensures
        trim_start(s) == trim_start(s.subrange(i, s.len() as int)),
    decreases i,
{
    if i > 0 {
        assert(s.drop_first().subrange(i - 1, s.drop_first().len() as int) =~= s.subrange(
            i,
            s.len() as int,
        ));
        lemma_trim_start_step(s.drop_first(), i - 1);
    } else {
        assert(s.subrange(0, s.len() as int) =~= s);
    }
}

proof fn lemma_trim_end_step(s: Seq<char>, j: int)
    requires
        0 <= j <= s.len(),
        forall|k: int| j <= k < s.len() ==> spec_is_whitespace(s[k]),
    ensures
        trim_end(s) == trim_end(s.subrange(0, j)),
    decreases s.len() - j,
{
    if j < s.len() {
        assert(s.drop_last().subrange(0, j) =~= s.subrange(0, j));
        lemma_trim_end_step(s.drop_last(), j);
    } else {
        assert(s.subrange(0, j) =~= s);
    }
}

/// `s` without leading and trailing whitespace.
pub fn trim_chars(s: &[char]) -> (r: Vec<char>)
    ensures
        r@ == trim(s@),
{
    let n = s.len();
    let mut i: usize = 0;
    while i < n && is_whitespace(s[i])
        invariant
            n == s@.len(),
            i <= n,
            forall|k: int| 0 <= k < i ==> spec_is_whitespace(s@[k]),
        decreases n - i,
    {
        i += 1;
    }
    proof {
        lemma_trim_start_step(s@, i as int);
    }
    let ghost t = s@.subrange(i as int, n as int);
    assert(i == n || !spec_is_whitespace(t[0]));
    let mut j: usize = n;
    while j > i && is_whitespace(s[j - 1])
        invariant
            n == s@.len(),
            i <= j <= n,
            t == s@.subrange(i as int, n as int),
            forall|k: int| j <= k < n ==> spec_is_whitespace(s@[k]),
        decreases j,
    {
        j -= 1;
    }
    proof {
        if i < n {
            assert(trim_start(t) == t);
        } else {
            assert(t.len() == 0);
        }
        lemma_trim_end_step(t, j - i);
        assert(t.subrange(0, j - i) =~= s@.subrange(i as int, j as int));
        if j > i {
            assert(!spec_is_whitespace(s@[j - 1]));
        }
    }
    let mut out: Vec<char> = Vec::new();
    let mut k: usize = i;
    while k < j
        invariant
            i <= k <= j <= n,
            n == s@.len(),
            out@ == s@.subrange(i as int, k as int),
        decreases j - k,
    {
        out.push(s[k]);
        k += 1;
        assert(out@ =~= s@.subrange(i as int, k as int));
    }
    out
}

/// The codec name of a MIME type (see `spec_codec_label`).
pub fn codec_label(mime: &str) -> (r: String)
    ensures
        r@ == spec_codec_label(mime@),
{
    let chars = chars_of(mime);
    let parts = split_chars(chars.as_slice(), ';');
    proof {
        crate::text::lemma_split_parts_nonempty(chars@, ';');
    }
    let base = trim_chars(parts[0].as_slice());
    let pieces = split_chars(base.as_slice(), '/');
    proof {
        crate::text::lemma_split_parts_nonempty(base@, '/');
    }
    let last_piece = pieces.len() - 1;
    let last = trim_chars(pieces[last_piece].as_slice());
    let mut upper: Vec<char> = Vec::new();
    let mut i: usize = 0;
    while i < last.len()
        invariant
            i <= last@.len(),
            upper@ == last@.take(i as int).map_values(|c: char| ascii_upper(c)),
        decreases last@.len() - i,
    {
        let c = last[i];
        let u = if 'a' <= c && c <= 'z' {
            ((c as u8) - 32) as char
        } else {
            c
        };
        upper.push(u);
        i += 1;
        assert(upper@ =~= last@.take(i as int).map_values(|c: char| ascii_upper(c)));
    }
    assert(last@.take(last@.len() as int) =~= last@);
    string_from_chars(upper.as_slice())
}

/// One WebRTC statistics record, as far as the monitoring reads it.
#[derive(Debug)]
pub enum RtcStatEntry {
    /// A codec record: its id and MIME type.
    Codec { id: String, mime_type: String },
    /// A media source: its id, kind (`video`, `audio`) and frames captured.
    MediaSource { id: String, kind: String, frames: u64 },
    /// A sent RTP stream.
    OutboundRtp {
        id: String,
        kind: String,
        codec_id: String,
        bytes_sent: u64,
        active: bool,
        media_source_id: String,
        encoder_implementation: String,
        frames_encoded: u64,
        /// Why the encoder limits quality, lower case (`none`, `cpu`, ...).
        quality_limitation_reason: String,
        /// Time spent limited for any reason, in milliseconds.
        quality_limited_millis: u64,
    },
    /// A received RTP stream.
    InboundRtp {
        id: String,
        kind: String,
        codec_id: String,
        bytes_received: u64,
        jitter_buffer_emitted_count: u64,
        decoder_implementation: String,
        frames_received: u64,
        frames_decoded: u64,
        frames_dropped: u64,
        /// Total time frozen, in milliseconds.
        freeze_millis: u64,
    },
    /// Any other record.
    Other,
}

/// A codec id and its label.
#[derive(Debug)]
pub struct CodecLabel {
    pub id: String,
    pub label: String,
}

/// The codec records of `stats` in order, each with its label.
pub open spec fn spec_codec_map(stats: Seq<RtcStatEntry>) -> Seq<(Seq<char>, Seq<char>)>
    decreases stats.len(),
{
    if stats.len() == 0 {
        Seq::empty()
    } else {
        let rest = spec_codec_map(stats.drop_last());
        match stats.last() {
            RtcStatEntry::Codec { id, mime_type } => rest.push((id@, spec_codec_label(mime_type@))),
            _ => rest,
        }
    }
}

/// Labels every codec record of a statistics report.
pub fn codec_map(stats: &[RtcStatEntry]) -> (r: Vec<CodecLabel>)
    ensures
        r@.len() == spec_codec_map(stats@).len(),
        forall|k: int|
            0 <= k < r@.len() ==> ((#[trigger] r@[k]).id@, r@[k].label@) == spec_codec_map(
                stats@,
            )[k],
{
    let mut out: Vec<CodecLabel> = Vec::new();
    let mut i: usize = 0;
    while i < stats.len()
        invariant
            i <= stats@.len(),
            out@.len() == spec_codec_map(stats@.take(i as int)).len(),
            forall|k: int|
                0 <= k < out@.len() ==> ((#[trigger] out@[k]).id@, out@[k].label@)
                    == spec_codec_map(stats@.take(i as int))[k],
        decreases stats@.len() - i,
    {
        proof {
            assert(stats@.take(i + 1).drop_last() =~= stats@.take(i as int));
        }
        match &stats[i] {
            RtcStatEntry::Codec { id, mime_type } => {
                out.push(CodecLabel { id: id.clone(), label: codec_label(mime_type.as_str()) });
            },
            _ => {},
        }
        i += 1;
    }
    assert(stats@.take(stats@.len() as int) =~= stats@);
    out
}

/// The label of the last entry for `id`, as a map collected from the
/// entries keeps it.
pub open spec fn spec_lookup(entries: Seq<(Seq<char>, Seq<char>)>, id: Seq<char>) -> Option<
    Seq<char>,
>
    decreases entries.len(),
{
    if entries.len() == 0 {
        None
    } else if entries.last().0 == id {
        Some(entries.last().1)
    } else {
        spec_lookup(entries.drop_last(), id)
    }
}

/// The codec name reported for a stream: the label of its codec id, or the
/// id itself when no codec record has it.
pub fn resolve_codec(codecs: &[CodecLabel], codec_id: &str) -> (r: String)
    ensures
        r@ == (match spec_lookup(codecs@.map_values(|c: CodecLabel| (c.id@, c.label@)), codec_id@) {
            Some(label) => label,
            None => codec_id@,
        }),
{
    let ghost entries = codecs@.map_values(|c: CodecLabel| (c.id@, c.label@));
    let wanted = chars_of(codec_id);
    let mut i: usize = codecs.len();
    assert(entries.take(i as int) =~= entries);
    while i > 0
        invariant
            i <= codecs@.len(),
            entries == codecs@.map_values(|c: CodecLabel| (c.id@, c.label@)),
            wanted@ == codec_id@,
            spec_lookup(entries, codec_id@) == spec_lookup(entries.take(i as int), codec_id@),
        decreases i,
    {
        let id = chars_of(codecs[i - 1].id.as_str());
        proof {
            assert(entries.take(i as int).drop_last() =~= entries.take(i - 1));
            assert(entries.take(i as int).last() == entries[i - 1]);
        }
        if chars_eq(id.as_slice(), wanted.as_slice()) {
            return codecs[i - 1].label.clone();
        }
        i -= 1;
    }
    String::from_str(codec_id)
}

/// The codec name reported for a codec id of a statistics report: the label
/// of the last codec record with that id, or the id itself.
pub open spec fn spec_resolved_codec(stats: Seq<RtcStatEntry>, codec_id: Seq<char>) -> Seq<char> {
    match spec_lookup(spec_codec_map(stats), codec_id) {
        Some(label) => label,
        None => codec_id,
    }
}

/// The frames of the last video media source with id `id`; 0 when there is
/// none.
pub open spec fn spec_source_frames(stats: Seq<RtcStatEntry>, id: Seq<char>) -> u64
    decreases stats.len(),
{
    if stats.len() == 0 {
        0
    } else {
        match stats.last() {
            RtcStatEntry::MediaSource { id: i, kind: k, frames: f } => if i@ == id && k@ == "video"@ {
                f
            } else {
                spec_source_frames(stats.drop_last(), id)
            },
            _ => spec_source_frames(stats.drop_last(), id),
        }
    }
}

/// Whether a record is the sent stream the monitor samples: an active video
/// stream of a monitored publication.
pub open spec fn outbound_eligible(e: RtcStatEntry, monitored: bool) -> bool {
    match e {
        RtcStatEntry::OutboundRtp { kind, active, .. } => monitored && kind@ == "video"@ && active,
        _ => false,
    }
}

/// Whether a record is the received stream the monitor samples: a video
/// stream of a monitored publication.
pub open spec fn inbound_eligible(e: RtcStatEntry, monitored: bool) -> bool {
    match e {
        RtcStatEntry::InboundRtp { kind, .. } => monitored && kind@ == "video"@,
        _ => false,
    }
}

/// The index of the first record of `stats` that `eligible` picks, or the
/// length when none does.
pub open spec fn first_picked(stats: Seq<RtcStatEntry>, monitored: bool, inbound: bool) -> int
    decreases stats.len(),
{
    if stats.len() == 0 {
        0
    } else {
        let before = first_picked(stats.drop_last(), monitored, inbound);
        if before < stats.len() - 1 {
            before
        } else if (if inbound {
            inbound_eligible(stats.last(), monitored)
        } else {
            outbound_eligible(stats.last(), monitored)
        }) {
            stats.len() - 1
        } else {
            stats.len() as int
        }
    }
}

/// The bytes sent by the sent streams among `stats`, added up (saturating).
pub open spec fn sent_bytes(stats: Seq<RtcStatEntry>) -> u64
    decreases stats.len(),
{
    if stats.len() == 0 {
        0
    } else {
        match stats.last() {
            RtcStatEntry::OutboundRtp { bytes_sent, .. } => sat_add(
                sent_bytes(stats.drop_last()),
                bytes_sent,
            ),
            _ => sent_bytes(stats.drop_last()),
        }
    }
}

/// The bytes received by the received video streams among `stats`, added up
/// (saturating).
pub open spec fn received_video_bytes(stats: Seq<RtcStatEntry>) -> u64
    decreases stats.len(),
{
    if stats.len() == 0 {
        0
    } else {
        match stats.last() {
            RtcStatEntry::InboundRtp { kind, bytes_received, .. } => if kind@ == "video"@ {
                sat_add(received_video_bytes(stats.drop_last()), bytes_received)
            } else {
                received_video_bytes(stats.drop_last())
            },
            _ => received_video_bytes(stats.drop_last()),
        }
    }
}

/// The records up to and including the picked one (all when none is).
pub open spec fn scanned(stats: Seq<RtcStatEntry>, picked: int) -> Seq<RtcStatEntry> {
    if picked < stats.len() {
        stats.take(picked + 1)
    } else {
        stats
    }
}

/// The sample the monitor takes of a sent stream record.
pub open spec fn outbound_sample_of(smp: OutboundSample, e: RtcStatEntry, stats: Seq<RtcStatEntry>) -> bool {
    match e {
        RtcStatEntry::OutboundRtp {
            id,
            codec_id,
            media_source_id,
            encoder_implementation,
            frames_encoded,
            quality_limitation_reason,
            quality_limited_millis,
            ..
        } => {
            &&& smp.id@ == id@
            &&& smp.codec@ == spec_resolved_codec(stats, codec_id@)
            &&& smp.encoder@ == encoder_implementation@
            &&& smp.source_frames == spec_source_frames(stats, media_source_id@)
            &&& smp.frames_encoded == frames_encoded
            &&& smp.quality_reason@ == quality_limitation_reason@
            &&& smp.quality_limited_millis == quality_limited_millis
        },
        _ => false,
    }
}

/// The sample the monitor takes of a received stream record.
pub open spec fn inbound_sample_of(smp: InboundSample, e: RtcStatEntry, stats: Seq<RtcStatEntry>) -> bool {
    match e {
        RtcStatEntry::InboundRtp {
            id,
            codec_id,
            decoder_implementation,
            frames_received,
            frames_decoded,
            frames_dropped,
            freeze_millis,
            ..
        } => {
            &&& smp.id@ == id@
            &&& smp.codec@ == spec_resolved_codec(stats, codec_id@)
            &&& smp.decoder@ == decoder_implementation@
            &&& smp.frames_received == frames_received
            &&& smp.frames_decoded == frames_decoded
            &&& smp.frames_dropped == frames_dropped
            &&& smp.freeze_millis == freeze_millis
        },
        _ => false,
    }
}

/// What the statistics of one sent track contribute.
#[derive(Debug)]
pub struct OutboundTrackStats {
    pub bytes_sent: u64,
    pub sample: Option<OutboundSample>,
}

/// What the statistics of one received track contribute.
#[derive(Debug)]
pub struct InboundTrackStats {
    /// Bytes of the received video streams.
    pub bytes_received: u64,
    /// Index of the sampled record among the statistics.
    pub sample_index: Option<usize>,
    pub sample: Option<InboundSample>,
}

/// The bytes sent by all the sent streams of a report.
pub fn total_bytes_sent(stats: &[RtcStatEntry]) -> (r: u64)
    ensures
        r == sent_bytes(stats@),
{
    let mut total: u64 = 0;
    let mut i: usize = 0;
    while i < stats.len()
        invariant
            i <= stats@.len(),
            total == sent_bytes(stats@.take(i as int)),
        decreases stats@.len() - i,
    {
        proof {
            assert(stats@.take(i + 1).drop_last() =~= stats@.take(i as int));
        }
        if let RtcStatEntry::OutboundRtp { bytes_sent, .. } = &stats[i] {
            total = total.saturating_add(*bytes_sent);
        }
        i += 1;
    }
    assert(stats@.take(stats@.len() as int) =~= stats@);
    total
}

proof fn lemma_first_picked_step(stats: Seq<RtcStatEntry>, monitored: bool, inbound: bool, i: int)
    requires
        0 <= i < stats.len(),
        first_picked(stats.take(i), monitored, inbound) == i,
    ensures
        first_picked(stats.take(i + 1), monitored, inbound) == (if (if inbound {
            inbound_eligible(stats[i], monitored)
        } else {
            outbound_eligible(stats[i], monitored)
        }) {
            i
        } else {
            i + 1
        }),
{
    assert(stats.take(i + 1).drop_last() =~= stats.take(i));
}

proof fn lemma_first_picked_found(stats: Seq<RtcStatEntry>, monitored: bool, inbound: bool, i: int)
    requires
        0 <= i < stats.len(),
        first_picked(stats.take(i + 1), monitored, inbound) == i,
    ensures
        first_picked(stats, monitored, inbound) == i,
    decreases stats.len(),
{
    if stats.len() == i + 1 {
        assert(stats.take(i + 1) =~= stats);
    } else {
        assert(stats.drop_last().take(i + 1) =~= stats.take(i + 1));
        lemma_first_picked_found(stats.drop_last(), monitored, inbound, i);
    }
}

/// The sent bytes of one local video track's report, and the sample of its
/// sent stream when the track is a monitored screen share: the first active
/// video stream. The bytes are counted up to that stream.
pub fn outbound_track_stats(stats: &[RtcStatEntry], monitored: bool) -> (r: OutboundTrackStats)
    ensures
        ({
            let n = first_picked(stats@, monitored, false);
            &&& r.bytes_sent == sent_bytes(scanned(stats@, n))
            &&& if n < stats@.len() {
                r.sample matches Some(smp) && outbound_sample_of(smp, stats@[n], stats@)
            } else {
                r.sample is None
            }
        }),
{
    let codecs = codec_map(stats);
    proof {
        assert(codecs@.map_values(|c: CodecLabel| (c.id@, c.label@)) =~= spec_codec_map(stats@));
    }
    let mut total: u64 = 0;
    let mut i: usize = 0;
    while i < stats.len()
        invariant
            i <= stats@.len(),
            first_picked(stats@.take(i as int), monitored, false) == i,
            total == sent_bytes(stats@.take(i as int)),
            codecs@.map_values(|c: CodecLabel| (c.id@, c.label@)) == spec_codec_map(stats@),
        decreases stats@.len() - i,
    {
        proof {
            assert(stats@.take(i + 1).drop_last() =~= stats@.take(i as int));
            lemma_first_picked_step(stats@, monitored, false, i as int);
        }
        if let RtcStatEntry::OutboundRtp {
            id,
            kind,
            codec_id,
            bytes_sent,
            active,
            media_source_id,
            encoder_implementation,
            frames_encoded,
            quality_limitation_reason,
            quality_limited_millis,
        } = &stats[i] {
            total = total.saturating_add(*bytes_sent);
            let video = chars_eq(chars_of(kind.as_str()).as_slice(), chars_of("video").as_slice());
            if monitored && video && *active {
                let sample = OutboundSample {
                    id: id.clone(),
                    codec: resolve_codec(codecs.as_slice(), codec_id.as_str()),
                    encoder: encoder_implementation.clone(),
                    source_frames: source_frames(stats, media_source_id.as_str()),
                    frames_encoded: *frames_encoded,
                    quality_reason: quality_limitation_reason.clone(),
                    quality_limited_millis: *quality_limited_millis,
                };
                proof {
                    lemma_first_picked_found(stats@, monitored, false, i as int);
                }
                return OutboundTrackStats { bytes_sent: total, sample: Some(sample) };
            }
        }
        i += 1;
    }
    assert(stats@.take(stats@.len() as int) =~= stats@);
    OutboundTrackStats { bytes_sent: total, sample: None }
}

/// The frames of the last video media source with id `id`; 0 when there is
/// none.
pub fn source_frames(stats: &[RtcStatEntry], id: &str) -> (r: u64)
    ensures
        r == spec_source_frames(stats@, id@),
{
    let wanted = chars_of(id);
    let video = chars_of("video");
    let mut i: usize = stats.len();
    assert(stats@.take(i as int) =~= stats@);
    while i > 0
        invariant
            i <= stats@.len(),
            wanted@ == id@,
            video@ == "video"@,
            spec_source_frames(stats@, id@) == spec_source_frames(stats@.take(i as int), id@),
        decreases i,
    {
        proof {
            assert(stats@.take(i as int).drop_last() =~= stats@.take(i - 1));
        }
        if let RtcStatEntry::MediaSource { id: source_id, kind, frames } = &stats[i - 1] {
            if chars_eq(chars_of(source_id.as_str()).as_slice(), wanted.as_slice()) && chars_eq(
                chars_of(kind.as_str()).as_slice(),
                video.as_slice(),
            ) {
                return *frames;
            }
        }
        i -= 1;
    }
    0
}

/// The received video bytes of one remote video track's report, and the
/// sample of its received stream when the track is a monitored screen share:
/// the first video stream. The bytes are counted up to that stream.
pub fn inbound_track_stats(stats: &[RtcStatEntry], monitored: bool) -> (r: InboundTrackStats)
    ensures
        ({
            let n = first_picked(stats@, monitored, true);
            &&& r.bytes_received == received_video_bytes(scanned(stats@, n))
            &&& if n < stats@.len() {
                &&& r.sample_index == Some(n as usize)
                &&& r.sample matches Some(smp) && inbound_sample_of(smp, stats@[n], stats@)
            } else {
                &&& r.sample_index is None
                &&& r.sample is None
            }
        }),
{
    let codecs = codec_map(stats);
    proof {
        assert(codecs@.map_values(|c: CodecLabel| (c.id@, c.label@)) =~= spec_codec_map(stats@));
    }
    let video = chars_of("video");
    let mut total: u64 = 0;
    let mut i: usize = 0;
    while i < stats.len()
        invariant
            i <= stats@.len(),
            video@ == "video"@,
            first_picked(stats@.take(i as int), monitored, true) == i,
            total == received_video_bytes(stats@.take(i as int)),
            codecs@.map_values(|c: CodecLabel| (c.id@, c.label@)) == spec_codec_map(stats@),
        decreases stats@.len() - i,
    {
        proof {
            assert(stats@.take(i + 1).drop_last() =~= stats@.take(i as int));
            lemma_first_picked_step(stats@, monitored, true, i as int);
        }
        if let RtcStatEntry::InboundRtp {
            id,
            kind,
            codec_id,
            bytes_received,
            decoder_implementation,
            frames_received,
            frames_decoded,
            frames_dropped,
            freeze_millis,
            ..
        } = &stats[i] {
            if chars_eq(chars_of(kind.as_str()).as_slice(), video.as_slice()) {
                total = total.saturating_add(*bytes_received);
                if monitored {
                    let sample = InboundSample {
                        id: id.clone(),
                        codec: resolve_codec(codecs.as_slice(), codec_id.as_str()),
                        decoder: decoder_implementation.clone(),
                        frames_received: *frames_received,
                        frames_decoded: *frames_decoded,
                        frames_dropped: *frames_dropped,
                        freeze_millis: *freeze_millis,
                    };
                    proof {
                        lemma_first_picked_found(stats@, monitored, true, i as int);
                    }
                    return InboundTrackStats {
                        bytes_received: total,
                        sample_index: Some(i),
                        sample: Some(sample),
                    };
                }
            }
        }
        i += 1;
    }
    assert(stats@.take(stats@.len() as int) =~= stats@);
    InboundTrackStats { bytes_received: total, sample_index: None, sample: None }
}

/// The bit rate over one second from two byte counters, once there is a
/// previous reading: eight times the growth (none where the counter went
/// back).
pub fn bits_per_second(previous: u64, current: u64) -> (r: Option<u128>)
    ensures
        r == (if previous > 0 {
            Some((8 * (if current >= previous {
                current - previous
            } else {
                0
            })) as u128)
        } else {
            None
        }),
{
    if previous > 0 {
        let delta = current.saturating_sub(previous);
        Some(8 * (delta as u128))
    } else {
        None
    }
}

/// Whether `e` is a video media source with id `id`.
pub open spec fn is_video_source(e: RtcStatEntry, id: Seq<char>) -> bool {
    e matches RtcStatEntry::MediaSource { id: i, kind: k, .. } && i@ == id && k@ == "video"@
}

/// The frames of a media source come from the last video media source with
/// that id in the report, and are 0 when the report has none.
pub proof fn law_source_frames_from_last_match(stats: Seq<RtcStatEntry>, id: Seq<char>)
    ensures
        (forall|k: int| 0 <= k < stats.len() ==> !is_video_source(#[trigger] stats[k], id))
            ==> spec_source_frames(stats, id) == 0,
        forall|k: int|
            0 <= k < stats.len() && is_video_source(#[trigger] stats[k], id) && (forall|m: int|
                k < m < stats.len() ==> !is_video_source(#[trigger] stats[m], id))
                ==> spec_source_frames(stats, id) == stats[k]->MediaSource_frames,
    decreases stats.len(),
{
    if stats.len() > 0 {
        let p = stats.drop_last();
        let n = stats.len() - 1;
        law_source_frames_from_last_match(p, id);
        assert forall|k: int| 0 <= k < n implies #[trigger] stats[k] == p[k] by {}
        assert(stats[n] == stats.last());
    }
}

/// The label looked up for an id is that of the last entry with the id,
/// and there is none when no entry has it.
pub proof fn law_lookup_takes_last(entries: Seq<(Seq<char>, Seq<char>)>, id: Seq<char>)
    ensures
        spec_lookup(entries, id) is None <==> forall|k: int| 0 <= k < entries.len() ==> (#[trigger] entries[k]).0 != id,
        forall|k: int|
            0 <= k < entries.len() && (#[trigger] entries[k]).0 == id && (forall|m: int|
                k < m < entries.len() ==> (#[trigger] entries[m]).0 != id) ==> spec_lookup(entries, id)
                == Some(entries[k].1),
    decreases entries.len(),
{
    if entries.len() > 0 {
        let p = entries.drop_last();
        let n = entries.len() - 1;
        law_lookup_takes_last(p, id);
        assert forall|k: int| 0 <= k < n implies #[trigger] entries[k] == p[k] by {}
        assert(entries[n] == entries.last());
    }
}

/// The sampled record is the first eligible one: every record before it is
/// not eligible, and it is, unless the result is the report's length, when
/// no record is eligible.
pub proof fn law_first_eligible_record(stats: Seq<RtcStatEntry>, monitored: bool, inbound: bool)
    ensures
        0 <= first_picked(stats, monitored, inbound) <= stats.len(),
        forall|k: int|
            0 <= k < first_picked(stats, monitored, inbound) ==> !(if inbound {
                inbound_eligible(#[trigger] stats[k], monitored)
            } else {
                outbound_eligible(stats[k], monitored)
            }),
        first_picked(stats, monitored, inbound) < stats.len() ==> (if inbound {
            inbound_eligible(stats[first_picked(stats, monitored, inbound)], monitored)
        } else {
            outbound_eligible(stats[first_picked(stats, monitored, inbound)], monitored)
        }),
    decreases stats.len(),
{
    if stats.len() > 0 {
        let p = stats.drop_last();
        let n = stats.len() - 1;
        law_first_eligible_record(p, monitored, inbound);
        assert forall|k: int| 0 <= k < n implies #[trigger] stats[k] == p[k] by {}
        assert(stats[n] == stats.last());
    }
}

} // verus!
