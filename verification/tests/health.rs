use hopp_core::health::{
    HealthEvent, HealthIssue, HealthMonitor, InboundSample, LabelSet, OutboundSample,
};

const SEC: u64 = 1_000_000_000;

fn inbound(received: u64, decoded: u64, dropped: u64, freeze_millis: u64) -> InboundSample {
    InboundSample {
        id: "IT01V".to_string(),
        codec: "VP9".to_string(),
        decoder: "libvpx".to_string(),
        frames_received: received,
        frames_decoded: decoded,
        frames_dropped: dropped,
        freeze_millis,
    }
}

fn outbound(source: u64, encoded: u64, reason: &str) -> OutboundSample {
    OutboundSample {
        id: "OT01V".to_string(),
        codec: "AV1".to_string(),
        encoder: "libaom".to_string(),
        source_frames: source,
        frames_encoded: encoded,
        quality_reason: reason.to_string(),
        quality_limited_millis: 0,
    }
}

fn issues(events: &[HealthEvent]) -> Vec<HealthIssue> {
    events
        .iter()
        .map(|e| match e {
            HealthEvent::Inbound { issue, .. } => *issue,
            HealthEvent::Outbound { issue, .. } => *issue,
        })
        .collect()
}

#[test]
fn issue_names() {
    assert_eq!(HealthIssue::DecoderStalled.name(), "decoder_stalled");
    assert_eq!(HealthIssue::DecoderQualityDegraded.name(), "decoder_quality_degraded");
    assert_eq!(HealthIssue::EncoderStalled.name(), "encoder_stalled");
    assert_eq!(HealthIssue::EncoderQualityLimited.name(), "encoder_quality_limited");
}

#[test]
fn label_set_lists_each_label_once_in_order() {
    let mut s = LabelSet::new();
    assert!(!s.contains("VP9"));
    s.insert("VP9");
    s.insert("AV1");
    s.insert("VP9");
    assert!(s.contains("VP9"));
    assert!(s.contains("AV1"));
    s.insert("H264");
    s.insert("AV");
    assert_eq!(
        s.labels(),
        vec!["AV".to_string(), "AV1".to_string(), "H264".to_string(), "VP9".to_string()]
    );
    let copy = s.clone();
    assert_eq!(copy.labels(), s.labels());
}

#[test]
fn first_sample_sets_the_baseline() {
    let mut m = HealthMonitor::new();
    let ev = m.update_inbound(inbound(100, 90, 5, 300), 0);
    assert!(ev.is_empty());
    assert!(m.summary.inbound_observed);
    assert_eq!(m.summary.inbound_frames_received, 100);
    assert_eq!(m.summary.inbound_frames_decoded, 90);
    assert_eq!(m.summary.inbound_frames_dropped, 5);
    assert_eq!(m.summary.inbound_freeze_millis, 300);
    assert!(m.summary.codecs.contains("VP9"));
    assert!(m.summary.implementations.contains("libvpx"));
    let st = m.inbound.as_ref().unwrap();
    assert_eq!(st.started_at_nanos, 0);
    assert_eq!(st.stall_samples, 0);
    assert_eq!(st.window.len(), 1);
}

#[test]
fn later_samples_add_their_deltas() {
    let mut m = HealthMonitor::new();
    m.update_inbound(inbound(100, 90, 5, 300), 0);
    m.update_inbound(inbound(130, 120, 6, 250), SEC);
    assert_eq!(m.summary.inbound_frames_received, 130);
    assert_eq!(m.summary.inbound_frames_decoded, 120);
    assert_eq!(m.summary.inbound_frames_dropped, 6);
    // A freeze counter that went down adds nothing.
    assert_eq!(m.summary.inbound_freeze_millis, 300);
}

#[test]
fn counters_going_back_restart_the_stream() {
    let mut m = HealthMonitor::new();
    m.update_inbound(inbound(100, 100, 0, 0), 0);
    m.update_inbound(inbound(200, 200, 0, 0), 20 * SEC);
    m.update_inbound(inbound(10, 10, 0, 0), 21 * SEC);
    let st = m.inbound.as_ref().unwrap();
    assert_eq!(st.started_at_nanos, 21 * SEC);
    assert_eq!(m.summary.inbound_frames_received, 210);
}

#[test]
fn decoder_stall_is_reported_once_after_three_stalled_samples() {
    let mut m = HealthMonitor::new();
    assert!(m.update(Some(inbound(10, 10, 0, 0)), None, 0).is_empty());
    assert!(m.update(Some(inbound(20, 10, 0, 0)), None, 10 * SEC).is_empty());
    assert!(m.update(Some(inbound(30, 10, 0, 0)), None, 11 * SEC).is_empty());
    let ev = m.update(Some(inbound(40, 10, 0, 0)), None, 12 * SEC);
    assert_eq!(issues(&ev), vec![HealthIssue::DecoderStalled]);
    match &ev[0] {
        HealthEvent::Inbound { codec, decoder, received, decoded, dropped, freeze_millis, .. } => {
            assert_eq!((codec.as_str(), decoder.as_str()), ("VP9", "libvpx"));
            assert_eq!((*received, *decoded, *dropped, *freeze_millis), (10, 0, 0, 0));
        }
        _ => panic!("inbound event expected"),
    }
    assert_eq!(m.summary.max_decoder_stall_seconds, 3);
    assert!(m.summary.alerts.contains("decoder_stalled"));
    // Still stalled: not reported again.
    assert!(m.update(Some(inbound(50, 10, 0, 0)), None, 13 * SEC).is_empty());
    assert_eq!(m.summary.max_decoder_stall_seconds, 4);
    // Decoding again resets the counter.
    m.update(Some(inbound(60, 30, 0, 0)), None, 14 * SEC);
    assert_eq!(m.inbound.as_ref().unwrap().stall_samples, 0);
    assert_eq!(m.summary.max_decoder_stall_seconds, 4);
}

#[test]
fn samples_during_warm_up_do_not_count_stalls() {
    let mut m = HealthMonitor::new();
    m.update_inbound(inbound(10, 10, 0, 0), 0);
    for k in 1..=5u64 {
        let ev = m.update_inbound(inbound(10 + 10 * k, 10, 0, 0), k * SEC);
        assert!(ev.is_empty());
        assert_eq!(m.inbound.as_ref().unwrap().stall_samples, 0);
    }
}

#[test]
fn long_freeze_in_the_window_degrades_quality() {
    let mut m = HealthMonitor::new();
    m.update_inbound(inbound(0, 0, 0, 0), 0);
    assert!(m.update_inbound(inbound(100, 100, 0, 0), 10 * SEC).is_empty());
    let ev = m.update_inbound(inbound(160, 160, 0, 2500), 16 * SEC);
    assert_eq!(issues(&ev), vec![HealthIssue::DecoderQualityDegraded]);
    match &ev[0] {
        HealthEvent::Inbound { received, decoded, dropped, freeze_millis, .. } => {
            assert_eq!((*received, *decoded, *dropped, *freeze_millis), (60, 60, 0, 2500));
        }
        _ => panic!("inbound event expected"),
    }
    // The window dropped the sample older than its start.
    let w = &m.inbound.as_ref().unwrap().window;
    assert_eq!(w.len(), 2);
    assert_eq!(w[0].at_nanos, 10 * SEC);
    assert_eq!(w[1].at_nanos, 16 * SEC);
}

#[test]
fn a_fifth_of_frames_dropped_degrades_quality() {
    let mut m = HealthMonitor::new();
    m.update_inbound(inbound(0, 0, 0, 0), 0);
    m.update_inbound(inbound(0, 0, 0, 0), 10 * SEC);
    // 24 decoded, 6 dropped: 30 frames, one fifth dropped.
    let ev = m.update_inbound(inbound(30, 24, 6, 0), 15 * SEC);
    assert_eq!(issues(&ev), vec![HealthIssue::DecoderQualityDegraded]);
    let mut m = HealthMonitor::new();
    m.update_inbound(inbound(0, 0, 0, 0), 0);
    m.update_inbound(inbound(0, 0, 0, 0), 10 * SEC);
    // 25 decoded, 5 dropped: fewer than a fifth.
    assert!(m.update_inbound(inbound(30, 25, 5, 0), 15 * SEC).is_empty());
    let mut m = HealthMonitor::new();
    m.update_inbound(inbound(0, 0, 0, 0), 0);
    m.update_inbound(inbound(0, 0, 0, 0), 10 * SEC);
    // Half dropped, but too few frames.
    assert!(m.update_inbound(inbound(20, 10, 10, 0), 15 * SEC).is_empty());
}

#[test]
fn encoder_quality_limitation_needs_five_samples_with_one_reason() {
    let mut m = HealthMonitor::new();
    m.update_outbound(outbound(0, 0, "none"), 0);
    let mut t = 10 * SEC;
    let mut frames = 0;
    for k in 1..=4 {
        frames += 30;
        let ev = m.update_outbound(outbound(frames, frames, "cpu"), t);
        assert!(ev.is_empty());
        assert_eq!(m.outbound.as_ref().unwrap().limitation_samples, k);
        t += SEC;
    }
    frames += 30;
    let ev = m.update_outbound(outbound(frames, frames, "cpu"), t);
    assert_eq!(issues(&ev), vec![HealthIssue::EncoderQualityLimited]);
    match &ev[0] {
        HealthEvent::Outbound { limitation_reason, source, encoded, .. } => {
            assert_eq!(limitation_reason.as_str(), "cpu");
            assert_eq!((*source, *encoded), (30, 30));
        }
        _ => panic!("outbound event expected"),
    }
    // Another reason starts counting over.
    frames += 30;
    m.update_outbound(outbound(frames, frames, "bandwidth"), t + SEC);
    assert_eq!(m.outbound.as_ref().unwrap().limitation_samples, 1);
    assert!(m.summary.quality_limitation_reasons.contains("cpu"));
    assert!(m.summary.quality_limitation_reasons.contains("bandwidth"));
    assert!(!m.summary.quality_limitation_reasons.contains("none"));
    frames += 30;
    m.update_outbound(outbound(frames, frames, "none"), t + 2 * SEC);
    assert_eq!(m.outbound.as_ref().unwrap().limitation_samples, 0);
    assert_eq!(m.outbound.as_ref().unwrap().limitation_reason, "");
}

#[test]
fn encoder_stall_is_reported() {
    let mut m = HealthMonitor::new();
    m.update(None, Some(outbound(0, 0, "none")), 0);
    m.update(None, Some(outbound(30, 0, "none")), 10 * SEC);
    m.update(None, Some(outbound(60, 0, "none")), 11 * SEC);
    let ev = m.update(None, Some(outbound(90, 0, "none")), 12 * SEC);
    assert_eq!(issues(&ev), vec![HealthIssue::EncoderStalled]);
    assert_eq!(m.summary.max_encoder_stall_seconds, 3);
    assert_eq!(m.summary.outbound_source_frames, 90);
    assert_eq!(m.summary.outbound_frames_encoded, 0);
}

#[test]
fn a_missing_sample_forgets_the_stream() {
    let mut m = HealthMonitor::new();
    m.update(Some(inbound(1, 1, 0, 0)), Some(outbound(1, 1, "none")), 0);
    assert!(m.inbound.is_some() && m.outbound.is_some());
    m.update(None, None, SEC);
    assert!(m.inbound.is_none() && m.outbound.is_none());
    assert_eq!(m.summary.inbound_frames_received, 1);
}

#[test]
fn report_passes_each_issue_once() {
    let mut m = HealthMonitor::new();
    let ev = |issue| HealthEvent::Outbound {
        issue,
        codec: String::new(),
        encoder: String::new(),
        limitation_reason: String::new(),
        source: 0,
        encoded: 0,
    };
    let first = m.report(vec![ev(HealthIssue::EncoderStalled), ev(HealthIssue::EncoderStalled)]);
    assert_eq!(issues(&first), vec![HealthIssue::EncoderStalled]);
    let second = m.report(vec![ev(HealthIssue::EncoderQualityLimited), ev(HealthIssue::EncoderStalled)]);
    assert_eq!(issues(&second), vec![HealthIssue::EncoderQualityLimited]);
    assert_eq!(
        m.summary.alerts.labels(),
        vec!["encoder_quality_limited".to_string(), "encoder_stalled".to_string()]
    );
}
