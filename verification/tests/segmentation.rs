use whispering_recorder::chunker::{SampleChunker, VAD_CHUNK_SIZE};
use whispering_recorder::naming::{decimal_string, segment_file_name};
use whispering_recorder::segmenter::{SegmentEvent, SegmentTracker, SpeechGate};

const MS: u64 = 1_000_000;

#[test]
fn chunker_hands_out_full_chunks_in_order() {
    let mut chunker: SampleChunker<u32> = SampleChunker::new(4);
    let chunks = chunker.push_samples(&[1, 2, 3]);
    assert!(chunks.is_empty());
    assert_eq!(chunker.pending_len(), 3);
    let chunks = chunker.push_samples(&[4, 5, 6, 7, 8, 9, 10]);
    assert_eq!(chunks, vec![vec![1, 2, 3, 4], vec![5, 6, 7, 8]]);
    assert_eq!(chunker.pending_len(), 2);
    let chunks = chunker.push_samples(&[]);
    assert!(chunks.is_empty());
    let chunks = chunker.push_samples(&[11, 12]);
    assert_eq!(chunks, vec![vec![9, 10, 11, 12]]);
    assert_eq!(chunker.pending_len(), 0);
}

#[test]
fn chunker_with_vad_chunk_size() {
    let mut chunker: SampleChunker<f32> = SampleChunker::new(VAD_CHUNK_SIZE);
    assert_eq!(chunker.chunk_size(), 512);
    let data: Vec<f32> = (0..1300).map(|i| i as f32).collect();
    let chunks = chunker.push_samples(&data);
    assert_eq!(chunks.len(), 2);
    assert_eq!(chunks[1][0], 512.0);
    assert_eq!(chunker.pending_len(), 1300 - 1024);
}

#[test]
fn gate_keeps_audio_until_timeout() {
    let mut gate = SpeechGate::new(800);
    assert_eq!(gate.silence_timeout_ns, 800 * MS);
    assert!(!gate.observe(false, 0));
    assert!(gate.observe(true, 10 * MS));
    assert!(gate.observe(false, 809 * MS));
    assert!(!gate.observe(false, 810 * MS));
    assert_eq!(gate.last_speech_ns, Some(10 * MS));
}

#[test]
fn gate_saturates_when_clock_is_behind() {
    let mut gate = SpeechGate::new(1);
    assert!(gate.observe(true, 5 * MS));
    assert!(gate.observe(false, 2 * MS));
}

#[test]
fn zero_timeout_never_records() {
    let mut tracker = SegmentTracker::new(0);
    assert_eq!(tracker.observe_chunk(true, 0), SegmentEvent::Continued);
    assert!(!tracker.is_speaking());
    assert_eq!(tracker.segment_count(), 0);
}

#[test]
fn segments_start_continue_and_end() {
    let mut tracker = SegmentTracker::new(100);
    assert_eq!(tracker.observe_chunk(false, 0), SegmentEvent::Continued);
    assert!(tracker.would_start_segment(true, 1 * MS));
    assert_eq!(tracker.observe_chunk(true, 1 * MS), SegmentEvent::Started { segment: 1 });
    tracker.segment_file_opened(true);
    assert!(tracker.should_write());
    assert_eq!(tracker.observe_chunk(true, 30 * MS), SegmentEvent::Continued);
    assert_eq!(tracker.observe_chunk(false, 129 * MS), SegmentEvent::Continued);
    assert!(tracker.should_write());
    assert_eq!(tracker.observe_chunk(false, 130 * MS), SegmentEvent::Ended { finalize: true });
    assert!(!tracker.should_write());
    assert!(!tracker.is_speaking());
    assert_eq!(tracker.observe_chunk(true, 200 * MS), SegmentEvent::Started { segment: 2 });
    assert_eq!(tracker.segment_count(), 2);
}

#[test]
fn failed_segment_file_is_not_finalized() {
    let mut tracker = SegmentTracker::new(10);
    assert_eq!(tracker.observe_chunk(true, 0), SegmentEvent::Started { segment: 1 });
    tracker.segment_file_opened(false);
    assert!(!tracker.should_write());
    assert!(tracker.is_speaking());
    assert_eq!(tracker.observe_chunk(false, 10 * MS), SegmentEvent::Ended { finalize: false });
}

#[test]
fn decimal_strings() {
    assert_eq!(decimal_string(0), "0");
    assert_eq!(decimal_string(7), "7");
    assert_eq!(decimal_string(10), "10");
    assert_eq!(decimal_string(1_725_029_869_123), "1725029869123");
    assert_eq!(decimal_string(u128::MAX), u128::MAX.to_string());
}

#[test]
fn segment_file_names() {
    assert_eq!(segment_file_name(1_725_029_869_123, 3), "vad_1725029869123_3.wav");
    assert_eq!(segment_file_name(0, 0), "vad_0_0.wav");
}

#[test]
fn segment_names_differ_for_different_segments() {
    assert_ne!(segment_file_name(1, 23), segment_file_name(12, 3));
    assert_ne!(segment_file_name(5, 1), segment_file_name(5, 2));
}

#[test]
fn segment_events_alternate() {
    let mut tracker = SegmentTracker::new(50);
    let mut events = Vec::new();
    let pattern = [true, true, false, false, true, false, false, false, true];
    for (k, speech) in pattern.iter().enumerate() {
        let now = (k as u64) * 40 * MS;
        let event = tracker.observe_chunk(*speech, now);
        if let SegmentEvent::Started { .. } = event {
            tracker.segment_file_opened(true);
        }
        if event != SegmentEvent::Continued {
            events.push(event);
        }
    }
    assert_eq!(
        events,
        vec![
            SegmentEvent::Started { segment: 1 },
            SegmentEvent::Ended { finalize: true },
            SegmentEvent::Started { segment: 2 },
            SegmentEvent::Ended { finalize: true },
            SegmentEvent::Started { segment: 3 },
        ]
    );
}
