use whispering_recorder::config::{ConfigRange, SampleFormat};
use whispering_recorder::device::{
    device_not_found_message, find_device_index, is_default_label, is_exact_default_identifier,
    no_default_device_message, requests_default_device,
};
use whispering_recorder::session::{recording_file_path, RecorderSession, SessionError};
use whispering_recorder::vad::{
    device_not_found_error, no_default_device_error, pick_vad_config, reported_state,
    silence_timeout_or_default, VadAction, VadError, VadSessionSlot, VadState, VadStreamTracker,
};

#[test]
fn default_device_name_ignores_case() {
    assert!(requests_default_device("default"));
    assert!(requests_default_device("DEFAULT"));
    assert!(requests_default_device("Default"));
    assert!(!requests_default_device("default "));
    assert!(!requests_default_device("Built-in Microphone"));
    assert!(is_default_label("default"));
    assert!(!is_default_label("Default"));
}

#[test]
fn vad_default_identifier_is_exact() {
    assert!(is_exact_default_identifier("default"));
    assert!(!is_exact_default_identifier("DEFAULT"));
}

#[test]
fn device_found_by_exact_name() {
    let names = vec![
        None,
        Some("USB Mic".to_string()),
        Some("Built-in Microphone".to_string()),
        Some("USB Mic".to_string()),
    ];
    assert_eq!(find_device_index(&names, "USB Mic"), Some(1));
    assert_eq!(find_device_index(&names, "Built-in Microphone"), Some(2));
    assert_eq!(find_device_index(&names, "usb mic"), None);
    assert_eq!(find_device_index(&Vec::new(), "USB Mic"), None);
}

#[test]
fn device_messages() {
    assert_eq!(device_not_found_message("USB Mic"), "Device 'USB Mic' not found");
    assert_eq!(no_default_device_message(), "No default input device available");
}

#[test]
fn recording_path_joins_folder_and_id() {
    assert_eq!(recording_file_path("/tmp/recordings", "abc123"), "/tmp/recordings/abc123.wav");
    assert_eq!(recording_file_path("/tmp/recordings/", "x"), "/tmp/recordings/x.wav");
}

#[test]
fn start_without_session_is_refused() {
    let session = RecorderSession::new();
    assert_eq!(session.check_start(), Err(SessionError::NoSession));
    assert_eq!(SessionError::NoSession.message(), "No recording session initialized");
}

#[test]
fn manual_session_lifecycle() {
    let mut session = RecorderSession::new();
    let path = recording_file_path("/tmp/rec", "meeting-42");
    session.opened_manual(16000, 1, path.clone());
    assert_eq!(session.current_recording_id(), None);
    assert_eq!(session.check_start(), Ok(()));
    session.confirm_started();
    assert_eq!(session.current_recording_id(), Some("meeting-42".to_string()));
    let steps = session.stop_steps();
    assert!(steps.notify_worker && steps.finalize_writer);
    session.confirm_stopped();
    assert_eq!(session.current_recording_id(), None);
    let summary = session.summary(Some((16000, 1)));
    assert_eq!(summary.sample_rate, 16000);
    assert_eq!(summary.channels, 1);
    assert_eq!(summary.file_path, Some(path.clone()));
    assert_eq!(session.file_to_delete(), Some(path));
    let closing = session.close();
    assert!(closing.shutdown_worker && closing.finalize_writer);
    assert_eq!(session.sample_rate, 0);
    assert_eq!(session.file_path, None);
    assert_eq!(session.check_start(), Err(SessionError::NoSession));
}

#[test]
fn closing_a_recording_session_drops_its_id() {
    let mut session = RecorderSession::new();
    session.opened_manual(48000, 2, "/a/b.wav".to_string());
    session.confirm_started();
    assert_eq!(session.current_recording_id(), Some("b".to_string()));
    session.close();
    assert_eq!(session.current_recording_id(), None);
    assert!(session.is_recording);
}

#[test]
fn vad_session_has_no_file() {
    let mut session = RecorderSession::new();
    session.opened_vad(16000, 1);
    session.confirm_started();
    assert_eq!(session.current_recording_id(), None);
    let steps = session.stop_steps();
    assert!(steps.notify_worker && !steps.finalize_writer);
    let summary = session.summary(None);
    assert_eq!((summary.sample_rate, summary.channels, summary.file_path), (16000, 1, None));
}

#[test]
fn vad_state_transitions() {
    let mut state = VadState::started();
    assert!(state.is_running && !state.is_speaking && state.current_file.is_none());
    state.begin_segment("/rec/vad_1_0.wav".to_string());
    assert!(state.is_speaking);
    assert_eq!(state.current_file.as_deref(), Some("/rec/vad_1_0.wav"));
    assert_eq!(state.end_segment(), "/rec/vad_1_0.wav");
    assert!(state.is_running && !state.is_speaking && state.current_file.is_none());
    assert_eq!(state.end_segment(), "");
    state.begin_segment("x".to_string());
    state.stop();
    assert!(!state.is_running && !state.is_speaking && state.current_file.is_none());
}

#[test]
fn reported_state_without_session_is_idle() {
    let idle = reported_state(None);
    assert!(!idle.is_running && !idle.is_speaking && idle.current_file.is_none());
    let mut running = VadState::started();
    running.begin_segment("f.wav".to_string());
    let copy = reported_state(Some(&running));
    assert!(copy.is_running && copy.is_speaking);
    assert_eq!(copy.current_file.as_deref(), Some("f.wav"));
}

#[test]
fn session_slot_take_and_not_initialized() {
    let mut slot: VadSessionSlot<u32> = VadSessionSlot::new();
    assert!(!slot.is_active());
    assert!(matches!(slot.take(), Err(VadError::NotInitialized)));
    slot.install(7);
    assert!(slot.is_active());
    assert_eq!(slot.get(), Some(&7));
    assert!(matches!(slot.take(), Ok(7)));
    assert!(!slot.is_active());
    assert!(matches!(slot.take(), Err(VadError::NotInitialized)));
}

#[test]
fn vad_defaults_and_errors() {
    assert_eq!(silence_timeout_or_default(None), 800);
    assert_eq!(silence_timeout_or_default(Some(1500)), 1500);
    match no_default_device_error() {
        VadError::DeviceError(m) => assert_eq!(m, "No default input device found"),
        _ => panic!("wrong error"),
    }
    match device_not_found_error("Mic") {
        VadError::DeviceError(m) => assert_eq!(m, "Device 'Mic' not found"),
        _ => panic!("wrong error"),
    }
}

#[test]
fn vad_config_pick() {
    let configs = vec![
        ConfigRange { channels: 2, min_sample_rate: 8000, max_sample_rate: 96000, sample_format: SampleFormat::I32 },
        ConfigRange { channels: 2, min_sample_rate: 44100, max_sample_rate: 96000, sample_format: SampleFormat::F32 },
    ];
    assert!(matches!(pick_vad_config(&configs), Ok((1, 48000))));
    match pick_vad_config(&Vec::new()) {
        Err(VadError::DeviceError(m)) => assert_eq!(m, "No supported audio config found"),
        _ => panic!("expected an error"),
    }
}

#[test]
fn vad_stream_opens_and_closes_files() {
    let ms = 1_000_000u64;
    let mut tracker = VadStreamTracker::new(800);
    assert_eq!(tracker.observe_chunk(false, 0), VadAction::Keep);
    assert_eq!(tracker.observe_chunk(true, 5 * ms), VadAction::OpenFile);
    // The file could not be opened: the next chunk asks again.
    assert_eq!(tracker.observe_chunk(false, 6 * ms), VadAction::OpenFile);
    tracker.file_opened();
    assert!(tracker.file_open);
    assert_eq!(tracker.observe_chunk(false, 804 * ms), VadAction::Keep);
    assert_eq!(tracker.observe_chunk(false, 805 * ms), VadAction::CloseFile);
    assert!(!tracker.file_open);
    assert_eq!(tracker.observe_chunk(false, 900 * ms), VadAction::Keep);
}

#[test]
fn vad_stream_writes_only_while_a_file_is_open() {
    let mut tracker = VadStreamTracker::new(100);
    assert!(!tracker.should_write());
    assert_eq!(tracker.observe_chunk(true, 0), VadAction::OpenFile);
    assert!(!tracker.should_write());
    tracker.file_opened();
    assert!(tracker.should_write());
    assert_eq!(tracker.observe_chunk(false, 100_000_000), VadAction::CloseFile);
    assert!(!tracker.should_write());
}

#[test]
fn vad_zero_timeout_never_opens() {
    let mut tracker = VadStreamTracker::new(0);
    assert_eq!(tracker.observe_chunk(true, 0), VadAction::Keep);
    assert_eq!(tracker.observe_chunk(true, 5), VadAction::Keep);
}

#[test]
fn vad_state_keeps_speaking_and_file_together() {
    let mut state = VadState::started();
    for k in 0..3 {
        state.begin_segment(format!("f{}.wav", k));
        assert_eq!(state.is_speaking, state.current_file.is_some());
        assert!(state.is_running);
        state.end_segment();
        assert_eq!(state.is_speaking, state.current_file.is_some());
    }
    state.stop();
    assert_eq!(state.is_speaking, state.current_file.is_some());
}

#[test]
fn recording_id_round_trip() {
    for id in ["meeting-42", "a.b", ".", "..", "x y", "10:30", "take:2"] {
        let mut session = RecorderSession::new();
        session.opened_manual(16000, 1, recording_file_path("/tmp/rec", id));
        session.confirm_started();
        assert_eq!(session.current_recording_id(), Some(id.to_string()));
    }
}

#[test]
fn recording_id_reported_for_ids_with_separators() {
    for (id, stem) in [("a/b", "b"), ("", ".wav"), ("dir/x.y", "x.y")] {
        let mut session = RecorderSession::new();
        session.opened_manual(16000, 1, recording_file_path("/tmp/rec", id));
        session.confirm_started();
        assert_eq!(session.current_recording_id(), Some(stem.to_string()));
    }
}
