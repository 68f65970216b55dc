use wren::voice::{
    delete_model_error, download_failure, download_progress, download_start_events, finish_mode,
    installed_models, model_not_installed_error, partial_download_name, recording_end, transcript_from_segments,
    validate_model_filename, whisper_model_url, DownloadFailure, FinishMode, RecordingEnd, VoiceEvent,
    VoiceModelDownloadEvent, VoiceSession, VoiceState,
};

#[test]
fn validate_filename_accepts_real_models() {
    assert!(validate_model_filename("ggml-base.en-q5_1.bin").is_ok());
    assert!(validate_model_filename("ggml-tiny.bin").is_ok());
    assert!(validate_model_filename("ggml-large-v3.bin").is_ok());
}

#[test]
fn validate_filename_rejects_traversal() {
    assert!(validate_model_filename("../etc/passwd").is_err());
    assert!(validate_model_filename("ggml-../boot.bin").is_err());
    assert!(validate_model_filename("/abs/ggml-base.bin").is_err());
    assert!(validate_model_filename("dir\\ggml-base.bin").is_err());
}

#[test]
fn validate_filename_rejects_wrong_shape() {
    assert!(validate_model_filename("").is_err());
    assert!(validate_model_filename("model.bin").is_err());
    assert!(validate_model_filename("ggml-base.txt").is_err());
}

#[test]
fn validate_filename_error_messages() {
    assert_eq!(validate_model_filename(""), Err("model filename is empty".to_string()));
    assert_eq!(
        validate_model_filename("a/b"),
        Err("model filename contains illegal characters".to_string())
    );
    assert_eq!(
        validate_model_filename("model.bin"),
        Err("model filename must start with 'ggml-' and end with '.bin'".to_string())
    );
}

#[test]
fn voice_state_install_replaces_prior() {
    let mut s: VoiceState<u8, u8> = VoiceState::new();
    let prev = s.install(VoiceSession { finish_tx: Some(1) });
    assert!(prev.is_none());
    let prev = s.install(VoiceSession { finish_tx: Some(2) });
    assert!(prev.is_some());
    assert_eq!(prev.unwrap().finish_tx, Some(1));
}

#[test]
fn voice_state_take_finish_consumes_once() {
    let mut s: VoiceState<u8, u8> = VoiceState::new();
    s.install(VoiceSession { finish_tx: Some(1) });
    assert!(s.take_finish().is_some());
    assert!(s.take_finish().is_none());
}

#[test]
fn voice_state_clear_drops_session() {
    let mut s: VoiceState<u8, u8> = VoiceState::new();
    s.install(VoiceSession { finish_tx: Some(1) });
    s.clear();
    assert!(s.take_finish().is_none());
}

#[test]
fn voice_state_download_token_round_trips() {
    let mut s: VoiceState<u8, &'static str> = VoiceState::new();
    s.set_download_cancel("token");
    let taken = s.take_download_cancel();
    assert!(taken.is_some());
    assert!(s.take_download_cancel().is_none());
}

#[test]
fn download_urls_and_names() {
    assert_eq!(
        whisper_model_url("ggml-tiny.bin"),
        "https://huggingface.co/ggerganov/whisper.cpp/resolve/main/ggml-tiny.bin"
    );
    assert_eq!(partial_download_name("ggml-tiny.bin"), "ggml-tiny.bin.part");
}

#[test]
fn download_events_and_failures() {
    let e = download_start_events(true, "ggml-tiny.bin");
    assert_eq!(e.len(), 2);
    assert!(matches!(&e[0], VoiceModelDownloadEvent::Status(m) if m == "Already installed."));
    assert!(matches!(&e[1], VoiceModelDownloadEvent::Done));
    let e = download_start_events(false, "ggml-tiny.bin");
    assert!(matches!(&e[0], VoiceModelDownloadEvent::Status(m) if m == "Downloading ggml-tiny.bin…"));
    let (c, ev) = download_progress(100, 40, 10);
    assert_eq!(c, 50);
    assert!(matches!(ev, VoiceModelDownloadEvent::Progress { total: 100, completed: 50 }));
    let (ev, removes) = download_failure(DownloadFailure::HttpStatus(404), "");
    assert!(matches!(ev, VoiceModelDownloadEvent::Error(m) if m == "HuggingFace returned HTTP 404"));
    assert!(!removes);
    let (ev, removes) = download_failure(DownloadFailure::Stalled, "");
    assert!(matches!(ev, VoiceModelDownloadEvent::Error(m) if m == "Download stalled: no progress for 60s."));
    assert!(removes);
    let (ev, removes) = download_failure(DownloadFailure::DiskWrite, "disk full");
    assert!(matches!(ev, VoiceModelDownloadEvent::Error(m) if m == "Disk write failed: disk full"));
    assert!(removes);
    assert_eq!(
        model_not_installed_error("ggml-x.bin"),
        "Voice model not installed: ggml-x.bin. Install it from Settings → Voice."
    );
    assert_eq!(delete_model_error("ggml-x.bin", "denied"), "could not delete ggml-x.bin: denied");
}

#[test]
fn installed_models_are_filtered_and_sorted() {
    let entries = vec![
        ("ggml-tiny.bin".to_string(), 10),
        ("notes.txt".to_string(), 1),
        ("ggml-base.bin".to_string(), 20),
        ("ggml-../x.bin".to_string(), 3),
    ];
    let models = installed_models(&entries);
    assert_eq!(models.len(), 2);
    assert_eq!(models[0].filename, "ggml-base.bin");
    assert_eq!(models[0].size, 20);
    assert_eq!(models[1].filename, "ggml-tiny.bin");
}

#[test]
fn recording_ends_by_mode_and_buffer() {
    assert_eq!(finish_mode(None), FinishMode::Cancel);
    assert_eq!(finish_mode(Some(FinishMode::Finalize)), FinishMode::Finalize);
    assert!(matches!(recording_end(FinishMode::Cancel, 10), RecordingEnd::Emit(VoiceEvent::Cancelled)));
    assert!(matches!(recording_end(FinishMode::Finalize, 0), RecordingEnd::Emit(VoiceEvent::Final(t)) if t.is_empty()));
    assert!(matches!(recording_end(FinishMode::Finalize, 5), RecordingEnd::Transcribe));
}

#[test]
fn transcript_joins_trimmed_segments() {
    let segs = vec![" Hello".to_string(), "   ".to_string(), "world. ".to_string()];
    assert_eq!(transcript_from_segments(&segs), "Hello world.");
    assert_eq!(transcript_from_segments(&vec![]), "");
}
