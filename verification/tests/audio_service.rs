use shadow_os::audio::{
    AudioBackend, AudioHostService, AudioSourceRequest, MemoryPlayerRuntime, PlayerOp,
    PlayerState, ToneSource,
};

fn tone_request(duration_ms: u32) -> AudioSourceRequest {
    AudioSourceRequest {
        duration_ms,
        ..AudioSourceRequest::default()
    }
}

#[test]
fn tone_requests_are_checked() {
    let ok = ToneSource::try_from(AudioSourceRequest::default()).unwrap();
    assert_eq!(ok, ToneSource { duration_ms: 2_400, frequency_hz: 440 });
    let bad_kind = ToneSource::try_from(AudioSourceRequest {
        kind: String::from("file"),
        ..AudioSourceRequest::default()
    })
    .unwrap_err();
    assert!(!bad_kind.type_error);
    assert_eq!(bad_kind.message, "audio.createPlayer does not support source kind 'file'");
    let zero = ToneSource::try_from(tone_request(0)).unwrap_err();
    assert!(zero.type_error);
    assert_eq!(zero.message, "audio.createPlayer requires source.durationMs > 0");
    let silent = ToneSource::try_from(AudioSourceRequest {
        frequency_hz: 0,
        ..AudioSourceRequest::default()
    })
    .unwrap_err();
    assert_eq!(silent.message, "audio.createPlayer requires source.frequencyHz > 0");
}

#[test]
fn state_names() {
    assert_eq!(PlayerState::Idle.as_str(), "idle");
    assert_eq!(PlayerState::Completed.as_str(), "completed");
    assert_eq!(PlayerState::Error.as_str(), "error");
}

#[test]
fn backend_from_settings() {
    assert!(matches!(AudioBackend::from_settings(None, None), Ok(AudioBackend::Memory)));
    assert!(matches!(AudioBackend::from_settings(Some("  "), None), Ok(AudioBackend::Memory)));
    match AudioBackend::from_settings(Some("linux_spike"), Some(" /bin/tone ")) {
        Ok(AudioBackend::LinuxSpike { binary_path }) => assert_eq!(binary_path, "/bin/tone"),
        _ => panic!("linux spike backend expected"),
    }
    assert!(AudioBackend::from_settings(Some("linux_spike"), None).is_err());
    assert_eq!(
        AudioBackend::from_settings(Some("alsa"), None).unwrap_err(),
        "runtime audio host: unsupported backend 'alsa', expected memory or linux_spike"
    );
    assert_eq!(AudioBackend::Memory.name(), "memory");
}

#[test]
fn memory_player_pauses_resumes_and_completes() {
    let source = ToneSource { duration_ms: 100, frequency_hz: 440 };
    let mut player = MemoryPlayerRuntime::new();
    let mut last_error = Some(String::from("old"));
    player.play(1_000, &mut last_error).unwrap();
    assert_eq!(last_error, None);
    player.pause(1_040).unwrap();
    assert_eq!(player.state, PlayerState::Paused);
    assert_eq!(player.elapsed_before_pause_ms, 40);
    player.play(2_000, &mut last_error).unwrap();
    player.reconcile(&source, 2_050);
    assert_eq!(player.state, PlayerState::Playing);
    player.reconcile(&source, 2_060);
    assert_eq!(player.state, PlayerState::Completed);
    player.release(&mut last_error).unwrap();
    assert_eq!(player.state, PlayerState::Released);
    assert!(player.play(3_000, &mut last_error).is_err());
    assert!(player.stop(&mut last_error).is_err());
}

#[test]
fn service_hands_out_ids_and_forgets_released_players() {
    let mut service = AudioHostService::new();
    let first = service.create_player(AudioSourceRequest::default(), 0).unwrap();
    let second = service.create_player(AudioSourceRequest::default(), 0).unwrap();
    assert_eq!((first.id, second.id), (1, 2));
    assert_eq!(first.state, "idle");
    assert_eq!(first.backend, "memory");
    assert_eq!(first.source_kind, "tone");
    let playing = service.apply(1, PlayerOp::Play, 10).unwrap();
    assert_eq!(playing.state, "playing");
    let done = service.status_for(1, 10 + 2_400).unwrap();
    assert_eq!(done.state, "completed");
    let released = service.release(2, 20).unwrap();
    assert_eq!(released.state, "released");
    let unknown = service.apply(2, PlayerOp::Stop, 30).unwrap_err();
    assert!(unknown.type_error);
    assert_eq!(unknown.message, "audio op requires a known positive integer id, got 2");
    assert!(service.create_player(tone_request(0), 0).is_err());
}
