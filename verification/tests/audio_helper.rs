use shadow_os::audio::{AudioBackend, AudioSourceRequest, PlayerState, ToneSource};
use shadow_os::audio_helper::{
    helper_env, AudioHost, HelperAudioHost, HelperKill, HelperPlay, HelperPlayerRuntime, HelperSignal,
    HelperWait,
};

fn running(state: PlayerState) -> HelperPlayerRuntime {
    HelperPlayerRuntime { state, helper_running: true }
}

#[test]
fn helper_env_carries_the_tone() {
    let env = helper_env(&ToneSource { duration_ms: 2400, frequency_hz: 440 });
    assert_eq!(
        env,
        vec![
            ("SHADOW_AUDIO_SPIKE_DURATION_MS".to_string(), "2400".to_string()),
            ("SHADOW_AUDIO_SPIKE_FREQUENCY_HZ".to_string(), "440".to_string()),
        ]
    );
}

#[test]
fn play_starts_a_helper_and_resumes_a_suspended_one() {
    let mut rt = HelperPlayerRuntime::new();
    let mut last_error = Some("old".to_string());
    assert_eq!(rt.play_plan().unwrap(), HelperPlay::Restart);
    rt.stopped(None, &mut last_error).unwrap();
    assert_eq!(rt.state, PlayerState::Stopped);
    rt.spawned(Ok(()), &mut last_error).unwrap();
    assert_eq!(rt, running(PlayerState::Playing));
    assert_eq!(last_error, None);

    assert!(rt.pause_plan().unwrap());
    rt.suspended(HelperSignal::Sent).unwrap();
    assert_eq!(rt, running(PlayerState::Paused));
    assert_eq!(rt.play_plan().unwrap(), HelperPlay::Resume);
    let err = rt
        .resumed(HelperSignal::Failed { signal: 18, pid: 42, os_error: "No such process".to_string() }, &mut last_error)
        .unwrap_err();
    assert_eq!(err.message, "audio backend send signal 18 to pid 42: No such process");
    assert!(!err.type_error);
    assert_eq!(rt, running(PlayerState::Paused));
    rt.resumed(HelperSignal::Sent, &mut last_error).unwrap();
    assert_eq!(rt, running(PlayerState::Playing));
}

#[test]
fn helper_exit_completes_or_fails_the_player() {
    let mut rt = running(PlayerState::Playing);
    let mut last_error = None;
    rt.waited(HelperWait::Running, &mut last_error);
    assert_eq!(rt, running(PlayerState::Playing));
    rt.waited(HelperWait::Exited { success: true, status: "exit status: 0".to_string() }, &mut last_error);
    assert_eq!(rt, HelperPlayerRuntime { state: PlayerState::Completed, helper_running: false });

    let mut rt = running(PlayerState::Playing);
    rt.waited(HelperWait::Exited { success: false, status: "exit status: 3".to_string() }, &mut last_error);
    assert_eq!(rt.state, PlayerState::Error);
    assert_eq!(last_error.as_deref(), Some("linux spike helper exited with status exit status: 3"));

    let mut rt = running(PlayerState::Playing);
    rt.waited(HelperWait::WaitFailed("interrupted".to_string()), &mut last_error);
    assert_eq!(last_error.as_deref(), Some("audio.getStatus wait linux spike helper: interrupted"));
}

#[test]
fn stop_failures_drop_the_helper_and_release_is_final() {
    let mut rt = running(PlayerState::Playing);
    let mut last_error = Some("kept".to_string());
    let err = rt.stopped(Some(HelperKill::KillFailed("denied".to_string())), &mut last_error).unwrap_err();
    assert_eq!(err.message, "audio.stop kill player: denied");
    assert_eq!(rt, HelperPlayerRuntime { state: PlayerState::Playing, helper_running: false });
    assert_eq!(last_error.as_deref(), Some("kept"));

    let mut rt = running(PlayerState::Paused);
    rt.released(Some(HelperKill::Reaped), &mut last_error).unwrap();
    assert_eq!(rt, HelperPlayerRuntime { state: PlayerState::Released, helper_running: false });
    assert_eq!(
        rt.play_plan().unwrap_err().message,
        "audio.play cannot resume a released player"
    );
    assert_eq!(
        rt.pause_plan().unwrap_err().message,
        "audio.pause cannot target a released player"
    );
    rt.stopped(None, &mut last_error).unwrap();
    assert_eq!(rt.state, PlayerState::Released);

    let mut rt = HelperPlayerRuntime::new();
    let err = rt.spawned(Err("not found".to_string()), &mut last_error).unwrap_err();
    assert_eq!(err.message, "audio.play spawn linux spike helper: not found");
    assert_eq!(rt, HelperPlayerRuntime::new());
}

#[test]
fn helper_host_hands_out_players() {
    let mut host = HelperAudioHost::new("/bin/tone".to_string());
    assert_eq!(host.binary_path(), "/bin/tone");
    let first = host.create_player(AudioSourceRequest::default()).unwrap();
    assert_eq!((first.id, first.backend.as_str(), first.state.as_str()), (1, "linux_spike", "idle"));
    let mut player = host.take_player(1).unwrap();
    assert_eq!(host.take_player(1).unwrap_err().message, "audio op requires a known positive integer id, got 1");
    player.runtime.stopped(None, &mut player.last_error).unwrap();
    host.restore_player(player);
    let again = host.take_player(1).unwrap();
    assert_eq!(host.status(&again).state, "stopped");

    match AudioHost::new(AudioBackend::LinuxSpike { binary_path: "/x".to_string() }) {
        AudioHost::Helper(h) => assert_eq!(h.binary_path(), "/x"),
        AudioHost::Memory(_) => panic!("helper host expected"),
    }
    assert!(matches!(AudioHost::new(AudioBackend::Memory), AudioHost::Memory(_)));
}
