use shadow_os::app::{counter_app_id, timeline_app_id};
use shadow_os::app::counter_app;
use shadow_os::compositor::{
    app_window_location, centered_location, control_step, desktop_client_env, desktop_client_program,
    shell_location, ClientProgram, ClientProgramError, ControlStep, WindowBook,
};
use shadow_os::control::ControlRequest;
use shadow_os::guest_counter::{CounterConfig, CounterPattern};
use shadow_os::runtime::{
    curated_font_candidates, dispatch_expr, font_dir_candidates, font_loading_mode, is_blank_request_line,
    parse_session_args, FontMode, SESSION_USAGE,
};
use shadow_os::touch::is_event_file_name;

#[test]
fn session_arguments_name_one_bundle() {
    let args = |v: &[&str]| v.iter().map(|s| s.to_string()).collect::<Vec<_>>();
    assert_eq!(parse_session_args(&args(&["--session", "/app.js"])), Ok("/app.js".to_string()));
    assert_eq!(parse_session_args(&args(&["--session"])), Err(SESSION_USAGE.to_string()));
    assert_eq!(parse_session_args(&args(&["--bundle", "/app.js"])), Err(SESSION_USAGE.to_string()));
    assert_eq!(parse_session_args(&args(&["--session", "a", "b"])), Err(SESSION_USAGE.to_string()));
}

#[test]
fn session_request_lines() {
    assert_eq!(
        dispatch_expr("{\"targetId\":\"counter\",\"type\":\"click\"}"),
        "globalThis.SHADOW_RUNTIME_HOST.dispatch({\"targetId\":\"counter\",\"type\":\"click\"})"
    );
    assert!(is_blank_request_line("  \t\n"));
    assert!(!is_blank_request_line(" {\"op\":\"render\"} "));
}

#[test]
fn event_nodes_are_recognised_by_name() {
    assert!(is_event_file_name("event0"));
    assert!(is_event_file_name("event12"));
    assert!(!is_event_file_name("mouse0"));
    assert!(!is_event_file_name("even"));
}

#[test]
fn guest_counter_buffer_size() {
    let config = CounterConfig {
        width: 10,
        height: 3,
        fullscreen: false,
        exit_on_configure: false,
        linger_ms: 0,
        pattern: CounterPattern::Checker,
    };
    assert_eq!(config.stride(), 40);
    assert_eq!(config.buffer_size(), 120);
}

#[test]
fn control_requests_become_window_steps() {
    assert!(matches!(control_step(ControlRequest::Launch { app_id: counter_app_id() }), ControlStep::Launch(a) if a == counter_app_id()));
    assert!(matches!(control_step(ControlRequest::Home), ControlStep::Home));
    assert!(matches!(control_step(ControlRequest::Switcher), ControlStep::Nothing));
}

#[test]
fn unmapped_windows_leave_focus() {
    let mut book = WindowBook::new();
    book.launch_or_focus(counter_app_id());
    book.note_launched(counter_app_id());
    book.note_mapped(counter_app_id());
    assert_eq!(book.focused_app(), Some(counter_app_id()));
    book.note_unmapped(counter_app_id());
    assert_eq!(book.focused_app(), None);
    assert!(book.is_launched(counter_app_id()));
    assert!(!book.is_launched(timeline_app_id()));
}

#[test]
fn shell_and_app_windows_are_centred_on_the_output() {
    assert_eq!(centered_location(Some((0, 0, 1080, 2340)), 540, 1170), (270, 585));
    assert_eq!(centered_location(Some((10, 20, 100, 100)), 540, 1170), (10, 20));
    assert_eq!(centered_location(None, 540, 1170), (0, 0));
    assert_eq!(shell_location(Some((100, 0, 740, 1170))), (200, 0));
    assert_eq!(app_window_location(Some((0, 0, 1080, 2340))), (270, 649));
    assert_eq!(app_window_location(None), (0, 64));
}

#[test]
fn font_setting_chooses_the_loading_mode() {
    use_font_mode_cases();
}

fn use_font_mode_cases() {
    assert_eq!(font_loading_mode(None), FontMode::Curated);
    assert_eq!(font_loading_mode(Some(" off ")), FontMode::Disabled);
    assert_eq!(font_loading_mode(Some("none")), FontMode::Disabled);
    assert_eq!(font_loading_mode(Some("system")), FontMode::Scan);
    assert_eq!(font_loading_mode(Some("whatever")), FontMode::Curated);
    assert_eq!(font_dir_candidates()[0], "/odm/fonts");
    assert_eq!(font_dir_candidates().len(), 5);
    assert_eq!(
        curated_font_candidates(None),
        vec![
            "/system/fonts/DroidSans.ttf".to_string(),
            "/system/fonts/DroidSans-Bold.ttf".to_string(),
            "/system/fonts/DroidSansMono.ttf".to_string(),
            "/system/fonts/NotoColorEmoji.ttf".to_string(),
        ]
    );
    assert_eq!(curated_font_candidates(Some("/fonts/".to_string()))[0], "/fonts/DroidSans.ttf");
    assert_eq!(curated_font_candidates(Some(String::new()))[1], "/system/fonts/DroidSans-Bold.ttf");
}

#[test]
fn desktop_client_program_prefers_settings_then_sibling_then_workspace() {
    let named = |r: Result<ClientProgram, ClientProgramError>| match r {
        Ok(ClientProgram::Named(p)) => Some(p),
        _ => None,
    };
    assert_eq!(
        named(desktop_client_program(Some("/a".to_string()), Some("/d".to_string()), None)),
        Some("/a".to_string())
    );
    assert_eq!(named(desktop_client_program(None, Some("/d".to_string()), Some(true))), Some("/d".to_string()));
    assert!(matches!(desktop_client_program(None, None, Some(true)), Ok(ClientProgram::Sibling)));
    assert!(matches!(desktop_client_program(None, None, Some(false)), Ok(ClientProgram::Workspace)));
    assert!(matches!(
        desktop_client_program(None, None, None),
        Err(ClientProgramError::NoExecutablePath)
    ));
}

#[test]
fn desktop_client_env_names_socket_app_size_and_bundle() {
    let app = counter_app();
    let env = desktop_client_env("wayland-1", "/run/control.sock", &app, "/bundle.js".to_string());
    let keys: Vec<&str> = env.iter().map(|(k, _)| k.as_str()).collect();
    assert_eq!(
        keys,
        vec![
            "WAYLAND_DISPLAY",
            "SHADOW_COMPOSITOR_CONTROL",
            "SHADOW_BLITZ_APP_TITLE",
            "SHADOW_BLITZ_WAYLAND_APP_ID",
            "SHADOW_BLITZ_SURFACE_WIDTH",
            "SHADOW_BLITZ_SURFACE_HEIGHT",
            "SHADOW_RUNTIME_APP_BUNDLE_PATH",
        ]
    );
    assert_eq!(env[0].1, "wayland-1");
    assert_eq!(env[1].1, "/run/control.sock");
    assert_eq!(env[2].1, app.window_title);
    assert_eq!(env[3].1, app.wayland_app_id);
    assert_eq!(env[4].1, "540");
    assert_eq!(env[5].1, "1106");
    assert_eq!(env[6].1, "/bundle.js");
}
