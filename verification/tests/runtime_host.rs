use shadow_os::runtime::{
    auto_click_target, debug_overlay_enabled, first_render_failure, first_render_step, FirstRenderStep, drain_messages, exit_reason, expect_payload,
    is_fresh_snapshot, session_endpoints, DemoMode, parse_smoke_options, DEFAULT_RESULT_EXPR, is_new_touch_signal, optional_millis, payload_if_dirty, runtime_surface_dimension,
    session_request_name, touch_signal_timer_enabled, touch_signal_token, truncate_debug,
    DebugOverlayState, HostMessage, RenderPayload, RuntimeDocumentPayload, RuntimeMessage,
    SessionRequestKind, SessionResponse,
};

fn render(css: &str, html: &str) -> RuntimeMessage {
    RuntimeMessage::Render(RenderPayload {
        css: String::from(css),
        html: String::from(html),
    })
}

fn log(message: &str) -> RuntimeMessage {
    RuntimeMessage::Log {
        message: String::from(message),
    }
}

#[test]
fn last_render_wins_and_empty_logs_are_dropped() {
    let messages = vec![render("a", "1"), log("hello"), log(""), render("b", "2"), log("bye")];
    let (latest, logs) = drain_messages(&messages);
    let latest = latest.expect("a render");
    assert_eq!((latest.css.as_str(), latest.html.as_str()), ("b", "2"));
    assert_eq!(logs, vec!["hello", "bye"]);
    let (none, _) = drain_messages(&vec![log("x")]);
    assert!(none.is_none());
}

#[test]
fn click_messages_carry_the_action() {
    match HostMessage::click(String::from("increment")) {
        HostMessage::Click { action } => assert_eq!(action, "increment"),
    }
}

#[test]
fn exit_reason_prefers_the_last_error_line() {
    assert_eq!(exit_reason(Some(String::from("boom")), "exited"), "boom");
    assert_eq!(exit_reason(None, "exited"), "exited");
}

#[test]
fn session_replies_map_to_documents() {
    let doc = || RuntimeDocumentPayload {
        html: String::from("<p>x</p>"),
        css: None,
    };
    assert_eq!(
        expect_payload(SessionResponse::Updated { payload: doc() }, SessionRequestKind::Render)
            .unwrap()
            .html,
        "<p>x</p>"
    );
    assert_eq!(
        expect_payload(SessionResponse::NoUpdate, SessionRequestKind::Render).unwrap_err(),
        "runtime host returned no update for render"
    );
    assert_eq!(
        expect_payload(SessionResponse::NoUpdate, SessionRequestKind::Dispatch).unwrap_err(),
        "runtime host returned no update for dispatch"
    );
    assert_eq!(
        expect_payload(
            SessionResponse::Failed {
                message: String::from("bad")
            },
            SessionRequestKind::Dispatch
        )
        .unwrap_err(),
        "bad"
    );
    assert!(payload_if_dirty(SessionResponse::NoUpdate).unwrap().is_none());
    assert!(payload_if_dirty(SessionResponse::Updated { payload: doc() }).unwrap().is_some());
    assert_eq!(session_request_name(SessionRequestKind::RenderIfDirty), "render_if_dirty");
}

#[test]
fn truncation_marks_cut_text() {
    assert_eq!(truncate_debug("héllo", 10), "héllo");
    assert_eq!(truncate_debug("héllo", 2), "hé...");
    assert_eq!(truncate_debug("", 0), "");
}

#[test]
fn settings_are_parsed_like_the_environment() {
    assert_eq!(runtime_surface_dimension(Some(" 720 "), 540), 720);
    assert_eq!(runtime_surface_dimension(Some("0"), 540), 540);
    assert_eq!(runtime_surface_dimension(Some("wide"), 540), 540);
    assert_eq!(runtime_surface_dimension(None, 1106), 1106);
    assert_eq!(optional_millis(Some("250")), Some(250));
    assert_eq!(optional_millis(Some("")), None);
    assert_eq!(optional_millis(Some("-1")), None);
    assert!(debug_overlay_enabled(None));
    assert!(!debug_overlay_enabled(Some("off")));
    assert!(debug_overlay_enabled(Some("yes")));
    assert!(touch_signal_timer_enabled(Some("on")));
    assert!(!touch_signal_timer_enabled(None));
    assert_eq!(auto_click_target(true, Some(String::from("counter"))).as_deref(), Some("counter"));
    assert_eq!(auto_click_target(false, Some(String::from("counter"))), None);
    assert_eq!(auto_click_target(true, Some(String::new())), None);
}

#[test]
fn touch_signal_tokens() {
    assert_eq!(touch_signal_token("  7\n").as_deref(), Some("7"));
    assert_eq!(touch_signal_token(" \n"), None);
    assert!(is_new_touch_signal(&String::from("7"), &None));
    assert!(!is_new_touch_signal(&String::from("7"), &Some(String::from("7"))));
    assert!(is_new_touch_signal(&String::from("8"), &Some(String::from("7"))));
}

#[test]
fn overlay_lights_seen_lanes() {
    let state = DebugOverlayState {
        signal_seen: false,
        raw_seen: true,
        ui_seen: false,
        hit_seen: false,
        click_seen: false,
    };
    assert_eq!(
        state.overlay_html(),
        [
            "<span class=\"shadow-debug-lane signal\"></span>",
            "<span class=\"shadow-debug-lane raw is-on\"></span>",
            "<span class=\"shadow-debug-lane ui\"></span>",
            "<span class=\"shadow-debug-lane hit\"></span>",
            "<span class=\"shadow-debug-lane click\"></span>",
        ]
        .concat()
    );
}

#[test]
fn render_mailbox_snapshots_are_decoded_once() {
    assert!(is_fresh_snapshot("{\"type\":\"log\"}", ""));
    assert!(!is_fresh_snapshot("  \n", ""));
    assert!(!is_fresh_snapshot("{}", "{}"));
    assert!(is_fresh_snapshot("{} ", "{}"));
}

fn args(list: &[&str]) -> Vec<String> {
    list.iter().map(|s| s.to_string()).collect()
}

#[test]
fn smoke_options_take_a_module_and_an_expression() {
    let o = parse_smoke_options(&args(&["--result-expr", "globalThis.X", "main.js"]), false).unwrap();
    assert_eq!(o.module.as_deref(), Some("main.js"));
    assert_eq!(o.result_expr, "globalThis.X");
    assert!(!o.session);

    let o = parse_smoke_options(&args(&[]), true).unwrap();
    assert_eq!(o.module, None);
    assert_eq!(o.result_expr, DEFAULT_RESULT_EXPR);

    let o = parse_smoke_options(&args(&["--session", "app.js"]), true).unwrap();
    assert!(o.session);
    assert_eq!(o.module.as_deref(), Some("app.js"));

    assert_eq!(
        parse_smoke_options(&args(&["--session", "app.js"]), false).unwrap_err(),
        "unknown argument: app.js"
    );
    assert_eq!(
        parse_smoke_options(&args(&["main.js", "--result-expr"]), true).unwrap_err(),
        "missing value for --result-expr"
    );
    assert_eq!(parse_smoke_options(&args(&["a", "b"]), true).unwrap_err(), "unknown argument: b");
}

#[test]
fn session_needs_both_endpoints_or_neither() {
    assert!(matches!(session_endpoints(None, None), Ok(None)));
    let both = session_endpoints(Some("/bin/host".to_string()), Some("/app.js".to_string())).unwrap();
    assert_eq!(both, Some(("/bin/host".to_string(), "/app.js".to_string())));
    assert_eq!(
        session_endpoints(Some("/bin/host".to_string()), None).unwrap_err(),
        "runtime session requires both SHADOW_RUNTIME_HOST_BINARY_PATH and SHADOW_RUNTIME_APP_BUNDLE_PATH"
    );
}

#[test]
fn demo_mode_names() {
    assert_eq!(DemoMode::from_setting(Some("runtime")), DemoMode::Runtime);
    assert_eq!(DemoMode::from_setting(Some("static")), DemoMode::Static);
    assert_eq!(DemoMode::from_setting(None), DemoMode::Static);
    assert_eq!(DemoMode::Runtime.title(), "Shadow Counter");
    assert_eq!(DemoMode::Static.label(), "static");
    assert_eq!(DemoMode::Static.wayland_app_id(), "dev.shadow.blitz");
    assert_eq!(DemoMode::Runtime.wayland_app_id(), "dev.shadow.counter");
    assert_eq!(DemoMode::Runtime.wayland_instance_name(), "shadow-counter");
}

#[test]
fn waiting_for_the_first_render_prints_logs_until_a_render() {
    let log = |m: &str| RuntimeMessage::Log { message: String::from(m) };
    assert!(matches!(first_render_step(log("booting")), FirstRenderStep::Print(line) if line == "booting"));
    assert!(matches!(first_render_step(log("")), FirstRenderStep::Skip));
    match first_render_step(render("a{}", "<p>")) {
        FirstRenderStep::Rendered(p) => assert_eq!((p.css.as_str(), p.html.as_str()), ("a{}", "<p>")),
        _ => panic!("a render ends the wait"),
    }
}

#[test]
fn first_render_failure_names_the_exit_or_the_wait_error() {
    assert_eq!(
        first_render_failure(Some(String::from("exit status: 1")), None, String::from("timed out")),
        "runtime exited before first render: the Deno runtime exited: exit status: 1"
    );
    assert_eq!(
        first_render_failure(Some(String::from("exit status: 1")), Some(String::from("boom")), String::new()),
        "runtime exited before first render: boom"
    );
    assert_eq!(
        first_render_failure(None, Some(String::from("boom")), String::from("channel closed")),
        "failed waiting for Deno render: channel closed"
    );
}
