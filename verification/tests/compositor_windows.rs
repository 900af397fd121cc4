use shadow_os::app::{counter_app, counter_app_id, timeline_app_id};
use shadow_os::compositor::{
    client_env_assignments, client_env_steps, missing_bundle_message, EnvStep,
    control_error_reply, control_ok_reply, key_decision, KeyDecision, KeyboardIntent, WindowBook, WindowStep,
    KEY_ESCAPE, KEY_HOME, KEY_LEFT, KEY_RETURN,
};
use shadow_os::shell::NavAction;

#[test]
fn keys_go_home_or_drive_the_shell() {
    assert_eq!(
        key_decision(true, KEY_ESCAPE, true),
        KeyDecision::Intercept(KeyboardIntent::Home)
    );
    assert_eq!(
        key_decision(true, KEY_HOME, false),
        KeyDecision::Intercept(KeyboardIntent::Shell(NavAction::Home))
    );
    assert_eq!(
        key_decision(true, KEY_RETURN, false),
        KeyDecision::Intercept(KeyboardIntent::Shell(NavAction::Activate))
    );
    assert_eq!(key_decision(true, KEY_LEFT, true), KeyDecision::Forward);
    assert_eq!(
        key_decision(false, KEY_LEFT, true),
        KeyDecision::Intercept(KeyboardIntent::Ignore)
    );
    assert_eq!(key_decision(false, 0x61, false), KeyDecision::Forward);
    assert_eq!(control_ok_reply(), "ok\n");
}

#[test]
fn launch_then_switch_then_resume() {
    let mut book = WindowBook::new();
    let plan = book.launch_or_focus(counter_app_id());
    assert!(plan.shelve_first.is_none());
    assert!(matches!(plan.step, WindowStep::Spawn(_)));
    book.note_launched(counter_app_id());
    assert!(matches!(book.launch_or_focus(counter_app_id()).step, WindowStep::Wait));
    book.note_mapped(counter_app_id());
    assert_eq!(book.focused_app(), Some(counter_app_id()));

    let plan = book.launch_or_focus(timeline_app_id());
    assert_eq!(plan.shelve_first, Some(counter_app_id()));
    assert!(matches!(plan.step, WindowStep::Spawn(_)));
    assert_eq!(book.focused_app(), None);

    let plan = book.launch_or_focus(counter_app_id());
    assert!(matches!(plan.step, WindowStep::Unshelve(_)));
    assert_eq!(book.focused_app(), Some(counter_app_id()));

    assert_eq!(book.go_home(), Some(counter_app_id()));
    assert_eq!(book.focused_app(), None);
    assert!(book.is_launched(counter_app_id()));
    book.note_exited(counter_app_id());
    assert!(!book.is_launched(counter_app_id()));
}

#[test]
fn failed_requests_are_answered_on_one_line() {
    assert_eq!(control_error_reply("no such app"), "error=no such app\n");
    assert_eq!(control_error_reply("spawn failed\nretry\n"), "error=spawn failed retry \n");
    assert_eq!(control_error_reply(""), "error=\n");
}

#[test]
fn extra_client_environment_is_split_at_the_first_equals() {
    let pairs = client_env_assignments("  A=1 B==2 =skip noequals C= D=x=y ");
    assert_eq!(
        pairs,
        vec![
            ("A".to_string(), "1".to_string()),
            ("B".to_string(), "=2".to_string()),
            ("C".to_string(), "".to_string()),
            ("D".to_string(), "x=y".to_string()),
        ]
    );
    assert!(client_env_assignments("").is_empty());
}

#[test]
fn launched_app_environment_in_order() {
    let app = counter_app();
    let steps = client_env_steps(Some((&app, "/bundles/counter.js".to_string())), None, "/run/ctl.sock", Some("X=1"));
    let rendered: Vec<(String, Option<String>)> = steps
        .into_iter()
        .map(|s| match s {
            EnvStep::Assign(k, v) => (k, Some(v)),
            EnvStep::Forward(k) => (k.to_string(), None),
        })
        .collect();
    let expect = |k: &str, v: Option<&str>| (k.to_string(), v.map(|v| v.to_string()));
    assert_eq!(
        rendered,
        vec![
            expect("XDG_RUNTIME_DIR", Some("/data/local/tmp/shadow-runtime")),
            expect("SHADOW_COMPOSITOR_CONTROL", Some("/run/ctl.sock")),
            expect("SHADOW_BLITZ_APP_TITLE", Some(app.window_title)),
            expect("SHADOW_BLITZ_WAYLAND_APP_ID", Some(app.wayland_app_id)),
            expect("SHADOW_RUNTIME_APP_BUNDLE_PATH", Some("/bundles/counter.js")),
            expect("SHADOW_RUNTIME_HOST_BINARY_PATH", None),
            expect("X", Some("1")),
            expect("SHADOW_GUEST_CLIENT_EXIT_ON_CONFIGURE", None),
            expect("SHADOW_GUEST_CLIENT_LINGER_MS", None),
        ]
    );
    let test_client = client_env_steps(None, Some("/tmp/rt".to_string()), "/c", None);
    assert_eq!(test_client.len(), 4);
    assert_eq!(
        missing_bundle_message(&app),
        format!("missing runtime bundle env {}", app.runtime_bundle_env)
    );
}
