use shadow_os::app::{
    app_id_from_wayland_app_id, auto_launch_app_id, binary_name_for, counter_app, counter_app_id,
    find_app, find_app_by_str, find_app_by_wayland_app_id, home_apps, podcast_app, podcast_app_id,
    shell_app_id, timeline_app, timeline_app_id, AppId, COUNTER_WAYLAND_APP_ID,
    PODCAST_WAYLAND_APP_ID, SHELL_WAYLAND_APP_ID, TIMELINE_WAYLAND_APP_ID,
};

#[test]
fn counter_app_lookup_round_trips() {
    let app = find_app(counter_app_id()).expect("counter app present");
    assert_eq!(app, counter_app());
    assert_eq!(counter_app_id().as_str(), "counter");
    assert_eq!(find_app_by_str("counter"), Some(counter_app()));
    assert_eq!(binary_name_for(counter_app_id()), Some("shadow-blitz-demo"));
    assert_eq!(app.icon_label, "01");
    assert!(app.lifecycle_hint.contains("live counter"));
    assert_eq!(
        app_id_from_wayland_app_id(COUNTER_WAYLAND_APP_ID),
        Some(counter_app_id())
    );
    assert_eq!(
        app_id_from_wayland_app_id(SHELL_WAYLAND_APP_ID),
        Some(shell_app_id())
    );
    assert_eq!(home_apps()[0].id, counter_app_id());
}

#[test]
fn timeline_app_lookup_round_trips() {
    let app = find_app(timeline_app_id()).expect("timeline app present");
    assert_eq!(app, timeline_app());
    assert_eq!(timeline_app_id().as_str(), "timeline");
    assert_eq!(find_app_by_str("timeline"), Some(timeline_app()));
    assert_eq!(binary_name_for(timeline_app_id()), Some("shadow-blitz-demo"));
    assert_eq!(app.icon_label, "TL");
    assert!(app.lifecycle_hint.contains("live draft"));
    assert_eq!(
        app_id_from_wayland_app_id(TIMELINE_WAYLAND_APP_ID),
        Some(timeline_app_id())
    );
    assert_eq!(home_apps()[1].id, timeline_app_id());
}

#[test]
fn podcast_app_lookup_round_trips() {
    let app = find_app(podcast_app_id()).expect("podcast app present");
    assert_eq!(app, podcast_app());
    assert_eq!(podcast_app_id().as_str(), "podcast");
    assert_eq!(find_app_by_str("podcast"), Some(podcast_app()));
    assert_eq!(binary_name_for(podcast_app_id()), Some("shadow-blitz-demo"));
    assert_eq!(app.icon_label, "NS");
    assert!(app.lifecycle_hint.contains("episode"));
    assert_eq!(
        app_id_from_wayland_app_id(PODCAST_WAYLAND_APP_ID),
        Some(podcast_app_id())
    );
    assert_eq!(home_apps()[2].id, podcast_app_id());
}

#[test]
fn auto_launch_app_id_defaults_to_counter() {
    assert_eq!(auto_launch_app_id(None), counter_app_id());
}

#[test]
fn auto_launch_app_id_accepts_runtime_apps() {
    assert_eq!(auto_launch_app_id(Some("timeline")), timeline_app_id());
    assert_eq!(auto_launch_app_id(Some("podcast")), podcast_app_id());
}

#[test]
fn auto_launch_app_id_ignores_unknown_and_shell() {
    assert_eq!(auto_launch_app_id(Some("shell")), counter_app_id());
    assert_eq!(auto_launch_app_id(Some("missing")), counter_app_id());
}

#[test]
fn unknown_ids_find_nothing() {
    assert_eq!(find_app(AppId::new("missing")), None);
    assert_eq!(find_app_by_str(""), None);
    assert_eq!(find_app_by_wayland_app_id("dev.shadow.missing"), None);
    assert_eq!(binary_name_for(AppId::new("missing")), None);
    assert_eq!(home_apps().len(), 3);
}
