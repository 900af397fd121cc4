use shadow_os::app::{counter_app, counter_app_id, find_app, podcast_app_id, timeline_app_id};
use shadow_os::shell::{
    NavAction, PointerButtonState, ShellAction, ShellEvent, ShellModel, ShellTarget, TileEmphasis,
};

#[test]
fn launch_tile_returns_launch_action() {
    let mut shell = ShellModel::new();

    assert_eq!(
        shell.handle(ShellEvent::Navigate(NavAction::Activate), 0),
        Some(ShellAction::Launch {
            app_id: counter_app_id(),
        })
    );
}

#[test]
fn navigation_reaches_timeline_with_two_apps() {
    let mut shell = ShellModel::new();

    assert_eq!(shell.focused_tile(), 0);
    assert_eq!(shell.handle(ShellEvent::Navigate(NavAction::Right), 0), None);
    assert_eq!(shell.focused_tile(), 1);
    assert_eq!(
        shell.handle(ShellEvent::Navigate(NavAction::Activate), 0),
        Some(ShellAction::Launch {
            app_id: timeline_app_id(),
        })
    );
}

#[test]
fn shell_home_requires_foreground_app() {
    let mut shell = ShellModel::new();
    assert_eq!(shell.handle(ShellEvent::Navigate(NavAction::Home), 0), None);

    shell.set_foreground_app(Some(counter_app_id()));
    assert_eq!(
        shell.handle(ShellEvent::Navigate(NavAction::Home), 0),
        Some(ShellAction::Home)
    );
}

#[test]
fn mod_home_requires_foreground_app() {
    let mut shell = ShellModel::new();
    assert_eq!(shell.handle(ShellEvent::Navigate(NavAction::Home), 0), None);

    shell.set_foreground_app(Some(counter_app_id()));
    assert_eq!(
        shell.handle(ShellEvent::Navigate(NavAction::Home), 0),
        Some(ShellAction::Home)
    );
}

#[test]
fn tracks_running_and_recent_apps() {
    let mut shell = ShellModel::new();
    shell.set_app_running(counter_app_id(), true);
    shell.set_foreground_app(Some(timeline_app_id()));

    assert!(shell.app_is_running(counter_app_id()));
    assert!(shell.app_is_running(timeline_app_id()));
    assert_eq!(shell.foreground_app(), Some(timeline_app_id()));
    assert_eq!(
        shell.recent_apps().as_slice(),
        &[timeline_app_id(), counter_app_id()]
    );
}

#[test]
fn arrows_clamp_and_tab_wraps() {
    let mut shell = ShellModel::new();
    assert_eq!(shell.handle(ShellEvent::Navigate(NavAction::Left), 0), None);
    assert_eq!(shell.focused_tile(), 0);
    assert_eq!(shell.handle(ShellEvent::Navigate(NavAction::Previous), 0), None);
    assert_eq!(shell.focused_tile(), 2);
    assert_eq!(shell.handle(ShellEvent::Navigate(NavAction::Next), 0), None);
    assert_eq!(shell.focused_tile(), 0);
}

#[test]
fn home_panel_texts_follow_the_running_apps() {
    let mut shell = ShellModel::new();
    assert_eq!(
        shell.panel_header(),
        (
            "Home stack".to_string(),
            "Launch an app when you want one. The shell stays resident here.".to_string()
        )
    );
    assert_eq!(shell.warm_apps_line(), None);

    shell.set_app_running(counter_app_id(), true);
    shell.set_app_running(timeline_app_id(), true);
    assert_eq!(
        shell.panel_header().1,
        "2 warm app(s) waiting. Relaunch resumes state."
    );
    assert_eq!(shell.warm_apps_line().as_deref(), Some("Warm apps: Timeline  \u{2022}  Counter"));

    shell.set_foreground_app(Some(timeline_app_id()));
    let counter = counter_app();
    let timeline = find_app(timeline_app_id()).unwrap();
    assert_eq!(
        shell.panel_header(),
        (
            format!("{} live", timeline.title),
            format!("Tap the pill or press Home to shelf it. {}", timeline.lifecycle_hint)
        )
    );
    assert_eq!(shell.tile_emphasis(1, timeline_app_id()), TileEmphasis::Foreground);
    assert_eq!(shell.tile_emphasis(0, counter.id), TileEmphasis::Plain);
}

#[test]
fn tile_emphasis_prefers_press_over_focus() {
    let mut shell = ShellModel::new();
    assert_eq!(shell.tile_emphasis(0, counter_app_id()), TileEmphasis::Focused);
    shell.handle(ShellEvent::PointerMoved { target: Some(ShellTarget::App(2)) }, 0);
    assert_eq!(shell.tile_emphasis(2, podcast_app_id()), TileEmphasis::Hovered);
    shell.handle(ShellEvent::PointerButton { state: PointerButtonState::Pressed, target: Some(ShellTarget::App(2)) }, 0);
    assert_eq!(shell.tile_emphasis(2, podcast_app_id()), TileEmphasis::Pressed);
    shell.handle(ShellEvent::PointerButton { state: PointerButtonState::Released, target: Some(ShellTarget::App(2)) }, 10);
    assert_eq!(shell.tile_emphasis(2, podcast_app_id()), TileEmphasis::Activated);
}
