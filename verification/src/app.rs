//! Registry of the demo apps that the shell can launch.
use crate::color::Color;
use crate::text::str_equal;
use vstd::prelude::*;

verus! {

/// Identifier of a launchable app; two ids are equal when their text is.
#[derive(Clone, Copy, Debug)]
pub struct AppId(pub &'static str);

impl View for AppId {
    type V = Seq<char>;

    open spec fn view(&self) -> Seq<char> {
        self.0@
    }
}

impl AppId {
    pub fn new(value: &'static str) -> (r: Self)
        ensures
            r@ == value@,
    {
        AppId(value)
    }

    pub fn as_str(self) -> (r: &'static str)
        ensures
            r@ == self@,
    {
        self.0
    }
}

impl PartialEq for AppId {
    fn eq(&self, other: &Self) -> (r: bool) {
        str_equal(self.0, other.0)
    }
}

impl Eq for AppId {}

impl vstd::std_specs::cmp::PartialEqSpecImpl for AppId {
    open spec fn obeys_eq_spec() -> bool {
        true
    }

    open spec fn eq_spec(&self, other: &AppId) -> bool {
        self@ == other@
    }
}

/// Everything the shell and the compositor know about one launchable app.
#[derive(Clone, Copy, Debug, PartialEq, Eq)]
pub struct DemoApp {
    pub id: AppId,
    pub icon_label: &'static str,
    pub title: &'static str,
    pub subtitle: &'static str,
    pub lifecycle_hint: &'static str,
    pub binary_name: &'static str,
    pub wayland_app_id: &'static str,
    pub window_title: &'static str,
    pub runtime_bundle_env: &'static str,
    pub runtime_input_path: &'static str,
    pub runtime_cache_dir: &'static str,
    pub icon_color: Color,
}

/// The text content of a [`DemoApp`].
pub struct DemoAppView {
    pub id: Seq<char>,
    pub icon_label: Seq<char>,
    pub title: Seq<char>,
    pub subtitle: Seq<char>,
    pub lifecycle_hint: Seq<char>,
    pub binary_name: Seq<char>,
    pub wayland_app_id: Seq<char>,
    pub window_title: Seq<char>,
    pub runtime_bundle_env: Seq<char>,
    pub runtime_input_path: Seq<char>,
    pub runtime_cache_dir: Seq<char>,
    pub icon_color: (u8, u8, u8, u8),
}

impl View for DemoApp {
    type V = DemoAppView;

    open spec fn view(&self) -> DemoAppView {
        DemoAppView {
            id: self.id@,
            icon_label: self.icon_label@,
            title: self.title@,
            subtitle: self.subtitle@,
            lifecycle_hint: self.lifecycle_hint@,
            binary_name: self.binary_name@,
            wayland_app_id: self.wayland_app_id@,
            window_title: self.window_title@,
            runtime_bundle_env: self.runtime_bundle_env@,
            runtime_input_path: self.runtime_input_path@,
            runtime_cache_dir: self.runtime_cache_dir@,
            icon_color: self.icon_color@,
        }
    }
}

pub const COUNTER_WAYLAND_APP_ID: &'static str = "dev.shadow.counter";
pub const COUNTER_WINDOW_TITLE: &'static str = "Shadow Counter";
pub const COUNTER_RUNTIME_BUNDLE_ENV: &'static str = "SHADOW_RUNTIME_APP_COUNTER_BUNDLE_PATH";
pub const COUNTER_RUNTIME_INPUT_PATH: &'static str = "runtime/app-counter/app.tsx";
pub const COUNTER_RUNTIME_CACHE_DIR: &'static str = "build/runtime/app-counter-host";
pub const TIMELINE_WAYLAND_APP_ID: &'static str = "dev.shadow.timeline";
pub const TIMELINE_WINDOW_TITLE: &'static str = "Shadow Timeline";
pub const TIMELINE_RUNTIME_BUNDLE_ENV: &'static str = "SHADOW_RUNTIME_APP_TIMELINE_BUNDLE_PATH";
pub const TIMELINE_RUNTIME_INPUT_PATH: &'static str = "runtime/app-nostr-timeline/app.tsx";
pub const TIMELINE_RUNTIME_CACHE_DIR: &'static str = "build/runtime/app-nostr-timeline-host";
pub const PODCAST_WAYLAND_APP_ID: &'static str = "dev.shadow.podcast";
pub const PODCAST_WINDOW_TITLE: &'static str = "No Solutions Player";
pub const PODCAST_RUNTIME_BUNDLE_ENV: &'static str = "SHADOW_RUNTIME_APP_PODCAST_BUNDLE_PATH";
pub const PODCAST_RUNTIME_INPUT_PATH: &'static str = "runtime/app-podcast-player/app.tsx";
pub const PODCAST_RUNTIME_CACHE_DIR: &'static str = "build/runtime/app-podcast-player-host";
pub const SHELL_WAYLAND_APP_ID: &'static str = "dev.shadow.shell";

pub open spec fn counter_id() -> Seq<char> {
    "counter"@
}

pub open spec fn timeline_id() -> Seq<char> {
    "timeline"@
}

pub open spec fn podcast_id() -> Seq<char> {
    "podcast"@
}

pub open spec fn shell_id() -> Seq<char> {
    "shell"@
}

pub fn counter_app_id() -> (r: AppId)
    ensures
        r@ == counter_id(),
{
    AppId("counter")
}

pub fn timeline_app_id() -> (r: AppId)
    ensures
        r@ == timeline_id(),
{
    AppId("timeline")
}

pub fn podcast_app_id() -> (r: AppId)
    ensures
        r@ == podcast_id(),
{
    AppId("podcast")
}

pub fn shell_app_id() -> (r: AppId)
    ensures
        r@ == shell_id(),
{
    AppId("shell")
}

pub open spec fn counter_app_view() -> DemoAppView {
    DemoAppView {
        id: counter_id(),
        icon_label: "01"@,
        title: "Counter"@,
        subtitle: "Counter demo"@,
        lifecycle_hint: "Shelving keeps the live counter warm until the app exits."@,
        binary_name: "shadow-blitz-demo"@,
        wayland_app_id: COUNTER_WAYLAND_APP_ID@,
        window_title: COUNTER_WINDOW_TITLE@,
        runtime_bundle_env: COUNTER_RUNTIME_BUNDLE_ENV@,
        runtime_input_path: COUNTER_RUNTIME_INPUT_PATH@,
        runtime_cache_dir: COUNTER_RUNTIME_CACHE_DIR@,
        icon_color: (0x5c, 0xd8, 0xf5, 0xff),
    }
}

pub open spec fn timeline_app_view() -> DemoAppView {
    DemoAppView {
        id: timeline_id(),
        icon_label: "TL"@,
        title: "Timeline"@,
        subtitle: "Local Nostr cache"@,
        lifecycle_hint: "Shelving keeps the live draft warm. Full restart reloads cached notes."@,
        binary_name: "shadow-blitz-demo"@,
        wayland_app_id: TIMELINE_WAYLAND_APP_ID@,
        window_title: TIMELINE_WINDOW_TITLE@,
        runtime_bundle_env: TIMELINE_RUNTIME_BUNDLE_ENV@,
        runtime_input_path: TIMELINE_RUNTIME_INPUT_PATH@,
        runtime_cache_dir: TIMELINE_RUNTIME_CACHE_DIR@,
        icon_color: (0xff, 0xa3, 0x45, 0xff),
    }
}

pub open spec fn podcast_app_view() -> DemoAppView {
    DemoAppView {
        id: podcast_id(),
        icon_label: "NS"@,
        title: "Podcast"@,
        subtitle: "No Solutions"@,
        lifecycle_hint: "Shelving keeps the current episode loaded until the player is released."@,
        binary_name: "shadow-blitz-demo"@,
        wayland_app_id: PODCAST_WAYLAND_APP_ID@,
        window_title: PODCAST_WINDOW_TITLE@,
        runtime_bundle_env: PODCAST_RUNTIME_BUNDLE_ENV@,
        runtime_input_path: PODCAST_RUNTIME_INPUT_PATH@,
        runtime_cache_dir: PODCAST_RUNTIME_CACHE_DIR@,
        icon_color: (0xff, 0x7f, 0xc8, 0xff),
    }
}

/// The apps on the home screen, in tile order.
pub open spec fn catalog() -> Seq<DemoAppView> {
    seq![counter_app_view(), timeline_app_view(), podcast_app_view()]
}

pub fn counter_app() -> (r: DemoApp)
    ensures
        r@ == counter_app_view(),
{
    DemoApp {
        id: AppId("counter"),
        icon_label: "01",
        title: "Counter",
        subtitle: "Counter demo",
        lifecycle_hint: "Shelving keeps the live counter warm until the app exits.",
        binary_name: "shadow-blitz-demo",
        wayland_app_id: COUNTER_WAYLAND_APP_ID,
        window_title: COUNTER_WINDOW_TITLE,
        runtime_bundle_env: COUNTER_RUNTIME_BUNDLE_ENV,
        runtime_input_path: COUNTER_RUNTIME_INPUT_PATH,
        runtime_cache_dir: COUNTER_RUNTIME_CACHE_DIR,
        icon_color: Color::rgba(0x5c, 0xd8, 0xf5, 0xff),
    }
}

pub fn timeline_app() -> (r: DemoApp)
    ensures
        r@ == timeline_app_view(),
{
    DemoApp {
        id: AppId("timeline"),
        icon_label: "TL",
        title: "Timeline",
        subtitle: "Local Nostr cache",
        lifecycle_hint: "Shelving keeps the live draft warm. Full restart reloads cached notes.",
        binary_name: "shadow-blitz-demo",
        wayland_app_id: TIMELINE_WAYLAND_APP_ID,
        window_title: TIMELINE_WINDOW_TITLE,
        runtime_bundle_env: TIMELINE_RUNTIME_BUNDLE_ENV,
        runtime_input_path: TIMELINE_RUNTIME_INPUT_PATH,
        runtime_cache_dir: TIMELINE_RUNTIME_CACHE_DIR,
        icon_color: Color::rgba(0xff, 0xa3, 0x45, 0xff),
    }
}

pub fn podcast_app() -> (r: DemoApp)
    ensures
        r@ == podcast_app_view(),
{
    DemoApp {
        id: AppId("podcast"),
        icon_label: "NS",
        title: "Podcast",
        subtitle: "No Solutions",
        lifecycle_hint: "Shelving keeps the current episode loaded until the player is released.",
        binary_name: "shadow-blitz-demo",
        wayland_app_id: PODCAST_WAYLAND_APP_ID,
        window_title: PODCAST_WINDOW_TITLE,
        runtime_bundle_env: PODCAST_RUNTIME_BUNDLE_ENV,
        runtime_input_path: PODCAST_RUNTIME_INPUT_PATH,
        runtime_cache_dir: PODCAST_RUNTIME_CACHE_DIR,
        icon_color: Color::rgba(0xff, 0x7f, 0xc8, 0xff),
    }
}

/// The home-screen apps in tile order.
pub fn home_apps() -> (r: Vec<DemoApp>)
    ensures
        r.len() == catalog().len(),
        forall|i: int| 0 <= i < r.len() ==> #[trigger] r[i]@ == catalog()[i],
{
    let mut apps = Vec::new();
    apps.push(counter_app());
    apps.push(timeline_app());
    apps.push(podcast_app());
    apps
}

/// Index of the first catalogue entry whose id is `id`.
pub open spec fn index_of_id(id: Seq<char>) -> Option<int> {
    if catalog()[0].id == id {
        Some(0)
    } else if catalog()[1].id == id {
        Some(1)
    } else if catalog()[2].id == id {
        Some(2)
    } else {
        None
    }
}

/// Index of the first catalogue entry whose Wayland app id is `value`.
pub open spec fn index_of_wayland_id(value: Seq<char>) -> Option<int> {
    if catalog()[0].wayland_app_id == value {
        Some(0)
    } else if catalog()[1].wayland_app_id == value {
        Some(1)
    } else if catalog()[2].wayland_app_id == value {
        Some(2)
    } else {
        None
    }
}

/// Every catalogue app is found again by its id and by its Wayland app id,
/// and none of them is mistaken for the shell.
pub proof fn lemma_catalog_round_trips(k: int)
    requires
        0 <= k < catalog().len(),
    ensures
        index_of_id(catalog()[k].id) == Some(k),
        index_of_wayland_id(catalog()[k].wayland_app_id) == Some(k),
        catalog()[k].wayland_app_id != SHELL_WAYLAND_APP_ID@,
        catalog()[k].id != shell_id(),
{
    reveal_strlit("counter");
    reveal_strlit("timeline");
    reveal_strlit("podcast");
    reveal_strlit("shell");
    reveal_strlit("dev.shadow.counter");
    reveal_strlit("dev.shadow.timeline");
    reveal_strlit("dev.shadow.podcast");
    reveal_strlit("dev.shadow.shell");
    assert("counter"@[0] != "podcast"@[0]);
    assert("dev.shadow.counter"@[11] != "dev.shadow.podcast"@[11]);
    assert("dev.shadow.counter"@[11] != "dev.shadow.shell"@[11]);
    assert("dev.shadow.podcast"@[11] != "dev.shadow.shell"@[11]);
    assert("shell"@.len() != "counter"@.len() && "shell"@.len() != "timeline"@.len() && "shell"@.len()
        != "podcast"@.len());
}

/// The catalogue entry at `index`, if any.
pub open spec fn entry_at(index: Option<int>) -> Option<DemoAppView> {
    match index {
        Some(i) => Some(catalog()[i]),
        None => None,
    }
}

pub open spec fn view_of(app: Option<DemoApp>) -> Option<DemoAppView> {
    match app {
        Some(a) => Some(a@),
        None => None,
    }
}

/// First index `i >= start` whose entry has id `id`.
spec fn first_id_from(start: int, id: Seq<char>) -> Option<int>
    decreases 3 - start,
{
    if start >= 3 {
        None
    } else if catalog()[start].id == id {
        Some(start)
    } else {
        first_id_from(start + 1, id)
    }
}

spec fn first_wayland_from(start: int, value: Seq<char>) -> Option<int>
    decreases 3 - start,
{
    if start >= 3 {
        None
    } else if catalog()[start].wayland_app_id == value {
        Some(start)
    } else {
        first_wayland_from(start + 1, value)
    }
}

/// The catalogue entry for `id`.
pub fn find_app(id: AppId) -> (r: Option<DemoApp>)
    ensures
        view_of(r) == entry_at(index_of_id(id@)),
{
    find_app_by_str(id.0)
}

/// The catalogue entry whose id reads `value`.
pub fn find_app_by_str(value: &str) -> (r: Option<DemoApp>)
    ensures
        view_of(r) == entry_at(index_of_id(value@)),
{
    let apps = home_apps();
    let mut i: usize = 0;
    proof {
        reveal_with_fuel(first_id_from, 4);
    }
    while i < apps.len()
        invariant
            apps.len() == 3,
            forall|k: int| 0 <= k < 3 ==> #[trigger] apps[k]@ == catalog()[k],
            0 <= i <= 3,
            first_id_from(0, value@) == first_id_from(i as int, value@),
            index_of_id(value@) == first_id_from(0, value@),
        decreases 3 - i,
    {
        assert(apps[i as int]@ == catalog()[i as int]);
        if str_equal(apps[i].id.0, value) {
            return Some(apps[i]);
        }
        assert(catalog()[i as int].id != value@);
        assert(first_id_from(i as int, value@) == first_id_from(i + 1, value@));
        i = i + 1;
    }
    None
}

/// The catalogue entry whose Wayland app id reads `value`.
pub fn find_app_by_wayland_app_id(value: &str) -> (r: Option<DemoApp>)
    ensures
        view_of(r) == entry_at(index_of_wayland_id(value@)),
{
    let apps = home_apps();
    let mut i: usize = 0;
    proof {
        reveal_with_fuel(first_wayland_from, 4);
    }
    while i < apps.len()
        invariant
            apps.len() == 3,
            forall|k: int| 0 <= k < 3 ==> #[trigger] apps[k]@ == catalog()[k],
            0 <= i <= 3,
            first_wayland_from(0, value@) == first_wayland_from(i as int, value@),
            index_of_wayland_id(value@) == first_wayland_from(0, value@),
        decreases 3 - i,
    {
        assert(apps[i as int]@ == catalog()[i as int]);
        if str_equal(apps[i].wayland_app_id, value) {
            return Some(apps[i]);
        }
        assert(catalog()[i as int].wayland_app_id != value@);
        assert(first_wayland_from(i as int, value@) == first_wayland_from(i + 1, value@));
        i = i + 1;
    }
    None
}

/// The app id behind a Wayland app id: the shell's own, or a catalogue entry's.
pub fn app_id_from_wayland_app_id(value: &str) -> (r: Option<AppId>)
    ensures
        value@ == SHELL_WAYLAND_APP_ID@ ==> r is Some && r->0@ == shell_id(),
        value@ != SHELL_WAYLAND_APP_ID@ ==> match index_of_wayland_id(value@) {
            Some(i) => r is Some && r->0@ == catalog()[i].id,
            None => r is None,
        },
{
    if str_equal(value, SHELL_WAYLAND_APP_ID) {
        return Some(shell_app_id());
    }
    match find_app_by_wayland_app_id(value) {
        Some(app) => Some(app.id),
        None => None,
    }
}

/// The executable that runs app `id`.
pub fn binary_name_for(id: AppId) -> (r: Option<&'static str>)
    ensures
        match index_of_id(id@) {
            Some(i) => r is Some && r->0@ == catalog()[i].binary_name,
            None => r is None,
        },
{
    match find_app(id) {
        Some(app) => Some(app.binary_name),
        None => None,
    }
}

/// The app to start when the compositor boots: the catalogue app named by
/// `requested` (the value of the start-app setting), unless that names no app or
/// the shell itself, in which case the counter.
pub fn auto_launch_app_id(requested: Option<&str>) -> (r: AppId)
    ensures
        r@ == match requested {
            Some(value) => match index_of_id(value@) {
                Some(i) => if catalog()[i].id == shell_id() {
                    counter_id()
                } else {
                    catalog()[i].id
                },
                None => counter_id(),
            },
            None => counter_id(),
        },
{
    match requested {
        Some(value) => match find_app_by_str(value) {
            Some(app) => {
                if app.id == shell_app_id() {
                    counter_app_id()
                } else {
                    app.id
                }
            },
            None => counter_app_id(),
        },
        None => counter_app_id(),
    }
}

} // verus!
