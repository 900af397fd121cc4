//! The home shell's interaction model: pointer and keyboard navigation over the
//! app grid, and the running / recent / foreground app bookkeeping.
use crate::app::{catalog, find_app, home_apps, index_of_id, AppId};
use crate::seqs::{
    lemma_without_contains, lemma_without_len, lemma_without_no_dups, without,
};
use vstd::prelude::*;

verus! {

/// Number of columns of the home grid.
pub const GRID_COLUMNS: usize = 4;
/// How long (milliseconds) an activated tile keeps its highlight.
pub const PRESS_FLASH_MS: u64 = 160;
/// How many apps the recent list keeps.
pub const RECENT_LIMIT: usize = 3;

#[derive(Clone, Copy, Debug, PartialEq, Eq, Structural)]
pub enum NavAction {
    Left,
    Right,
    Up,
    Down,
    Next,
    Previous,
    Activate,
    Home,
}

#[derive(Clone, Copy, Debug, PartialEq, Eq)]
pub enum PointerButtonState {
    Pressed,
    Released,
}

/// Something on the shell that a pointer can hit: an app tile by index, or the
/// home indicator.
#[derive(Clone, Copy, Debug, PartialEq, Eq, Structural)]
pub enum ShellTarget {
    App(usize),
    HomeIndicator,
}

/// Input to the shell.  Pointer events carry what the pointer is over (`None`
/// when nothing, or when there is no pointer), as found by the caller's hit test.
#[derive(Clone, Copy, Debug, PartialEq, Eq)]
pub enum ShellEvent {
    PointerMoved { target: Option<ShellTarget> },
    PointerLeft,
    PointerButton { state: PointerButtonState, target: Option<ShellTarget> },
    Navigate(NavAction),
}

#[derive(Clone, Copy, Debug, PartialEq, Eq)]
pub enum ShellAction {
    Launch { app_id: AppId },
    Home,
}

pub enum ShellActionView {
    Launch(Seq<char>),
    Home,
}

impl View for ShellAction {
    type V = ShellActionView;

    open spec fn view(&self) -> ShellActionView {
        match self {
            ShellAction::Launch { app_id } => ShellActionView::Launch(app_id@),
            ShellAction::Home => ShellActionView::Home,
        }
    }
}

pub open spec fn action_view(a: Option<ShellAction>) -> Option<ShellActionView> {
    match a {
        Some(x) => Some(x@),
        None => None,
    }
}

/// Battery, radio and clock labels shown in the status bar.
#[derive(Clone, Debug, PartialEq, Eq)]
pub struct ShellStatus {
    pub time_label: String,
    pub date_label: String,
    pub battery_percent: u8,
    pub wifi_strength: u8,
}

impl ShellStatus {
    /// The demo status bar for a clock showing `time_label` on
    /// `date_label`: battery at 78 percent, three bars of signal.
    pub fn demo(time_label: String, date_label: String) -> (r: Self)
        ensures
            r.time_label == time_label,
            r.date_label == date_label,
            r.battery_percent == 78,
            r.wifi_strength == 3,
    {
        ShellStatus { time_label, date_label, battery_percent: 78, wifi_strength: 3 }
    }
}

pub open spec fn ids(s: Seq<AppId>) -> Seq<Seq<char>> {
    s.map_values(|a: AppId| a@)
}

pub open spec fn opt_id(a: Option<AppId>) -> Option<Seq<char>> {
    match a {
        Some(x) => Some(x@),
        None => None,
    }
}

/// The abstract state of the shell.
pub struct ShellView {
    pub hovered: Option<ShellTarget>,
    pub pressed: Option<ShellTarget>,
    pub focused: int,
    pub last_activated: Option<(ShellTarget, u64)>,
    pub running: Seq<Seq<char>>,
    pub recent: Seq<Seq<char>>,
    pub foreground: Option<Seq<char>>,
}

pub struct ShellModel {
    hovered_target: Option<ShellTarget>,
    pressed_target: Option<ShellTarget>,
    focused_tile: usize,
    last_activated: Option<(ShellTarget, u64)>,
    running_apps: Vec<AppId>,
    recent_apps: Vec<AppId>,
    foreground_app: Option<AppId>,
}

impl View for ShellModel {
    type V = ShellView;

    closed spec fn view(&self) -> ShellView {
        ShellView {
            hovered: self.hovered_target,
            pressed: self.pressed_target,
            focused: self.focused_tile as int,
            last_activated: self.last_activated,
            running: ids(self.running_apps@),
            recent: ids(self.recent_apps@),
            foreground: opt_id(self.foreground_app),
        }
    }
}

/// Number of tiles on the home grid.
pub open spec fn tile_count() -> int {
    catalog().len() as int
}

pub open spec fn target_valid(t: Option<ShellTarget>) -> bool {
    t matches Some(ShellTarget::App(i)) ==> i < tile_count()
}

pub open spec fn event_valid(e: ShellEvent) -> bool {
    match e {
        ShellEvent::PointerMoved { target } => target_valid(target),
        ShellEvent::PointerButton { target, .. } => target_valid(target),
        _ => true,
    }
}

/// What every reachable shell state satisfies.
pub open spec fn shell_inv(s: ShellView) -> bool {
    &&& 0 <= s.focused < tile_count()
    &&& target_valid(s.hovered)
    &&& target_valid(s.pressed)
    &&& s.running.no_duplicates()
    &&& s.recent.no_duplicates()
    &&& s.recent.len() <= RECENT_LIMIT
    &&& s.foreground matches Some(id) ==> s.running.contains(id)
}

/// `id` moved (or added) to the front of the recent list, which keeps at most
/// three apps.
pub open spec fn touch_recent_spec(recent: Seq<Seq<char>>, id: Seq<char>) -> Seq<Seq<char>> {
    let t = seq![id] + without(recent, id);
    if t.len() > RECENT_LIMIT {
        t.take(RECENT_LIMIT as int)
    } else {
        t
    }
}

pub open spec fn clamp(v: int, lo: int, hi: int) -> int {
    if v < lo {
        lo
    } else if v > hi {
        hi
    } else {
        v
    }
}

/// The tile reached from `current` by moving `dx` columns and `dy` rows on the
/// grid, staying on the grid and on an existing tile.
pub open spec fn move_focus_spec(current: int, dx: int, dy: int) -> int {
    let count = tile_count();
    let cols = GRID_COLUMNS as int;
    if count <= 1 {
        0
    } else {
        let rows = (count + cols - 1) / cols;
        let col = current % cols;
        let row = current / cols;
        let next = clamp(row + dy, 0, rows - 1) * cols + clamp(col + dx, 0, cols - 1);
        if next < count - 1 {
            next
        } else {
            count - 1
        }
    }
}

/// The tile `delta` steps from `current` in tile order, wrapping around.
pub open spec fn wrap_index_spec(current: int, delta: int) -> int {
    let count = tile_count();
    if count <= 1 {
        0
    } else {
        (current + delta) % count
    }
}

/// Activating `t`: tiles launch their app (and make it the most recent), the home
/// indicator asks to go home when an app is in the foreground.
pub open spec fn activate_spec(s: ShellView, t: ShellTarget, now: u64) -> (
    ShellView,
    Option<ShellActionView>,
) {
    let s1 = ShellView { last_activated: Some((t, now)), ..s };
    match t {
        ShellTarget::App(i) => if 0 <= i < tile_count() {
            let id = catalog()[i as int].id;
            (
                ShellView { recent: touch_recent_spec(s.recent, id), ..s1 },
                Some(ShellActionView::Launch(id)),
            )
        } else {
            (s1, None)
        },
        ShellTarget::HomeIndicator => if s.foreground is Some {
            (s1, Some(ShellActionView::Home))
        } else {
            (s1, None)
        },
    }
}

/// The shell's response to one event at time `now` (milliseconds).
pub open spec fn handle_spec(s: ShellView, e: ShellEvent, now: u64) -> (
    ShellView,
    Option<ShellActionView>,
) {
    match e {
        ShellEvent::PointerMoved { target } => (ShellView { hovered: target, ..s }, None),
        ShellEvent::PointerLeft => (ShellView { hovered: None, pressed: None, ..s }, None),
        ShellEvent::PointerButton { state: PointerButtonState::Pressed, target } => (
            ShellView {
                pressed: target,
                focused: match target {
                    Some(ShellTarget::App(i)) => i as int,
                    _ => s.focused,
                },
                ..s
            },
            None,
        ),
        ShellEvent::PointerButton { state: PointerButtonState::Released, target } => {
            let s1 = ShellView { pressed: None, hovered: target, ..s };
            if target is Some && s.pressed == target {
                activate_spec(s1, target->0, now)
            } else {
                (s1, None)
            }
        },
        ShellEvent::Navigate(action) => match action {
            NavAction::Left => (ShellView { focused: move_focus_spec(s.focused, -1, 0), ..s }, None),
            NavAction::Right => (ShellView { focused: move_focus_spec(s.focused, 1, 0), ..s }, None),
            NavAction::Up => (ShellView { focused: move_focus_spec(s.focused, 0, -1), ..s }, None),
            NavAction::Down => (ShellView { focused: move_focus_spec(s.focused, 0, 1), ..s }, None),
            NavAction::Next => (ShellView { focused: wrap_index_spec(s.focused, 1), ..s }, None),
            NavAction::Previous => (
                ShellView { focused: wrap_index_spec(s.focused, -1), ..s },
                None,
            ),
            NavAction::Activate => activate_spec(s, ShellTarget::App(s.focused as usize), now),
            NavAction::Home => activate_spec(s, ShellTarget::HomeIndicator, now),
        },
    }
}

/// Marking `id` running (it joins the running list once and becomes the most
/// recent app) or not running (it leaves both lists and, if it was in the
/// foreground, the foreground).
pub open spec fn set_running_spec(s: ShellView, id: Seq<char>, running: bool) -> ShellView {
    if running {
        ShellView {
            running: if s.running.contains(id) {
                s.running
            } else {
                s.running.push(id)
            },
            recent: touch_recent_spec(s.recent, id),
            ..s
        }
    } else {
        ShellView {
            running: without(s.running, id),
            recent: without(s.recent, id),
            foreground: if s.foreground == Some(id) {
                None
            } else {
                s.foreground
            },
            ..s
        }
    }
}

/// Index of the home tile that shows app `id`.
pub open spec fn tile_index_spec(id: Seq<char>) -> Option<int> {
    crate::app::index_of_id(id)
}

pub open spec fn set_foreground_spec(s: ShellView, id: Option<Seq<char>>) -> ShellView {
    match id {
        Some(x) => {
            let s1 = set_running_spec(ShellView { foreground: Some(x), ..s }, x, true);
            match tile_index_spec(x) {
                Some(i) => ShellView { focused: i, ..s1 },
                None => s1,
            }
        },
        None => ShellView { foreground: None, ..s },
    }
}

fn contains_app(v: &Vec<AppId>, id: AppId) -> (r: bool)
    ensures
        r == ids(v@).contains(id@),
{
    let mut i: usize = 0;
    while i < v.len()
        invariant
            0 <= i <= v.len(),
            forall|k: int| 0 <= k < i ==> ids(v@)[k] != id@,
        decreases v.len() - i,
    {
        if v[i] == id {
            assert(ids(v@)[i as int] == id@);
            return true;
        }
        i = i + 1;
    }
    proof {
        if ids(v@).contains(id@) {
            let k = choose|k: int| 0 <= k < ids(v@).len() && ids(v@)[k] == id@;
        }
    }
    false
}

/// `v` with `id` added at the end.
fn with_app(v: &Vec<AppId>, id: AppId) -> (r: Vec<AppId>)
    ensures
        ids(r@) == ids(v@).push(id@),
{
    let mut out: Vec<AppId> = Vec::new();
    let mut i: usize = 0;
    while i < v.len()
        invariant
            0 <= i <= v.len(),
            out@ == v@.take(i as int),
        decreases v.len() - i,
    {
        out.push(v[i]);
        assert(out@ =~= v@.take(i + 1));
        i = i + 1;
    }
    out.push(id);
    assert(out@ =~= v@.push(id));
    assert(ids(out@) =~= ids(v@).push(id@));
    out
}

fn remove_app(v: &Vec<AppId>, id: AppId) -> (r: Vec<AppId>)
    ensures
        ids(r@) == without(ids(v@), id@),
{
    let mut out: Vec<AppId> = Vec::new();
    let mut i: usize = 0;
    assert(ids(v@).take(0) =~= seq![]);
    assert(ids(out@) =~= seq![]);
    while i < v.len()
        invariant
            0 <= i <= v.len(),
            ids(out@) == without(ids(v@).take(i as int), id@),
        decreases v.len() - i,
    {
        let ghost before = ids(out@);
        assert(ids(v@).take(i + 1).drop_last() =~= ids(v@).take(i as int));
        assert(ids(v@).take(i + 1).last() == v[i as int]@);
        if !(v[i] == id) {
            out.push(v[i]);
            assert(ids(out@) =~= before.push(v[i as int]@));
        }
        i = i + 1;
    }
    assert(ids(v@).take(v.len() as int) =~= ids(v@));
    out
}

proof fn lemma_touch_recent(recent: Seq<Seq<char>>, id: Seq<char>)
    requires
        recent.no_duplicates(),
    ensures
        touch_recent_spec(recent, id).no_duplicates(),
        touch_recent_spec(recent, id).len() <= RECENT_LIMIT,
        touch_recent_spec(recent, id)[0] == id,
{
    let w = without(recent, id);
    lemma_without_no_dups(recent, id);
    lemma_without_contains(recent, id, id);
    let t = seq![id] + w;
    assert forall|i: int, j: int| 0 <= i < t.len() && 0 <= j < t.len() && i != j implies t[i]
        != t[j] by {
        if i == 0 {
            assert(t[j] == w[j - 1]);
        } else if j == 0 {
            assert(t[i] == w[i - 1]);
        } else {
            assert(t[i] == w[i - 1] && t[j] == w[j - 1]);
        }
    }
    if t.len() > RECENT_LIMIT {
        let u = t.take(RECENT_LIMIT as int);
        assert forall|i: int, j: int| 0 <= i < u.len() && 0 <= j < u.len() && i != j implies u[i]
            != u[j] by {
            assert(u[i] == t[i] && u[j] == t[j]);
        }
    }
}

proof fn lemma_set_running_inv(s: ShellView, id: Seq<char>, running: bool)
    requires
        shell_inv(s),
    ensures
        shell_inv(set_running_spec(s, id, running)),
{
    lemma_touch_recent(s.recent, id);
    lemma_without_no_dups(s.running, id);
    lemma_without_no_dups(s.recent, id);
    lemma_without_len(s.recent, id);
    let r = set_running_spec(s, id, running);
    if running {
        if !s.running.contains(id) {
            let p = s.running.push(id);
            assert forall|i: int, j: int| 0 <= i < p.len() && 0 <= j < p.len() && i != j implies p[i]
                != p[j] by {
                if i == s.running.len() {
                    assert(p[j] == s.running[j]);
                } else if j == s.running.len() {
                    assert(p[i] == s.running[i]);
                } else {
                    assert(p[i] == s.running[i] && p[j] == s.running[j]);
                }
            }
            if s.foreground is Some {
                let f = s.foreground->0;
                let k = choose|k: int| 0 <= k < s.running.len() && s.running[k] == f;
                assert(p[k] == f);
            }
        }
    } else {
        if let Some(f) = r.foreground {
            lemma_without_contains(s.running, id, f);
        }
    }
}

proof fn lemma_activate_inv(s: ShellView, t: ShellTarget, now: u64)
    requires
        shell_inv(s),
    ensures
        shell_inv(activate_spec(s, t, now).0),
{
    if let ShellTarget::App(i) = t {
        if 0 <= i < tile_count() {
            lemma_touch_recent(s.recent, catalog()[i as int].id);
        }
    }
}

proof fn lemma_move_focus(current: int, dx: int, dy: int)
    requires
        0 <= current < tile_count(),
    ensures
        0 <= move_focus_spec(current, dx, dy) < tile_count(),
{
}

proof fn lemma_wrap_index(current: int, delta: int)
    requires
        0 <= current < tile_count(),
    ensures
        0 <= wrap_index_spec(current, delta) < tile_count(),
{
}

/// Every event keeps the shell's invariant.
pub proof fn lemma_handle_preserves_inv(s: ShellView, e: ShellEvent, now: u64)
    requires
        shell_inv(s),
        event_valid(e),
    ensures
        shell_inv(handle_spec(s, e, now).0),
{
    lemma_move_focus(s.focused, -1, 0);
    lemma_move_focus(s.focused, 1, 0);
    lemma_move_focus(s.focused, 0, -1);
    lemma_move_focus(s.focused, 0, 1);
    lemma_wrap_index(s.focused, 1);
    lemma_wrap_index(s.focused, -1);
    match e {
        ShellEvent::PointerButton { state: PointerButtonState::Released, target } => {
            let s1 = ShellView { pressed: None, hovered: target, ..s };
            if target is Some {
                lemma_activate_inv(s1, target->0, now);
            }
        },
        ShellEvent::Navigate(NavAction::Activate) => {
            lemma_activate_inv(s, ShellTarget::App(s.focused as usize), now);
        },
        ShellEvent::Navigate(NavAction::Home) => {
            lemma_activate_inv(s, ShellTarget::HomeIndicator, now);
        },
        _ => {},
    }
}

/// Marking apps running or not, and choosing the foreground app, keep the
/// shell's invariant.
pub proof fn lemma_bookkeeping_preserves_inv(s: ShellView, id: Seq<char>, running: bool)
    requires
        shell_inv(s),
    ensures
        shell_inv(set_running_spec(s, id, running)),
        shell_inv(set_foreground_spec(s, Some(id))),
        shell_inv(set_foreground_spec(s, None)),
{
    lemma_set_running_inv(s, id, running);
    let s0 = ShellView { foreground: Some(id), ..s };
    let s1 = set_running_spec(s0, id, true);
    lemma_touch_recent(s.recent, id);
    if !s.running.contains(id) {
        let p = s.running.push(id);
        assert(p[s.running.len() as int] == id);
        assert forall|i: int, j: int| 0 <= i < p.len() && 0 <= j < p.len() && i != j implies p[i]
            != p[j] by {
            if i == s.running.len() {
                assert(p[j] == s.running[j]);
            } else if j == s.running.len() {
                assert(p[i] == s.running[i]);
            } else {
                assert(p[i] == s.running[i] && p[j] == s.running[j]);
            }
        }
    }
    if let Some(i) = tile_index_spec(id) {
        assert(0 <= i < tile_count());
    }
}

impl ShellModel {
    /// The model is always well formed.
    #[verifier::type_invariant]
    closed spec fn wf(self) -> bool {
        shell_inv(self@)
    }

    pub fn new() -> (r: Self)
        ensures
            r@.hovered is None,
            r@.pressed is None,
            r@.focused == 0,
            r@.last_activated is None,
            r@.running == Seq::<Seq<char>>::empty(),
            r@.recent == Seq::<Seq<char>>::empty(),
            r@.foreground is None,
    {
        let r = ShellModel {
            hovered_target: None,
            pressed_target: None,
            focused_tile: first_launchable_tile(),
            last_activated: None,
            running_apps: Vec::new(),
            recent_apps: Vec::new(),
            foreground_app: None,
        };
        assert(ids(r.running_apps@) =~= Seq::<Seq<char>>::empty());
        assert(ids(r.recent_apps@) =~= Seq::<Seq<char>>::empty());
        r
    }

    fn touch_recent(&mut self, app_id: AppId)
        ensures
            ids(final(self).recent_apps@) == touch_recent_spec(ids(old(self).recent_apps@), app_id@),
            final(self).running_apps == old(self).running_apps,
            final(self).hovered_target == old(self).hovered_target,
            final(self).pressed_target == old(self).pressed_target,
            final(self).focused_tile == old(self).focused_tile,
            final(self).last_activated == old(self).last_activated,
            final(self).foreground_app == old(self).foreground_app,
    {
        proof {
            use_type_invariant(&*self);
            lemma_touch_recent(ids(self.recent_apps@), app_id@);
        }
        let mut recent = remove_app(&self.recent_apps, app_id);
        let ghost w = ids(recent@);
        recent.insert(0, app_id);
        assert(ids(recent@) =~= seq![app_id@] + w);
        if recent.len() > RECENT_LIMIT {
            recent.truncate(RECENT_LIMIT);
            assert(ids(recent@) =~= (seq![app_id@] + w).take(RECENT_LIMIT as int));
        }
        self.recent_apps = recent;
    }

    fn activate_target(&mut self, target: ShellTarget, now_ms: u64) -> (r: Option<ShellAction>)
        ensures
            (final(self)@, action_view(r)) == activate_spec(old(self)@, target, now_ms),
    {
        proof {
            use_type_invariant(&*self);
        }
        self.last_activated = Some((target, now_ms));
        match target {
            ShellTarget::App(index) => {
                let apps = home_apps();
                if index < apps.len() {
                    let app_id = apps[index].id;
                    assert(app_id@ == catalog()[index as int].id) by {
                        assert(apps[index as int]@ == catalog()[index as int]);
                    }
                    self.touch_recent(app_id);
                    Some(ShellAction::Launch { app_id })
                } else {
                    None
                }
            },
            ShellTarget::HomeIndicator => {
                if self.foreground_app.is_some() {
                    Some(ShellAction::Home)
                } else {
                    None
                }
            },
        }
    }

    /// Applies one input event at time `now_ms`; returns what the compositor
    /// should do, if anything.
    pub fn handle(&mut self, event: ShellEvent, now_ms: u64) -> (r: Option<ShellAction>)
        requires
            event_valid(event),
        ensures
            (final(self)@, action_view(r)) == handle_spec(old(self)@, event, now_ms),
            event matches ShellEvent::PointerButton { state: PointerButtonState::Released, target: Some(ShellTarget::App(i)) }
                ==> (old(self)@.pressed == Some(ShellTarget::App(i)) ==> (r matches Some(ShellAction::Launch { app_id })
                && app_id@ == catalog()[i as int].id)),
    {
        proof {
            use_type_invariant(&*self);
        }
        proof {
            lemma_handle_preserves_inv(self@, event, now_ms);
        }
        match event {
            ShellEvent::PointerMoved { target } => {
                self.hovered_target = target;
                None
            },
            ShellEvent::PointerLeft => {
                self.hovered_target = None;
                self.pressed_target = None;
                None
            },
            ShellEvent::PointerButton { state: PointerButtonState::Pressed, target } => {
                self.pressed_target = target;
                if let Some(ShellTarget::App(index)) = target {
                    self.focused_tile = index;
                }
                None
            },
            ShellEvent::PointerButton { state: PointerButtonState::Released, target } => {
                let pressed = self.pressed_target;
                self.pressed_target = None;
                self.hovered_target = target;
                match (pressed, target) {
                    (Some(lhs), Some(rhs)) => {
                        if lhs == rhs {
                            self.activate_target(rhs, now_ms)
                        } else {
                            None
                        }
                    },
                    _ => None,
                }
            },
            ShellEvent::Navigate(action) => self.navigate(action, now_ms),
        }
    }

    fn navigate(&mut self, action: NavAction, now_ms: u64) -> (r: Option<ShellAction>)
        ensures
            (final(self)@, action_view(r)) == handle_spec(
                old(self)@,
                ShellEvent::Navigate(action),
                now_ms,
            ),
    {
        proof {
            use_type_invariant(&*self);
        }
        match action {
            NavAction::Left => {
                self.focused_tile = move_focus(self.focused_tile, -1, 0);
                None
            },
            NavAction::Right => {
                self.focused_tile = move_focus(self.focused_tile, 1, 0);
                None
            },
            NavAction::Up => {
                self.focused_tile = move_focus(self.focused_tile, 0, -1);
                None
            },
            NavAction::Down => {
                self.focused_tile = move_focus(self.focused_tile, 0, 1);
                None
            },
            NavAction::Next => {
                self.focused_tile = wrap_index(self.focused_tile, true);
                None
            },
            NavAction::Previous => {
                self.focused_tile = wrap_index(self.focused_tile, false);
                None
            },
            NavAction::Activate => self.activate_target(ShellTarget::App(self.focused_tile), now_ms),
            NavAction::Home => self.activate_target(ShellTarget::HomeIndicator, now_ms),
        }
    }

    /// Drops the activation highlight once it is older than the flash time.
    pub fn trim_expired_flash(&mut self, now_ms: u64)
        ensures
            final(self)@ == (match old(self)@.last_activated {
                Some((_, at)) => if now_ms >= at && now_ms - at >= PRESS_FLASH_MS {
                    ShellView { last_activated: None, ..old(self)@ }
                } else {
                    old(self)@
                },
                None => old(self)@,
            }),
    {
        proof {
            use_type_invariant(&*self);
        }
        if let Some((_, at)) = self.last_activated {
            if now_ms >= at && now_ms - at >= PRESS_FLASH_MS {
                self.last_activated = None;
            }
        }
    }

    /// Records that `app_id` started (`running`) or exited.
    pub fn set_app_running(&mut self, app_id: AppId, running: bool)
        ensures
            final(self)@ == set_running_spec(old(self)@, app_id@, running),
    {
        proof {
            use_type_invariant(&*self);
        }
        proof {
            lemma_set_running_inv(self@, app_id@, running);
        }
        if running {
            self.set_app_running_unchecked(app_id);
        } else {
            let is_foreground = match self.foreground_app {
                Some(current) => current == app_id,
                None => false,
            };
            if is_foreground {
                self.foreground_app = None;
            }
            proof {
                let s = old(self)@;
                lemma_without_no_dups(s.running, app_id@);
                lemma_without_no_dups(s.recent, app_id@);
                lemma_without_len(s.recent, app_id@);
                if let Some(f) = self@.foreground {
                    lemma_without_contains(s.running, app_id@, f);
                }
            }
            self.running_apps = remove_app(&self.running_apps, app_id);
            self.recent_apps = remove_app(&self.recent_apps, app_id);
        }
    }

    /// Makes `app_id` the foreground app (it counts as running and gets the
    /// focus), or clears the foreground.
    pub fn set_foreground_app(&mut self, app_id: Option<AppId>)
        ensures
            final(self)@ == set_foreground_spec(old(self)@, opt_id(app_id)),
    {
        proof {
            use_type_invariant(&*self);
        }
        proof {
            if let Some(x) = app_id {
                lemma_bookkeeping_preserves_inv(self@, x@, true);
            } else {
                lemma_bookkeeping_preserves_inv(self@, seq![], true);
            }
        }
        if let Some(id) = app_id {
            self.set_app_running_unchecked(id);
        }
        self.foreground_app = app_id;
        if let Some(id) = app_id {
            if let Some(index) = tile_index_for_app(id) {
                self.focused_tile = index;
            }
        }
    }

    fn set_app_running_unchecked(&mut self, app_id: AppId)
        ensures
            final(self)@ == set_running_spec(old(self)@, app_id@, true),
    {
        proof {
            use_type_invariant(&*self);
        }
        proof {
            lemma_set_running_inv(self@, app_id@, true);
        }
        if !contains_app(&self.running_apps, app_id) {
            self.running_apps = with_app(&self.running_apps, app_id);
        }
        self.touch_recent(app_id);
    }

    pub fn foreground_app(&self) -> (r: Option<AppId>)
        ensures
            opt_id(r) == self@.foreground,
    {
        proof {
            use_type_invariant(self);
        }
        self.foreground_app
    }

    pub fn running_apps(&self) -> (r: &Vec<AppId>)
        ensures
            ids(r@) == self@.running,
    {
        proof {
            use_type_invariant(self);
        }
        &self.running_apps
    }

    pub fn recent_apps(&self) -> (r: &Vec<AppId>)
        ensures
            ids(r@) == self@.recent,
    {
        proof {
            use_type_invariant(self);
        }
        &self.recent_apps
    }

    pub fn focused_tile(&self) -> (r: usize)
        ensures
            r == self@.focused,
    {
        proof {
            use_type_invariant(self);
        }
        self.focused_tile
    }

    pub fn hovered_target(&self) -> (r: Option<ShellTarget>)
        ensures
            r == self@.hovered,
    {
        proof {
            use_type_invariant(self);
        }
        self.hovered_target
    }

    pub fn pressed_target(&self) -> (r: Option<ShellTarget>)
        ensures
            r == self@.pressed,
    {
        proof {
            use_type_invariant(self);
        }
        self.pressed_target
    }

    /// The target activated last, while its highlight lasts.
    pub fn last_activated(&self) -> (r: Option<ShellTarget>)
        ensures
            r == match self@.last_activated {
                Some((t, _)) => Some(t),
                None => None,
            },
    {
        proof {
            use_type_invariant(self);
        }
        match self.last_activated {
            Some((t, _)) => Some(t),
            None => None,
        }
    }

    pub fn app_is_running(&self, app_id: AppId) -> (r: bool)
        ensures
            r == self@.running.contains(app_id@),
    {
        proof {
            use_type_invariant(self);
        }
        contains_app(&self.running_apps, app_id)
    }

    pub fn app_is_foreground(&self, app_id: AppId) -> (r: bool)
        ensures
            r == (self@.foreground == Some(app_id@)),
    {
        proof {
            use_type_invariant(self);
        }
        match self.foreground_app {
            Some(current) => current == app_id,
            None => false,
        }
    }

    /// The home indicator is lit while an app is in the foreground.
    pub fn home_indicator_active(&self) -> (r: bool)
        ensures
            r == self@.foreground is Some,
    {
        proof {
            use_type_invariant(self);
        }
        self.foreground_app.is_some()
    }

    /// Titles of the recent apps that are in the catalogue, most recent first.
    pub fn recent_app_titles(&self) -> (r: Vec<&'static str>)
        ensures
            crate::text::views_of(r@) == titles_of(self@.recent),
    {
        proof {
            use_type_invariant(self);
        }
        let mut titles: Vec<&'static str> = Vec::new();
        let mut i: usize = 0;
        assert(ids(self.recent_apps@).take(0) =~= seq![]);
        assert(crate::text::views_of(titles@) =~= seq![]);
        while i < self.recent_apps.len()
            invariant
                0 <= i <= self.recent_apps.len(),
                crate::text::views_of(titles@) == titles_of(ids(self.recent_apps@).take(i as int)),
            decreases self.recent_apps.len() - i,
        {
            let ghost before = crate::text::views_of(titles@);
            assert(ids(self.recent_apps@).take(i + 1).drop_last() =~= ids(self.recent_apps@).take(
                i as int,
            ));
            assert(ids(self.recent_apps@).take(i + 1).last() == self.recent_apps@[i as int]@);
            if let Some(app) = find_app(self.recent_apps[i]) {
                titles.push(app.title);
                assert(crate::text::views_of(titles@) =~= before.push(app.title@));
            }
            i = i + 1;
        }
        assert(ids(self.recent_apps@).take(self.recent_apps.len() as int) =~= ids(
            self.recent_apps@,
        ));
        titles
    }
}

/// The catalogue titles of the apps in `s`, in order, skipping unknown ids.
pub open spec fn titles_of(s: Seq<Seq<char>>) -> Seq<Seq<char>>
    decreases s.len(),
{
    if s.len() == 0 {
        seq![]
    } else {
        let t = titles_of(s.drop_last());
        match crate::app::index_of_id(s.last()) {
            Some(k) => t.push(catalog()[k].title),
            None => t,
        }
    }
}

fn first_launchable_tile() -> (r: usize)
    ensures
        r == 0,
{
    0
}

/// The home tile that shows app `app_id`.
fn tile_index_for_app(app_id: AppId) -> (r: Option<usize>)
    ensures
        match tile_index_spec(app_id@) {
            Some(i) => r == Some(i as usize),
            None => r is None,
        },
{
    let apps = home_apps();
    let mut i: usize = 0;
    while i < apps.len()
        invariant
            apps.len() == 3,
            forall|k: int| 0 <= k < 3 ==> #[trigger] apps[k]@ == catalog()[k],
            0 <= i <= 3,
            forall|k: int| 0 <= k < i ==> catalog()[k].id != app_id@,
        decreases 3 - i,
    {
        assert(apps[i as int]@ == catalog()[i as int]);
        if apps[i].id == app_id {
            return Some(i);
        }
        i = i + 1;
    }
    None
}

fn move_focus(current: usize, dx: isize, dy: isize) -> (r: usize)
    requires
        current < 3,
        -1 <= dx <= 1,
        -1 <= dy <= 1,
    ensures
        r == move_focus_spec(current as int, dx as int, dy as int),
{
    let app_count = home_apps().len();
    if app_count <= 1 {
        return 0;
    }
    let cols = GRID_COLUMNS as isize;
    let rows = ((app_count + GRID_COLUMNS - 1) / GRID_COLUMNS) as isize;
    let col = current as isize % cols;
    let row = current as isize / cols;
    let mut next_col = col + dx;
    if next_col < 0 {
        next_col = 0;
    } else if next_col > cols - 1 {
        next_col = cols - 1;
    }
    let mut next_row = row + dy;
    if next_row < 0 {
        next_row = 0;
    } else if next_row > rows - 1 {
        next_row = rows - 1;
    }
    let next = (next_row * cols + next_col) as usize;
    if next < app_count - 1 {
        next
    } else {
        app_count - 1
    }
}

fn wrap_index(current: usize, forward: bool) -> (r: usize)
    requires
        current < 3,
    ensures
        r == wrap_index_spec(current as int, if forward { 1 } else { -1 }),
{
    let len = home_apps().len();
    if len <= 1 {
        return 0;
    }
    assert(len == 3);
    if forward {
        (current + 1) % len
    } else {
        assert(current == 0 || current == 1 || current == 2);
        assert((current + 3 - 1) % 3 == (current as int - 1) % 3) by {
            if current == 0 {
                assert((0int - 1) % 3 == 2);
            }
        }
        (current + len - 1) % len
    }
}


/// How strongly a home tile is emphasised, strongest first: pressed, the
/// foreground app, just activated, keyboard focus, hovered, or not at all.
#[derive(Clone, Copy, Debug, PartialEq, Eq, Structural)]
pub enum TileEmphasis {
    Pressed,
    Foreground,
    Activated,
    Focused,
    Hovered,
    Plain,
}

/// The emphasis of tile `index` showing app `id` in state `s`.
pub open spec fn tile_emphasis_spec(s: ShellView, index: int, id: Seq<char>) -> TileEmphasis {
    let t = Some(ShellTarget::App(index as usize));
    if s.pressed == t {
        TileEmphasis::Pressed
    } else if s.foreground == Some(id) {
        TileEmphasis::Foreground
    } else if (match s.last_activated {
        Some((a, _)) => Some(a),
        None => None,
    }) == t {
        TileEmphasis::Activated
    } else if s.focused == index {
        TileEmphasis::Focused
    } else if s.hovered == t {
        TileEmphasis::Hovered
    } else {
        TileEmphasis::Plain
    }
}

/// `parts` joined with `sep` between them.
pub open spec fn joined(parts: Seq<Seq<char>>, sep: Seq<char>) -> Seq<char>
    decreases parts.len(),
{
    if parts.len() == 0 {
        Seq::empty()
    } else if parts.len() == 1 {
        parts[0]
    } else {
        joined(parts.drop_last(), sep) + sep + parts.last()
    }
}

/// The headline and detail line above the home grid.
pub open spec fn panel_header_spec(s: ShellView) -> (Seq<char>, Seq<char>) {
    match s.foreground {
        Some(id) => {
            let app = catalog()[index_of_id(id)->0];
            (app.title + " live"@, "Tap the pill or press Home to shelf it. "@ + app.lifecycle_hint)
        },
        None => if s.running.len() == 0 {
            ("Home stack"@, "Launch an app when you want one. The shell stays resident here."@)
        } else {
            (
                "Home stack"@,
                crate::text::decimal_text(s.running.len()) + " warm app(s) waiting. Relaunch resumes state."@,
            )
        },
    }
}

impl ShellModel {
    /// The emphasis of tile `index`, which shows app `app_id`.
    pub fn tile_emphasis(&self, index: usize, app_id: AppId) -> (r: TileEmphasis)
        ensures
            r == tile_emphasis_spec(self@, index as int, app_id@),
    {
        proof {
            use_type_invariant(self);
        }
        let t = Some(ShellTarget::App(index));
        if self.pressed_target == t {
            TileEmphasis::Pressed
        } else if self.app_is_foreground(app_id) {
            TileEmphasis::Foreground
        } else if self.last_activated() == t {
            TileEmphasis::Activated
        } else if self.focused_tile == index {
            TileEmphasis::Focused
        } else if self.hovered_target == t {
            TileEmphasis::Hovered
        } else {
            TileEmphasis::Plain
        }
    }

    /// The headline and detail line above the home grid: the foreground
    /// app and how to shelf it, else the home stack and how many apps are
    /// warm.
    pub fn panel_header(&self) -> (r: (String, String))
        requires
            self@.foreground matches Some(id) ==> index_of_id(id) is Some,
        ensures
            (r.0@, r.1@) == panel_header_spec(self@),
    {
        proof {
            use_type_invariant(self);
        }
        match self.foreground_app {
            Some(id) => {
                let app = match find_app(id) {
                    Some(a) => a,
                    None => {
                        assert(false);
                        return (String::new(), String::new());
                    },
                };
                let mut headline = String::from_str(app.title);
                headline.append(" live");
                let mut detail = String::from_str("Tap the pill or press Home to shelf it. ");
                detail.append(app.lifecycle_hint);
                (headline, detail)
            },
            None => {
                if self.running_apps.len() == 0 {
                    (
                        String::from_str("Home stack"),
                        String::from_str("Launch an app when you want one. The shell stays resident here."),
                    )
                } else {
                    let mut detail = String::new();
                    crate::text::append_decimal(&mut detail, self.running_apps.len() as u64);
                    detail.append(" warm app(s) waiting. Relaunch resumes state.");
                    (String::from_str("Home stack"), detail)
                }
            },
        }
    }

    /// The line under the clock naming the warm apps, most recent first;
    /// `None` when there are none.
    pub fn warm_apps_line(&self) -> (r: Option<String>)
        ensures
            titles_of(self@.recent).len() == 0 ==> r is None,
            titles_of(self@.recent).len() > 0 ==> (r matches Some(line) && line@ == "Warm apps: "@ + joined(
                titles_of(self@.recent),
                "  \u{2022}  "@,
            )),
    {
        proof {
            use_type_invariant(self);
        }
        let titles = self.recent_app_titles();
        if titles.len() == 0 {
            return None;
        }
        let ghost parts = crate::text::views_of(titles@);
        let mut line = String::from_str("Warm apps: ");
        line.append(titles[0]);
        let mut i: usize = 1;
        assert(parts.take(1) =~= seq![parts[0]]);
        while i < titles.len()
            invariant
                parts == crate::text::views_of(titles@),
                1 <= i <= titles@.len(),
                line@ == "Warm apps: "@ + joined(parts.take(i as int), "  \u{2022}  "@),
            decreases titles@.len() - i,
        {
            line.append("  \u{2022}  ");
            line.append(titles[i]);
            assert(parts.take(i + 1).drop_last() =~= parts.take(i as int));
            i = i + 1;
        }
        assert(parts.take(titles@.len() as int) =~= parts);
        Some(line)
    }
}

/// The home key asks to go home exactly when an app is in the foreground.
pub proof fn lemma_home_needs_foreground(s: ShellView, now: u64)
    ensures
        handle_spec(s, ShellEvent::Navigate(NavAction::Home), now).1 == (if s.foreground is Some {
            Some(ShellActionView::Home)
        } else {
            None::<ShellActionView>
        }),
{
}

/// Activating launches the app of the focused tile, which becomes the
/// most recent app.
pub proof fn lemma_activate_launches_focused(s: ShellView, now: u64)
    requires
        shell_inv(s),
    ensures
        ({
            let (s2, action) = handle_spec(s, ShellEvent::Navigate(NavAction::Activate), now);
            let id = catalog()[s.focused].id;
            &&& action == Some(ShellActionView::Launch(id))
            &&& s2.recent.len() >= 1
            &&& s2.recent[0] == id
            &&& s2.focused == s.focused
        }),
{
    let id = catalog()[s.focused].id;
    let t = seq![id] + without(s.recent, id);
    assert(t[0] == id);
}

/// Tapping a tile, a press and a release on the same tile, launches that
/// tile's app: the press only arms and focuses the tile, and the release
/// asks for the app, puts it first among the recent apps and disarms.
/// Releasing over another target launches nothing.
pub proof fn lemma_tap_launches_tile(s: ShellView, i: usize, other: Option<ShellTarget>, t1: u64, t2: u64)
    requires
        shell_inv(s),
        i < tile_count(),
        other != Some(ShellTarget::App(i)),
    ensures
        ({
            let press = ShellEvent::PointerButton { state: PointerButtonState::Pressed, target: Some(ShellTarget::App(i)) };
            let release = ShellEvent::PointerButton { state: PointerButtonState::Released, target: Some(ShellTarget::App(i)) };
            let (s1, a1) = handle_spec(s, press, t1);
            let (s2, a2) = handle_spec(s1, release, t2);
            let id = catalog()[i as int].id;
            &&& a1 is None
            &&& s1.pressed == Some(ShellTarget::App(i))
            &&& s1.focused == i
            &&& a2 == Some(ShellActionView::Launch(id))
            &&& s2.recent.len() >= 1
            &&& s2.recent[0] == id
            &&& s2.pressed is None
            &&& s2.last_activated == Some((ShellTarget::App(i), t2))
            &&& handle_spec(s1, ShellEvent::PointerButton { state: PointerButtonState::Released, target: other }, t2).1 is None
        }),
{
    let id = catalog()[i as int].id;
    let t = seq![id] + without(s.recent, id);
    assert(t[0] == id);
}

/// The arrow keys move the focus one tile in their own direction on the
/// grid of `GRID_COLUMNS` columns: Right to the next tile of the row, Left
/// to the previous one, Down to the tile below and Up to the tile above,
/// where there is one.
pub proof fn lemma_arrows_move_focus_one_tile(s: ShellView, now: u64)
    requires
        shell_inv(s),
    ensures
        (s.focused % 4 != 3 && s.focused + 1 < tile_count()) ==> handle_spec(s, ShellEvent::Navigate(NavAction::Right), now).0.focused
            == s.focused + 1,
        s.focused % 4 != 0 ==> handle_spec(s, ShellEvent::Navigate(NavAction::Left), now).0.focused == s.focused - 1,
        s.focused + 4 < tile_count() ==> handle_spec(s, ShellEvent::Navigate(NavAction::Down), now).0.focused
            == s.focused + 4,
        s.focused >= 4 ==> handle_spec(s, ShellEvent::Navigate(NavAction::Up), now).0.focused == s.focused - 4,
{
}

/// Moving the focus to the next tile and back to the previous one returns
/// to the starting tile.
pub proof fn lemma_next_then_previous(s: ShellView, now: u64)
    requires
        shell_inv(s),
    ensures
        ({
            let s1 = handle_spec(s, ShellEvent::Navigate(NavAction::Next), now).0;
            handle_spec(s1, ShellEvent::Navigate(NavAction::Previous), now).0.focused == s.focused
        }),
{
    assert(tile_count() == 3);
}
} // verus!
