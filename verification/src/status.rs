//! The status demo app: three system toggles, a profile choice and keyboard
//! focus over them.
use crate::compositor::{
    KEY_DOWN, KEY_ESCAPE, KEY_KP_ENTER, KEY_LEFT, KEY_RETURN, KEY_RIGHT, KEY_SPACE, KEY_TAB, KEY_UP,
};
use vstd::prelude::*;
use vstd::string::*;

verus! {

#[derive(Clone, Copy, Debug, PartialEq, Eq, Structural)]
pub enum StatusAction {
    Close,
}

#[derive(Clone, Copy, Debug, PartialEq, Eq, Structural)]
pub enum StatusButtonState {
    Pressed,
    Released,
}

#[derive(Clone, Copy, Debug, PartialEq, Eq, Structural)]
pub enum StatusToggle {
    Mesh,
    Relay,
    Quiet,
}

pub open spec fn toggle_index(t: StatusToggle) -> int {
    match t {
        StatusToggle::Mesh => 0,
        StatusToggle::Relay => 1,
        StatusToggle::Quiet => 2,
    }
}

pub open spec fn toggle_title(t: StatusToggle) -> Seq<char> {
    match t {
        StatusToggle::Mesh => "Mesh radio"@,
        StatusToggle::Relay => "Relay push"@,
        StatusToggle::Quiet => "Quiet boot"@,
    }
}

impl StatusToggle {
    pub fn index(self) -> (r: usize)
        ensures
            r == toggle_index(self),
    {
        match self {
            StatusToggle::Mesh => 0,
            StatusToggle::Relay => 1,
            StatusToggle::Quiet => 2,
        }
    }

    pub fn title(self) -> (r: &'static str)
        ensures
            r@ == toggle_title(self),
    {
        match self {
            StatusToggle::Mesh => "Mesh radio",
            StatusToggle::Relay => "Relay push",
            StatusToggle::Quiet => "Quiet boot",
        }
    }

    pub fn subtitle(self) -> (r: &'static str)
        ensures
            r@ == match self {
                StatusToggle::Mesh => "Peer discovery and local sync"@,
                StatusToggle::Relay => "Background relay wakeups"@,
                StatusToggle::Quiet => "Reduce screen and haptic noise"@,
            },
    {
        match self {
            StatusToggle::Mesh => "Peer discovery and local sync",
            StatusToggle::Relay => "Background relay wakeups",
            StatusToggle::Quiet => "Reduce screen and haptic noise",
        }
    }
}

#[derive(Clone, Copy, Debug, PartialEq, Eq, Structural)]
pub enum ProfileMode {
    Street,
    Travel,
    Offline,
}

pub open spec fn profile_index(p: ProfileMode) -> int {
    match p {
        ProfileMode::Street => 0,
        ProfileMode::Travel => 1,
        ProfileMode::Offline => 2,
    }
}

pub open spec fn profile_at(i: int) -> ProfileMode {
    if i <= 0 {
        ProfileMode::Street
    } else if i == 1 {
        ProfileMode::Travel
    } else {
        ProfileMode::Offline
    }
}

pub open spec fn profile_title(p: ProfileMode) -> Seq<char> {
    match p {
        ProfileMode::Street => "Street"@,
        ProfileMode::Travel => "Travel"@,
        ProfileMode::Offline => "Offline"@,
    }
}

pub open spec fn profile_summary(p: ProfileMode) -> Seq<char> {
    match p {
        ProfileMode::Street => "Balanced radios and live sync."@,
        ProfileMode::Travel => "Battery bias with selective updates."@,
        ProfileMode::Offline => "Local-first, radios mostly quiet."@,
    }
}

impl ProfileMode {
    pub fn index(self) -> (r: usize)
        ensures
            r == profile_index(self),
    {
        match self {
            ProfileMode::Street => 0,
            ProfileMode::Travel => 1,
            ProfileMode::Offline => 2,
        }
    }

    pub fn title(self) -> (r: &'static str)
        ensures
            r@ == profile_title(self),
    {
        match self {
            ProfileMode::Street => "Street",
            ProfileMode::Travel => "Travel",
            ProfileMode::Offline => "Offline",
        }
    }

    pub fn summary(self) -> (r: &'static str)
        ensures
            r@ == profile_summary(self),
    {
        match self {
            ProfileMode::Street => "Balanced radios and live sync.",
            ProfileMode::Travel => "Battery bias with selective updates.",
            ProfileMode::Offline => "Local-first, radios mostly quiet.",
        }
    }

    fn at(i: usize) -> (r: Self)
        ensures
            r == profile_at(i as int),
    {
        if i == 0 {
            ProfileMode::Street
        } else if i == 1 {
            ProfileMode::Travel
        } else {
            ProfileMode::Offline
        }
    }
}

/// Something on the status screen that can be focused, pressed or hit.
#[derive(Clone, Copy, Debug, PartialEq, Eq, Structural)]
pub enum StatusTarget {
    Home,
    Toggle(StatusToggle),
    Profile(ProfileMode),
}

/// Focus order: home, the three toggles, the three profiles.
pub open spec fn target_order(t: StatusTarget) -> int {
    match t {
        StatusTarget::Home => 0,
        StatusTarget::Toggle(x) => 1 + toggle_index(x),
        StatusTarget::Profile(p) => 4 + profile_index(p),
    }
}

pub open spec fn target_at(i: int) -> StatusTarget {
    if i <= 0 {
        StatusTarget::Home
    } else if i == 1 {
        StatusTarget::Toggle(StatusToggle::Mesh)
    } else if i == 2 {
        StatusTarget::Toggle(StatusToggle::Relay)
    } else if i == 3 {
        StatusTarget::Toggle(StatusToggle::Quiet)
    } else {
        StatusTarget::Profile(profile_at(i - 4))
    }
}

/// Number of focusable targets.
pub const TARGET_COUNT: usize = 7;

/// The abstract state of the status app.
pub struct StatusView {
    pub toggles: Seq<bool>,
    pub profile: ProfileMode,
    pub hovered: Option<StatusTarget>,
    pub pressed: Option<StatusTarget>,
    pub focused: StatusTarget,
    pub banner: Seq<char>,
}

pub struct StatusModel {
    toggles: [bool; 3],
    profile: ProfileMode,
    hovered: Option<StatusTarget>,
    pressed: Option<StatusTarget>,
    focused: StatusTarget,
    banner: String,
}

impl View for StatusModel {
    type V = StatusView;

    closed spec fn view(&self) -> StatusView {
        StatusView {
            toggles: self.toggles@,
            profile: self.profile,
            hovered: self.hovered,
            pressed: self.pressed,
            focused: self.focused,
            banner: self.banner@,
        }
    }
}

pub open spec fn count_true(t: Seq<bool>) -> int {
    (if t[0] { 1int } else { 0 }) + (if t[1] { 1int } else { 0 }) + (if t[2] { 1int } else { 0 })
}

pub open spec fn digit_text(n: int) -> Seq<char> {
    seq![(('0' as int) + n) as char]
}

/// Applying a target: home closes the app, a toggle flips and reports the number
/// of live systems, a profile is selected and described.
pub open spec fn apply_spec(s: StatusView, t: StatusTarget) -> (StatusView, Option<StatusAction>) {
    let s1 = StatusView { focused: t, ..s };
    match t {
        StatusTarget::Home => (s1, Some(StatusAction::Close)),
        StatusTarget::Toggle(x) => {
            let i = toggle_index(x);
            let toggles = s.toggles.update(i, !s.toggles[i]);
            let state = if toggles[i] { " enabled. "@ } else { " paused. "@ };
            (
                StatusView {
                    toggles,
                    banner: toggle_title(x) + state + digit_text(count_true(toggles)) + " systems live."@,
                    ..s1
                },
                None,
            )
        },
        StatusTarget::Profile(p) => (
            StatusView {
                profile: p,
                banner: profile_title(p) + " profile loaded. "@ + profile_summary(p),
                ..s1
            },
            None,
        ),
    }
}

pub open spec fn status_inv(s: StatusView) -> bool {
    s.toggles.len() == 3
}

fn digit_str(n: usize) -> (r: &'static str)
    requires
        n <= 3,
    ensures
        r@ == digit_text(n as int),
{
    proof {
        reveal_strlit("0");
        reveal_strlit("1");
        reveal_strlit("2");
        reveal_strlit("3");
    }
    if n == 0 {
        assert("0"@ =~= digit_text(0));
        "0"
    } else if n == 1 {
        assert("1"@ =~= digit_text(1));
        "1"
    } else if n == 2 {
        assert("2"@ =~= digit_text(2));
        "2"
    } else {
        assert("3"@ =~= digit_text(3));
        "3"
    }
}

impl StatusModel {
    /// The model is always well formed.
    #[verifier::type_invariant]
    closed spec fn wf(self) -> bool {
        status_inv(self@)
    }

    /// Mesh and relay on, street profile, focus on the first toggle.
    pub fn new() -> (r: Self)
        ensures
            r@.toggles == seq![true, true, false],
            r@.profile == ProfileMode::Street,
            r@.hovered is None,
            r@.pressed is None,
            r@.focused == StatusTarget::Toggle(StatusToggle::Mesh),
            r@.banner == "Three channels checked. Street profile holding."@,
    {
        let r = StatusModel {
            toggles: [true, true, false],
            profile: ProfileMode::Street,
            hovered: None,
            pressed: None,
            focused: StatusTarget::Toggle(StatusToggle::Mesh),
            banner: String::from_str("Three channels checked. Street profile holding."),
        };
        assert(r.toggles@ =~= seq![true, true, false]);
        r
    }

    pub fn profile(&self) -> (r: ProfileMode)
        ensures
            r == self@.profile,
    {
        proof {
            use_type_invariant(self);
        }
        self.profile
    }

    pub fn banner(&self) -> (r: &str)
        ensures
            r@ == self@.banner,
    {
        proof {
            use_type_invariant(self);
        }
        self.banner.as_str()
    }

    pub fn hovered_target(&self) -> (r: Option<StatusTarget>)
        ensures
            r == self@.hovered,
    {
        proof {
            use_type_invariant(self);
        }
        self.hovered
    }

    pub fn pressed_target(&self) -> (r: Option<StatusTarget>)
        ensures
            r == self@.pressed,
    {
        proof {
            use_type_invariant(self);
        }
        self.pressed
    }

    pub fn focused_target(&self) -> (r: StatusTarget)
        ensures
            r == self@.focused,
    {
        proof {
            use_type_invariant(self);
        }
        self.focused
    }

    pub fn toggle_enabled(&self, toggle: StatusToggle) -> (r: bool)
        ensures
            r == self@.toggles[toggle_index(toggle)],
    {
        proof {
            use_type_invariant(self);
        }
        self.toggles[toggle.index()]
    }

    /// How many of the three toggles are on.
    pub fn active_count(&self) -> (r: usize)
        ensures
            r == count_true(self@.toggles),
    {
        proof {
            use_type_invariant(self);
        }
        let mut n: usize = 0;
        if self.toggles[0] {
            n = n + 1;
        }
        if self.toggles[1] {
            n = n + 1;
        }
        if self.toggles[2] {
            n = n + 1;
        }
        n
    }

    /// How many toggles are on, as the screen says it: `N of 3 active`, or
    /// in capitals `N OF 3 ACTIVE`.
    pub fn active_label(&self, capitals: bool) -> (r: String)
        ensures
            r@ == digit_text(count_true(self@.toggles)) + (if capitals {
                " OF 3 ACTIVE"@
            } else {
                " of 3 active"@
            }),
    {
        let n = self.active_count();
        let mut label = String::from_str(digit_str(n));
        label.append(if capitals { " OF 3 ACTIVE" } else { " of 3 active" });
        label
    }

    /// The state shown beside a toggle: `ON` or `OFF`.
    pub fn toggle_state_label(&self, toggle: StatusToggle) -> (r: &'static str)
        ensures
            r@ == (if self@.toggles[toggle_index(toggle)] { "ON"@ } else { "OFF"@ }),
    {
        if self.toggle_enabled(toggle) {
            "ON"
        } else {
            "OFF"
        }
    }

    /// The state shown on a profile chip: `ACTIVE` for the chosen profile,
    /// `READY` for the others.
    pub fn profile_state_label(&self, profile: ProfileMode) -> (r: &'static str)
        ensures
            r@ == (if self@.profile == profile { "ACTIVE"@ } else { "READY"@ }),
    {
        if self.profile == profile {
            "ACTIVE"
        } else {
            "READY"
        }
    }

    /// The pointer moved over `target`.
    pub fn pointer_moved(&mut self, target: Option<StatusTarget>)
        ensures
            final(self)@ == (StatusView { hovered: target, ..old(self)@ }),
    {
        proof {
            use_type_invariant(&*self);
        }
        self.hovered = target;
    }

    pub fn pointer_left(&mut self)
        ensures
            final(self)@ == (StatusView { hovered: None, pressed: None, ..old(self)@ }),
    {
        proof {
            use_type_invariant(&*self);
        }
        self.hovered = None;
        self.pressed = None;
    }

    /// A press arms the target under the pointer and focuses it; a release over
    /// the same target applies it.
    pub fn pointer_button(&mut self, state: StatusButtonState, target: Option<StatusTarget>) -> (r: Option<StatusAction>)
        ensures
            state == StatusButtonState::Pressed ==> r is None && final(self)@ == (StatusView {
                pressed: target,
                focused: match target {
                    Some(t) => t,
                    None => old(self)@.focused,
                },
                ..old(self)@
            }),
            state == StatusButtonState::Released ==> {
                let s1 = StatusView { pressed: None, hovered: target, ..old(self)@ };
                if target is Some && old(self)@.pressed == target {
                    (final(self)@, r) == apply_spec(s1, target->0)
                } else {
                    r is None && final(self)@ == s1
                }
            },
    {
        proof {
            use_type_invariant(&*self);
        }
        match state {
            StatusButtonState::Pressed => {
                self.pressed = target;
                if let Some(t) = target {
                    self.focused = t;
                }
                None
            },
            StatusButtonState::Released => {
                let pressed = self.pressed;
                self.pressed = None;
                self.hovered = target;
                match (pressed, target) {
                    (Some(lhs), Some(rhs)) => {
                        if lhs == rhs {
                            self.apply_target(rhs)
                        } else {
                            None
                        }
                    },
                    _ => None,
                }
            },
        }
    }

    /// Moves the focus to the next target, wrapping.
    pub fn focus_next(&mut self)
        ensures
            final(self)@ == (StatusView {
                focused: target_at((target_order(old(self)@.focused) + 1) % 7),
                ..old(self)@
            }),
    {
        proof {
            use_type_invariant(&*self);
        }
        self.focused = shift_focus(self.focused, true);
    }

    /// Moves the focus to the previous target, wrapping.
    pub fn focus_previous(&mut self)
        ensures
            final(self)@ == (StatusView {
                focused: target_at((target_order(old(self)@.focused) - 1) % 7),
                ..old(self)@
            }),
    {
        proof {
            use_type_invariant(&*self);
        }
        self.focused = shift_focus(self.focused, false);
    }

    /// Moves the focus `delta` profiles sideways when a profile is focused,
    /// stopping at the ends.
    pub fn focus_horizontal(&mut self, delta: i32)
        requires
            delta <= i32::MAX - 2,
        ensures
            final(self)@ == (StatusView {
                focused: match old(self)@.focused {
                    StatusTarget::Profile(p) => {
                        let i = profile_index(p) + delta;
                        StatusTarget::Profile(profile_at(if i < 0 { 0 } else if i > 2 { 2 } else { i }))
                    },
                    other => other,
                },
                ..old(self)@
            }),
    {
        proof {
            use_type_invariant(&*self);
        }
        if let StatusTarget::Profile(profile) = self.focused {
            let index = profile.index() as i32 + delta;
            let clamped: usize = if index < 0 { 0 } else if index > 2 { 2 } else { index as usize };
            self.focused = StatusTarget::Profile(ProfileMode::at(clamped));
        }
    }

    /// Keyboard activation arms the focused target.
    pub fn activate_pressed(&mut self)
        ensures
            final(self)@ == (StatusView { pressed: Some(old(self)@.focused), ..old(self)@ }),
    {
        proof {
            use_type_invariant(&*self);
        }
        self.pressed = Some(self.focused);
    }

    /// Keyboard release applies the armed target, if any.
    pub fn activate_released(&mut self) -> (r: Option<StatusAction>)
        ensures
            match old(self)@.pressed {
                Some(t) => (final(self)@, r) == apply_spec(StatusView { pressed: None, ..old(self)@ }, t),
                None => r is None && final(self)@ == old(self)@,
            },
    {
        proof {
            use_type_invariant(&*self);
        }
        match self.pressed {
            Some(target) => {
                self.pressed = None;
                self.apply_target(target)
            },
            None => None,
        }
    }

    pub fn close_action(&mut self) -> (r: StatusAction)
        ensures
            r == StatusAction::Close,
            final(self)@ == (StatusView { pressed: None, ..old(self)@ }),
    {
        proof {
            use_type_invariant(&*self);
        }
        self.cancel_press();
        StatusAction::Close
    }

    pub fn cancel_press(&mut self)
        ensures
            final(self)@ == (StatusView { pressed: None, ..old(self)@ }),
    {
        proof {
            use_type_invariant(&*self);
        }
        self.pressed = None;
    }

    fn apply_target(&mut self, target: StatusTarget) -> (r: Option<StatusAction>)
        ensures
            (final(self)@, r) == apply_spec(old(self)@, target),
    {
        proof {
            use_type_invariant(&*self);
        }
        self.focused = target;
        match target {
            StatusTarget::Home => Some(StatusAction::Close),
            StatusTarget::Toggle(toggle) => {
                let i = toggle.index();
                let flipped = !self.toggles[i];
                self.toggles[i] = flipped;
                let count = self.active_count();
                let mut banner = String::from_str(toggle.title());
                if flipped {
                    banner.append(" enabled. ");
                } else {
                    banner.append(" paused. ");
                }
                banner.append(digit_str(count));
                banner.append(" systems live.");
                self.banner = banner;
                None
            },
            StatusTarget::Profile(profile) => {
                self.profile = profile;
                let mut banner = String::from_str(profile.title());
                banner.append(" profile loaded. ");
                banner.append(profile.summary());
                self.banner = banner;
                None
            },
        }
    }
}

/// The target `forward` (or backward) of `current` in focus order, wrapping.
fn shift_focus(current: StatusTarget, forward: bool) -> (r: StatusTarget)
    ensures
        r == target_at((target_order(current) + if forward { 1int } else { -1int }) % 7),
{
    let index: usize = match current {
        StatusTarget::Home => 0,
        StatusTarget::Toggle(t) => 1 + t.index(),
        StatusTarget::Profile(p) => 4 + p.index(),
    };
    let next = if forward { (index + 1) % TARGET_COUNT } else { (index + TARGET_COUNT - 1) % TARGET_COUNT };
    assert(next as int == (index as int + if forward { 1int } else { -1int }) % 7) by {
        if !forward && index == 0 {
            assert((0int - 1) % 7 == 6);
        }
    }
    target_at_exec(next)
}

fn target_at_exec(i: usize) -> (r: StatusTarget)
    ensures
        r == target_at(i as int),
{
    if i == 0 {
        StatusTarget::Home
    } else if i == 1 {
        StatusTarget::Toggle(StatusToggle::Mesh)
    } else if i == 2 {
        StatusTarget::Toggle(StatusToggle::Relay)
    } else if i == 3 {
        StatusTarget::Toggle(StatusToggle::Quiet)
    } else {
        StatusTarget::Profile(ProfileMode::at(i - 4))
    }
}

/// Going forward then back through the focus order returns to the start.
pub proof fn lemma_focus_round_trip(t: StatusTarget)
    ensures
        target_at((target_order(target_at((target_order(t) + 1) % 7)) - 1) % 7) == t,
{
}

/// The focus goes round the screen in a fixed order, forward with Tab or
/// Down and back with Up: home, mesh, relay, quiet, then the street,
/// travel and offline profiles, and from the last back to home.
pub proof fn lemma_focus_order()
    ensures
        target_at((target_order(StatusTarget::Home) + 1) % 7) == StatusTarget::Toggle(StatusToggle::Mesh),
        target_at((target_order(StatusTarget::Toggle(StatusToggle::Mesh)) + 1) % 7) == StatusTarget::Toggle(StatusToggle::Relay),
        target_at((target_order(StatusTarget::Toggle(StatusToggle::Relay)) + 1) % 7) == StatusTarget::Toggle(StatusToggle::Quiet),
        target_at((target_order(StatusTarget::Toggle(StatusToggle::Quiet)) + 1) % 7) == StatusTarget::Profile(ProfileMode::Street),
        target_at((target_order(StatusTarget::Profile(ProfileMode::Street)) + 1) % 7) == StatusTarget::Profile(ProfileMode::Travel),
        target_at((target_order(StatusTarget::Profile(ProfileMode::Travel)) + 1) % 7) == StatusTarget::Profile(ProfileMode::Offline),
        target_at((target_order(StatusTarget::Profile(ProfileMode::Offline)) + 1) % 7) == StatusTarget::Home,
        target_at((target_order(StatusTarget::Home) - 1) % 7) == StatusTarget::Profile(ProfileMode::Offline),
        target_at((target_order(StatusTarget::Toggle(StatusToggle::Mesh)) - 1) % 7) == StatusTarget::Home,
{
}

/// Applying a target does what the target says and nothing else: home asks
/// to close; a toggle flips that switch alone; a profile becomes the
/// chosen one. Each focuses the target and keeps the pointer state.
pub proof fn lemma_apply_does_what_the_target_says(s: StatusView, t: StatusTarget)
    requires
        status_inv(s),
    ensures
        ({
            let (n, a) = apply_spec(s, t);
            &&& n.focused == t
            &&& n.hovered == s.hovered
            &&& n.pressed == s.pressed
            &&& (t == StatusTarget::Home ==> a == Some(StatusAction::Close) && n.toggles == s.toggles
                && n.profile == s.profile)
            &&& (t matches StatusTarget::Toggle(x) ==> a is None && n.profile == s.profile && n.toggles.len() == 3
                && n.toggles[toggle_index(x)] == !s.toggles[toggle_index(x)] && forall|k: int|
                0 <= k < 3 && k != toggle_index(x) ==> n.toggles[k] == s.toggles[k])
            &&& (t matches StatusTarget::Profile(p) ==> a is None && n.profile == p && n.toggles == s.toggles)
        }),
{
}

/// Toggling the same switch twice restores it (the banner aside).
pub proof fn lemma_toggle_twice(s: StatusView, x: StatusToggle)
    requires
        status_inv(s),
    ensures
        apply_spec(apply_spec(s, StatusTarget::Toggle(x)).0, StatusTarget::Toggle(x)).0.toggles == s.toggles,
{
    let i = toggle_index(x);
    let t1 = s.toggles.update(i, !s.toggles[i]);
    assert(t1.update(i, !t1[i]) =~= s.toggles);
}


/// What a key did on the status screen: whether the app should close,
/// whether it must redraw, and the action taken, if any.
#[derive(Clone, Copy, Debug, PartialEq, Eq, Structural)]
pub struct KeyOutcome {
    pub exit: bool,
    pub redraw: bool,
    pub action: Option<StatusAction>,
}

/// Whether a key activates the focused target.
pub open spec fn is_activation_key(keysym: u32) -> bool {
    keysym == KEY_SPACE || keysym == KEY_RETURN || keysym == KEY_KP_ENTER
}

impl StatusModel {
    /// Handles a key press or release: Escape closes; Tab and Down move the
    /// focus on, Up back; Left and Right move between profiles; Space,
    /// Return and keypad Enter arm the focused target on press and apply
    /// it on release. Other keys do nothing.
    pub fn handle_key(&mut self, pressed: bool, keysym: u32) -> (r: KeyOutcome)
        ensures
            pressed && keysym == KEY_ESCAPE ==> r == (KeyOutcome { exit: true, redraw: false, action: None })
                && final(self)@ == old(self)@,
            pressed && (keysym == KEY_TAB || keysym == KEY_DOWN) ==> r == (KeyOutcome {
                exit: false,
                redraw: true,
                action: None,
            }) && final(self)@ == (StatusView {
                focused: target_at((target_order(old(self)@.focused) + 1) % 7),
                ..old(self)@
            }),
            pressed && keysym == KEY_UP ==> r == (KeyOutcome { exit: false, redraw: true, action: None })
                && final(self)@ == (StatusView {
                focused: target_at((target_order(old(self)@.focused) - 1) % 7),
                ..old(self)@
            }),
            pressed && (keysym == KEY_LEFT || keysym == KEY_RIGHT) ==> r == (KeyOutcome {
                exit: false,
                redraw: true,
                action: None,
            }) && final(self)@ == (StatusView {
                focused: match old(self)@.focused {
                    StatusTarget::Profile(p) => {
                        let i = profile_index(p) + if keysym == KEY_LEFT { -1int } else { 1int };
                        StatusTarget::Profile(profile_at(if i < 0 { 0 } else if i > 2 { 2 } else { i }))
                    },
                    other => other,
                },
                ..old(self)@
            }),
            pressed && is_activation_key(keysym) ==> r == (KeyOutcome { exit: false, redraw: true, action: None })
                && final(self)@ == (StatusView { pressed: Some(old(self)@.focused), ..old(self)@ }),
            !pressed && is_activation_key(keysym) ==> r.redraw && r.exit == (r.action is Some) && match old(
                self,
            )@.pressed {
                Some(t) => (final(self)@, r.action) == apply_spec(StatusView { pressed: None, ..old(self)@ }, t),
                None => r.action is None && final(self)@ == old(self)@,
            },
            !(pressed && (keysym == KEY_ESCAPE || keysym == KEY_TAB || keysym == KEY_DOWN || keysym == KEY_UP
                || keysym == KEY_LEFT || keysym == KEY_RIGHT)) && !is_activation_key(keysym) ==> r == (
            KeyOutcome { exit: false, redraw: false, action: None }) && final(self)@ == old(self)@,
    {
        proof {
            use_type_invariant(&*self);
        }
        let idle = KeyOutcome { exit: false, redraw: false, action: None };
        let moved = KeyOutcome { exit: false, redraw: true, action: None };
        let activation = keysym == KEY_SPACE || keysym == KEY_RETURN || keysym == KEY_KP_ENTER;
        if pressed {
            if keysym == KEY_ESCAPE {
                KeyOutcome { exit: true, redraw: false, action: None }
            } else if keysym == KEY_TAB || keysym == KEY_DOWN {
                self.focus_next();
                moved
            } else if keysym == KEY_UP {
                self.focus_previous();
                moved
            } else if keysym == KEY_LEFT {
                self.focus_horizontal(-1);
                moved
            } else if keysym == KEY_RIGHT {
                self.focus_horizontal(1);
                moved
            } else if activation {
                self.activate_pressed();
                moved
            } else {
                idle
            }
        } else if activation {
            let action = self.activate_released();
            KeyOutcome { exit: action.is_some(), redraw: true, action }
        } else {
            idle
        }
    }
}
/// The kinds of pointer event a window receives.
#[derive(Clone, Copy, Debug, PartialEq, Eq, Structural)]
pub enum PointerEventKind {
    Enter,
    Leave,
    Motion,
    Press,
    Release,
    Axis,
}

/// What a pointer event did on the status screen: whether it must redraw,
/// and whether the app should close.
#[derive(Clone, Copy, Debug, PartialEq, Eq, Structural)]
pub struct PointerOutcome {
    pub redraw: bool,
    pub exit: bool,
}

impl StatusModel {
    /// Handles one pointer event over `target` (the target under the
    /// pointer where the event happened): entering and moving hover it;
    /// a press hovers, arms and focuses it; a release hovers it and applies
    /// the armed target if the pointer is still over it; leaving drops the
    /// hover and the armed target. Scrolling does nothing.
    pub fn handle_pointer(&mut self, kind: PointerEventKind, target: Option<StatusTarget>) -> (r: PointerOutcome)
        ensures
            (kind == PointerEventKind::Enter || kind == PointerEventKind::Motion) ==> r == (PointerOutcome {
                redraw: true,
                exit: false,
            }) && final(self)@ == (StatusView { hovered: target, ..old(self)@ }),
            kind == PointerEventKind::Press ==> r == (PointerOutcome { redraw: true, exit: false })
                && final(self)@ == (StatusView {
                hovered: target,
                pressed: target,
                focused: match target {
                    Some(t) => t,
                    None => old(self)@.focused,
                },
                ..old(self)@
            }),
            kind == PointerEventKind::Release ==> r.redraw && {
                let s1 = StatusView { pressed: None, hovered: target, ..old(self)@ };
                if target is Some && old(self)@.pressed == target {
                    final(self)@ == apply_spec(s1, target->0).0 && r.exit == (apply_spec(s1, target->0).1 is Some)
                } else {
                    !r.exit && final(self)@ == s1
                }
            },
            kind == PointerEventKind::Leave ==> r == (PointerOutcome { redraw: true, exit: false })
                && final(self)@ == (StatusView { hovered: None, pressed: None, ..old(self)@ }),
            kind == PointerEventKind::Axis ==> r == (PointerOutcome { redraw: false, exit: false })
                && final(self)@ == old(self)@,
    {
        proof {
            use_type_invariant(&*self);
        }
        match kind {
            PointerEventKind::Enter | PointerEventKind::Motion => {
                self.pointer_moved(target);
                PointerOutcome { redraw: true, exit: false }
            },
            PointerEventKind::Press => {
                self.pointer_moved(target);
                let _ = self.pointer_button(StatusButtonState::Pressed, target);
                PointerOutcome { redraw: true, exit: false }
            },
            PointerEventKind::Release => {
                self.pointer_moved(target);
                let action = self.pointer_button(StatusButtonState::Released, target);
                PointerOutcome { redraw: true, exit: action.is_some() }
            },
            PointerEventKind::Leave => {
                self.pointer_left();
                PointerOutcome { redraw: true, exit: false }
            },
            PointerEventKind::Axis => PointerOutcome { redraw: false, exit: false },
        }
    }
}
} // verus!
