//! Turning pointer presses and releases on a rendered document into clicks.
//!
//! A press arms the element under the pointer (the "target"); the release
//! that follows clicks it, unless the pointer was dragged away in between or
//! the release landed on a different target. The same physical release may
//! reach the document twice (once as a UI event, once raw), so each path can
//! tell the other to skip it. Hit testing and pointer geometry stay with the
//! caller, which hands in the target under the pointer and whether the
//! pointer has moved beyond the cancel distance.
use vstd::prelude::*;

verus! {

/// The target used by touch-signal clicks when no fallback target is set.
pub const DEFAULT_TOUCH_SIGNAL_TARGET: &'static str = "counter";

/// Abstract state of a [`ClickTracker`].
pub struct ClickView {
    pub armed: Option<Seq<char>>,
    pub pressed: bool,
    pub dragged: bool,
    pub skip_raw: bool,
    pub skip_ui: bool,
    pub anywhere: Option<Seq<char>>,
    pub activate_on_down: bool,
}

/// The view of an optional string.
pub open spec fn opt_view(o: Option<String>) -> Option<Seq<char>> {
    match o {
        Some(s) => Some(s@),
        None => None,
    }
}

/// The state with nothing armed.
pub open spec fn disarmed(s: ClickView) -> ClickView {
    ClickView { armed: None, pressed: false, dragged: false, ..s }
}

/// The state right after a press armed `target`.
pub open spec fn armed_with(s: ClickView, target: Option<Seq<char>>) -> ClickView {
    ClickView { armed: target, pressed: true, dragged: false, ..s }
}

/// Which target a press arms: the one under the pointer, else the fallback.
pub open spec fn arm_target_spec(s: ClickView, hit: Option<Seq<char>>) -> Option<Seq<char>> {
    if hit is Some {
        hit
    } else {
        s.anywhere
    }
}

/// Which target a release clicks: none without an armed target; the armed
/// fallback target always; otherwise the armed target unless the release
/// landed on a different one.
pub open spec fn resolve_spec(
    anywhere: Option<Seq<char>>,
    armed: Option<Seq<char>>,
    released: Option<Seq<char>>,
) -> Option<Seq<char>> {
    match armed {
        None => None,
        Some(a) => if anywhere == Some(a) {
            Some(a)
        } else {
            match released {
                Some(r) => if r != a {
                    None
                } else {
                    Some(a)
                },
                None => Some(a),
            }
        },
    }
}

/// A UI pointer press: the state after it and the target clicked at once.
pub open spec fn ui_down_spec(s: ClickView, primary: bool, hit: Option<Seq<char>>) -> (
    ClickView,
    Option<Seq<char>>,
) {
    let s0 = ClickView { skip_raw: false, ..s };
    if !primary {
        (s0, None)
    } else {
        let s1 = armed_with(s0, arm_target_spec(s0, hit));
        if s1.activate_on_down && s1.armed is Some {
            (ClickView { skip_ui: true, skip_raw: true, ..disarmed(s1) }, s1.armed)
        } else {
            (s1, None)
        }
    }
}

/// A pointer move: an armed press becomes a drag once the pointer moves
/// beyond the cancel distance.
pub open spec fn move_spec(s: ClickView, primary: bool, beyond: bool) -> ClickView {
    if primary && !s.dragged && s.armed is Some && s.pressed && beyond {
        ClickView { dragged: true, ..s }
    } else {
        s
    }
}

/// A UI pointer release: the state after it and the target it clicks.
pub open spec fn ui_up_spec(s: ClickView, primary: bool, released: Option<Seq<char>>) -> (
    ClickView,
    Option<Seq<char>>,
) {
    if s.skip_ui {
        (ClickView { skip_ui: false, skip_raw: true, ..disarmed(s) }, None)
    } else {
        let s0 = ClickView { skip_raw: true, ..s };
        if !primary {
            (s0, None)
        } else if s0.dragged {
            (disarmed(s0), None)
        } else {
            (disarmed(s0), resolve_spec(s0.anywhere, s0.armed, released))
        }
    }
}

/// A raw pointer button event: the state after it and the target clicked.
pub open spec fn raw_button_spec(
    s: ClickView,
    pressed: bool,
    primary: bool,
    hit: Option<Seq<char>>,
) -> (ClickView, Option<Seq<char>>) {
    if !primary {
        (s, None)
    } else if pressed {
        let s0 = ClickView { skip_raw: false, ..s };
        (armed_with(s0, arm_target_spec(s0, hit)), None)
    } else if s.skip_raw {
        (ClickView { skip_raw: false, ..disarmed(s) }, None)
    } else {
        (disarmed(s), resolve_spec(s.anywhere, s.armed, hit))
    }
}

/// Click bookkeeping for one document.
pub struct ClickTracker {
    armed: Option<String>,
    pressed: bool,
    dragged: bool,
    skip_raw: bool,
    skip_ui: bool,
    anywhere: Option<String>,
    activate_on_down: bool,
}

impl View for ClickTracker {
    type V = ClickView;

    closed spec fn view(&self) -> ClickView {
        ClickView {
            armed: opt_view(self.armed),
            pressed: self.pressed,
            dragged: self.dragged,
            skip_raw: self.skip_raw,
            skip_ui: self.skip_ui,
            anywhere: opt_view(self.anywhere),
            activate_on_down: self.activate_on_down,
        }
    }
}

fn clone_opt(o: &Option<String>) -> (r: Option<String>)
    ensures
        opt_view(r) == opt_view(*o),
{
    match o {
        Some(s) => Some(s.clone()),
        None => None,
    }
}

impl ClickTracker {
    /// A tracker with nothing armed. `touch_anywhere_target` is clicked by
    /// presses that hit no target; `activate_on_pointer_down` clicks on the
    /// press instead of the release.
    pub fn new(touch_anywhere_target: Option<String>, activate_on_pointer_down: bool) -> (r: Self)
        ensures
            r@ == (ClickView {
                armed: None,
                pressed: false,
                dragged: false,
                skip_raw: false,
                skip_ui: false,
                anywhere: opt_view(touch_anywhere_target),
                activate_on_down: activate_on_pointer_down,
            }),
    {
        ClickTracker {
            armed: None,
            pressed: false,
            dragged: false,
            skip_raw: false,
            skip_ui: false,
            anywhere: touch_anywhere_target,
            activate_on_down: activate_on_pointer_down,
        }
    }

    /// The target armed by the last press, if any.
    pub fn armed_target(&self) -> (r: Option<String>)
        ensures
            opt_view(r) == self@.armed,
    {
        clone_opt(&self.armed)
    }

    /// Whether the armed press has turned into a drag.
    pub fn dragged(&self) -> (r: bool)
        ensures
            r == self@.dragged,
    {
        self.dragged
    }

    /// The target a touch-signal click goes to.
    pub fn touch_signal_target_id(&self) -> (r: String)
        ensures
            r@ == (match self@.anywhere {
                Some(t) => t,
                None => DEFAULT_TOUCH_SIGNAL_TARGET@,
            }),
    {
        match &self.anywhere {
            Some(t) => t.clone(),
            None => String::from_str(DEFAULT_TOUCH_SIGNAL_TARGET),
        }
    }

    /// Which target a press arms, given the target under the pointer.
    pub fn arm_target_for_pointer(&self, hit: Option<String>) -> (r: Option<String>)
        ensures
            opt_view(r) == arm_target_spec(self@, opt_view(hit)),
    {
        if hit.is_some() {
            hit
        } else {
            clone_opt(&self.anywhere)
        }
    }

    /// Which target a release clicks, given the armed target and the target
    /// under the pointer at the release.
    pub fn resolve_click_target(
        &self,
        armed_target_id: Option<String>,
        released_target_id: Option<String>,
    ) -> (r: Option<String>)
        ensures
            opt_view(r) == resolve_spec(
                self@.anywhere,
                opt_view(armed_target_id),
                opt_view(released_target_id),
            ),
    {
        let armed = match armed_target_id {
            Some(a) => a,
            None => return None,
        };
        if let Some(anywhere) = &self.anywhere {
            if *anywhere == armed {
                return Some(armed);
            }
        }
        match released_target_id {
            Some(released) => if released != armed {
                None
            } else {
                Some(armed)
            },
            None => Some(armed),
        }
    }

    fn arm(&mut self, target: Option<String>)
        ensures
            final(self)@ == armed_with(old(self)@, opt_view(target)),
    {
        self.armed = target;
        self.pressed = true;
        self.dragged = false;
    }

    fn disarm(&mut self)
        ensures
            final(self)@ == disarmed(old(self)@),
    {
        self.armed = None;
        self.pressed = false;
        self.dragged = false;
    }

    /// Takes the armed target and clears the press.
    fn take_armed(&mut self) -> (r: Option<String>)
        ensures
            final(self)@ == disarmed(old(self)@),
            opt_view(r) == old(self)@.armed,
    {
        let armed = clone_opt(&self.armed);
        self.disarm();
        armed
    }

    /// A press reported by the UI layer; returns the target to click now,
    /// which happens only when clicks fire on the press.
    pub fn ui_pointer_down(&mut self, is_primary: bool, hit: Option<String>) -> (r: Option<String>)
        ensures
            (final(self)@, opt_view(r)) == ui_down_spec(old(self)@, is_primary, opt_view(hit)),
    {
        self.skip_raw = false;
        if !is_primary {
            return None;
        }
        let target = self.arm_target_for_pointer(hit);
        self.arm(target);
        if self.activate_on_down && self.armed.is_some() {
            let target = self.take_armed();
            self.skip_ui = true;
            self.skip_raw = true;
            return target;
        }
        None
    }

    /// A pointer move; `beyond_cancel_distance` says whether the pointer is
    /// now farther from the press than the click cancel distance.
    pub fn pointer_moved(&mut self, is_primary: bool, beyond_cancel_distance: bool)
        ensures
            final(self)@ == move_spec(old(self)@, is_primary, beyond_cancel_distance),
    {
        if !is_primary || self.dragged || self.armed.is_none() || !self.pressed {
            return;
        }
        if beyond_cancel_distance {
            self.dragged = true;
        }
    }

    /// A release reported by the UI layer; returns the target it clicks.
    pub fn ui_pointer_up(&mut self, is_primary: bool, released: Option<String>) -> (r: Option<
        String,
    >)
        ensures
            (final(self)@, opt_view(r)) == ui_up_spec(old(self)@, is_primary, opt_view(released)),
    {
        if self.skip_ui {
            self.skip_ui = false;
            self.skip_raw = true;
            self.disarm();
            return None;
        }
        self.skip_raw = true;
        if !is_primary {
            return None;
        }
        if self.dragged {
            self.disarm();
            return None;
        }
        let armed = self.take_armed();
        self.resolve_click_target(armed, released)
    }

    /// A raw button event; `hit` is the target under the pointer. Returns
    /// the target clicked by a release.
    pub fn raw_pointer_button(&mut self, pressed: bool, is_primary: bool, hit: Option<String>) -> (r:
        Option<String>)
        ensures
            (final(self)@, opt_view(r)) == raw_button_spec(
                old(self)@,
                pressed,
                is_primary,
                opt_view(hit),
            ),
    {
        if !is_primary {
            return None;
        }
        if pressed {
            self.skip_raw = false;
            let target = self.arm_target_for_pointer(hit);
            self.arm(target);
            return None;
        }
        if self.skip_raw {
            self.skip_raw = false;
            self.disarm();
            return None;
        }
        let armed = self.take_armed();
        self.resolve_click_target(armed, hit)
    }
}

/// A release only ever clicks the target that the press armed.
pub proof fn lemma_click_is_armed_target(
    anywhere: Option<Seq<char>>,
    armed: Option<Seq<char>>,
    released: Option<Seq<char>>,
)
    ensures
        resolve_spec(anywhere, armed, released) is Some ==> resolve_spec(anywhere, armed, released)
            == armed,
        armed is None ==> resolve_spec(anywhere, armed, released) is None,
{
}

/// Once the UI layer has handled a release, the raw copy of that release
/// clicks nothing.
pub proof fn lemma_release_counted_once(
    s: ClickView,
    primary: bool,
    released: Option<Seq<char>>,
    raw_hit: Option<Seq<char>>,
)
    ensures
        raw_button_spec(ui_up_spec(s, primary, released).0, false, true, raw_hit).1 is None,
{
}

/// A press that was dragged beyond the cancel distance clicks nothing on
/// release.
pub proof fn lemma_drag_cancels_click(
    s: ClickView,
    hit: Option<Seq<char>>,
    released: Option<Seq<char>>,
)
    requires
        !s.activate_on_down,
        !s.skip_ui,
    ensures
        ({
            let pressed = ui_down_spec(s, true, hit).0;
            let moved = move_spec(pressed, true, true);
            pressed.armed is Some ==> ui_up_spec(moved, true, released).1 is None
        }),
{
}

/// A raw press followed by its release on the same target clicks that target.
pub proof fn lemma_raw_tap_clicks(s: ClickView, hit: Seq<char>)
    ensures
        ({
            let pressed = raw_button_spec(s, true, true, Some(hit)).0;
            raw_button_spec(pressed, false, true, Some(hit)).1 == Some(hit)
        }),
{
}

} // verus!
