//! The counter demo app: a tap button that counts presses.
use vstd::prelude::*;

verus! {

/// The one interactive element of the counter app.
#[derive(Clone, Copy, Debug, PartialEq, Eq, Structural)]
pub enum CounterTarget {
    Tap,
}

#[derive(Clone, Copy, Debug, PartialEq, Eq, Structural)]
pub enum CounterAction {
    Close,
}

#[derive(Clone, Copy, Debug, PartialEq, Eq, Structural)]
pub enum CounterButtonState {
    Pressed,
    Released,
}

/// Count and pointer state of the counter app.  Pointer events carry what the
/// pointer is over, as the caller's hit test found it.
#[derive(Clone, Copy, Debug, PartialEq, Eq, Structural)]
pub struct CounterModel {
    pub count: u64,
    pub hovered: Option<CounterTarget>,
    pub pressed: Option<CounterTarget>,
}

pub open spec fn bump(count: u64) -> u64 {
    if count == u64::MAX { count } else { (count + 1) as u64 }
}

impl CounterModel {
    pub fn new() -> (r: Self)
        ensures
            r == (CounterModel { count: 0, hovered: None, pressed: None }),
    {
        CounterModel { count: 0, hovered: None, pressed: None }
    }

    pub fn count(&self) -> (r: u64)
        ensures
            r == self.count,
    {
        self.count
    }

    pub fn hovered_target(&self) -> (r: Option<CounterTarget>)
        ensures
            r == self.hovered,
    {
        self.hovered
    }

    pub fn pressed_target(&self) -> (r: Option<CounterTarget>)
        ensures
            r == self.pressed,
    {
        self.pressed
    }

    pub fn tap_pressed(&self) -> (r: bool)
        ensures
            r == (self.pressed is Some),
    {
        self.pressed.is_some()
    }

    /// The pointer moved over `target`.
    pub fn pointer_moved(&mut self, target: Option<CounterTarget>)
        ensures
            *final(self) == (CounterModel { hovered: target, ..*old(self) }),
    {
        self.hovered = target;
    }

    pub fn pointer_left(&mut self)
        ensures
            *final(self) == (CounterModel { hovered: None, pressed: None, ..*old(self) }),
    {
        self.hovered = None;
        self.pressed = None;
    }

    /// A button press counts when it lands on the tap button; a release only
    /// updates the hover state.
    pub fn pointer_button(&mut self, state: CounterButtonState, target: Option<CounterTarget>) -> (r: Option<CounterAction>)
        ensures
            r is None,
            state == CounterButtonState::Pressed ==> *final(self) == (CounterModel {
                pressed: target,
                count: if target is Some { bump(old(self).count) } else { old(self).count },
                ..*old(self)
            }),
            state == CounterButtonState::Released ==> *final(self) == (CounterModel {
                pressed: None,
                hovered: target,
                ..*old(self)
            }),
    {
        match state {
            CounterButtonState::Pressed => {
                self.pressed = target;
                if target.is_some() {
                    self.count = self.count.saturating_add(1);
                }
                None
            },
            CounterButtonState::Released => {
                self.pressed = None;
                self.hovered = target;
                None
            },
        }
    }

    /// Keyboard activation: pressing counts.
    pub fn activate_pressed(&mut self)
        ensures
            *final(self) == (CounterModel {
                pressed: Some(CounterTarget::Tap),
                count: bump(old(self).count),
                ..*old(self)
            }),
    {
        self.pressed = Some(CounterTarget::Tap);
        self.count = self.count.saturating_add(1);
    }

    pub fn activate_released(&mut self)
        ensures
            *final(self) == (CounterModel { pressed: None, ..*old(self) }),
    {
        self.pressed = None;
    }

    pub fn close_action(&mut self) -> (r: CounterAction)
        ensures
            r == CounterAction::Close,
            *final(self) == (CounterModel { pressed: None, ..*old(self) }),
    {
        self.cancel_press();
        CounterAction::Close
    }

    pub fn cancel_press(&mut self)
        ensures
            *final(self) == (CounterModel { pressed: None, ..*old(self) }),
    {
        self.pressed = None;
    }
}

/// The count never goes down, and only a press on the tap button (or a keyboard
/// activation) raises it; in particular a release never counts.
pub proof fn lemma_only_presses_count(m: CounterModel, target: Option<CounterTarget>)
    ensures
        bump(m.count) >= m.count,
        target is None ==> (CounterModel {
            pressed: target,
            count: if target is Some { bump(m.count) } else { m.count },
            ..m
        }).count == m.count,
        (CounterModel { pressed: None, hovered: target, ..m }).count == m.count,
{
}

} // verus!
