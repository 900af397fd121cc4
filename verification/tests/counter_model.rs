use shadow_os::counter::{CounterButtonState, CounterModel, CounterTarget};

#[test]
fn tap_counts_on_press() {
    let mut model = CounterModel::new();
    model.pointer_moved(Some(CounterTarget::Tap));

    model.pointer_button(CounterButtonState::Pressed, Some(CounterTarget::Tap));

    assert_eq!(model.count(), 1);
    assert!(model.tap_pressed());
}

#[test]
fn release_does_not_double_count() {
    let mut model = CounterModel::new();
    model.pointer_moved(Some(CounterTarget::Tap));
    model.pointer_button(CounterButtonState::Pressed, Some(CounterTarget::Tap));
    model.pointer_moved(Some(CounterTarget::Tap));

    model.pointer_button(CounterButtonState::Released, Some(CounterTarget::Tap));

    assert_eq!(model.count(), 1);
    assert!(!model.tap_pressed());
}

#[test]
fn press_outside_the_button_does_not_count() {
    let mut model = CounterModel::new();
    model.pointer_button(CounterButtonState::Pressed, None);
    assert_eq!(model.count(), 0);
    assert!(!model.tap_pressed());
}
