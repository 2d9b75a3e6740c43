use incredicalculator::input::{IcKey, InputContext, KeyState};

#[test]
fn key_state_starts_untouched() {
    let ks = KeyState::default();
    assert!(!ks.is_down);
    assert!(!ks.was_down);
    assert!(!ks.just_pressed);
    assert!(!ks.just_released);
}

#[test]
fn key_indices_are_distinct_and_invertible() {
    let keys = [
        IcKey::Num0,
        IcKey::Num1,
        IcKey::Num2,
        IcKey::Num3,
        IcKey::Num4,
        IcKey::Num5,
        IcKey::Num6,
        IcKey::Num7,
        IcKey::Num8,
        IcKey::Num9,
        IcKey::Func1,
        IcKey::Func2,
        IcKey::Func3,
        IcKey::Func4,
        IcKey::Func5,
        IcKey::Func6,
        IcKey::Shift,
        IcKey::Super,
    ];
    assert_eq!(keys.len(), IcKey::COUNT);
    for (i, k) in keys.iter().enumerate() {
        assert_eq!(k.index(), i);
        assert_eq!(IcKey::from_index(i), Some(*k));
    }
    assert_eq!(IcKey::from_index(18), None);
}

#[test]
fn input_context_reads_key_states() {
    let mut states = [KeyState::default(); 18];
    states[IcKey::Num5.index()].is_down = true;
    states[IcKey::Shift.index()].is_down = true;
    let ctx = InputContext { key_states: &states };
    assert!(ctx.is_down(IcKey::Num5));
    assert!(!ctx.is_down(IcKey::Num6));
    assert!(ctx.is_shifted());
    assert!(!ctx.is_super());
}

#[test]
fn frame_advance_computes_edges() {
    let mut states = [KeyState::default(); 18];
    incredicalculator::input::key_down(&mut states, IcKey::Num3);
    incredicalculator::input::advance_key_frame(&mut states);
    let i = IcKey::Num3.index();
    assert!(states[i].is_down);
    assert!(states[i].just_pressed);
    assert!(!states[i].just_released);
    // Held across a second frame: no longer a fresh press.
    incredicalculator::input::advance_key_frame(&mut states);
    assert!(states[i].is_down);
    assert!(!states[i].just_pressed);
    // Released: one frame of just_released.
    incredicalculator::input::key_up(&mut states, IcKey::Num3);
    incredicalculator::input::advance_key_frame(&mut states);
    assert!(!states[i].is_down);
    assert!(states[i].just_released);
    assert!(!states[IcKey::Num4.index()].just_pressed);
}

#[test]
fn aspect_ratio_calculator_constructs() {
    let _app = incredicalculator::apps::AspectRatioCalculator::new();
}
