use shutter_tester::app_mode::{
    after_mode_button, after_plain_measure_button, after_rotary_turn, changed_mode, frame_delay_ms,
    measure_button_press, measure_poll, AppMode, ButtonAction, MeasurePoll, Turn,
};

#[test]
fn turning_opens_the_menu() {
    for mode in [AppMode::Start, AppMode::Calibrating, AppMode::Measure, AppMode::Results, AppMode::Debug] {
        assert_eq!(after_rotary_turn(mode, 2, Turn::Clockwise), (AppMode::Menu, 2));
    }
    assert_eq!(after_rotary_turn(AppMode::Update, 1, Turn::Clockwise), (AppMode::Update, 1));
    assert_eq!(after_rotary_turn(AppMode::Unset, 1, Turn::Anticlockwise), (AppMode::Unset, 1));
}

#[test]
fn turning_in_the_menu_wraps_round() {
    assert_eq!(after_rotary_turn(AppMode::Menu, 3, Turn::Clockwise), (AppMode::Menu, 0));
    assert_eq!(after_rotary_turn(AppMode::Menu, 0, Turn::Anticlockwise), (AppMode::Menu, 3));
    assert_eq!(after_rotary_turn(AppMode::Menu, 1, Turn::Clockwise), (AppMode::Menu, 2));
    // One turn each way comes back to where it started.
    let (_, s) = after_rotary_turn(AppMode::Menu, 2, Turn::Clockwise);
    assert_eq!(after_rotary_turn(AppMode::Menu, s, Turn::Anticlockwise), (AppMode::Menu, 2));
}

#[test]
fn button_presses_close_together_count_once() {
    let p = measure_button_press(99, AppMode::Start, 0);
    assert!(p.bounced);
    assert_eq!(p.mode, AppMode::Start);
    assert_eq!(p.action, ButtonAction::Nothing);
    let p = measure_button_press(100, AppMode::Start, 0);
    assert!(!p.bounced);
    assert_eq!(p.action, ButtonAction::StartMeasurement);
}

#[test]
fn button_abandons_running_work() {
    for mode in [AppMode::Calibrating, AppMode::Measure, AppMode::Debug] {
        let p = measure_button_press(1000, mode, 1);
        assert_eq!((p.mode, p.action), (AppMode::Start, ButtonAction::Nothing));
    }
}

#[test]
fn button_takes_the_menu_entry() {
    let entry = |sel| {
        let p = measure_button_press(1000, AppMode::Menu, sel);
        (p.mode, p.action)
    };
    assert_eq!(entry(0), (AppMode::Menu, ButtonAction::StartMeasurement));
    assert_eq!(entry(1), (AppMode::Menu, ButtonAction::StartDebug));
    assert_eq!(entry(2), (AppMode::Menu, ButtonAction::Nothing));
    assert_eq!(entry(3), (AppMode::Update, ButtonAction::Nothing));
    let p = measure_button_press(1000, AppMode::Results, 0);
    assert_eq!((p.mode, p.action), (AppMode::Results, ButtonAction::StartMeasurement));
    let p = measure_button_press(1000, AppMode::Update, 0);
    assert_eq!((p.mode, p.action), (AppMode::Update, ButtonAction::Nothing));
}

#[test]
fn measuring_task_polls_until_done_or_cancelled() {
    assert_eq!(measure_poll(AppMode::Measure, false), MeasurePoll::Wait(100));
    assert_eq!(measure_poll(AppMode::Measure, true), MeasurePoll::Finished);
    assert_eq!(measure_poll(AppMode::Menu, true), MeasurePoll::Cancelled);
}

#[test]
fn frame_delays_follow_the_mode() {
    assert_eq!(frame_delay_ms(AppMode::Debug), 5);
    assert_eq!(frame_delay_ms(AppMode::Calibrating), 500);
    assert_eq!(frame_delay_ms(AppMode::Measure), 500);
    assert_eq!(frame_delay_ms(AppMode::Results), 25);
    assert_eq!(changed_mode(AppMode::Start, AppMode::Start), None);
    assert_eq!(changed_mode(AppMode::Start, AppMode::Menu), Some(AppMode::Menu));
}

#[test]
fn mode_button_toggles_debug_view() {
    assert_eq!(after_mode_button(AppMode::Start), AppMode::Debug);
    assert_eq!(after_mode_button(AppMode::Measure), AppMode::Debug);
    assert_eq!(after_mode_button(AppMode::Debug), AppMode::Start);
    assert_eq!(after_mode_button(AppMode::Calibrating), AppMode::Calibrating);
    assert_eq!(after_plain_measure_button(AppMode::Measure), (AppMode::Start, false));
    assert_eq!(after_plain_measure_button(AppMode::Results), (AppMode::Results, true));
}
