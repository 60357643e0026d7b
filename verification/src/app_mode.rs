//! The modes of the device and the decisions that its input handlers and
//! its display loop make; waiting, sound and drawing happen elsewhere.
use vstd::prelude::*;
use crate::screens::MENU_OPTIONS;

verus! {

/// What the device is doing, and so which screen it shows.
#[derive(Debug, Clone, Copy, PartialEq, Eq, Structural)]
pub enum AppMode {
    Unset,
    Start,
    Calibrating,
    Measure,
    Results,
    Debug,
    Update,
    Menu,
}

/// The way the rotary encoder was turned.
#[derive(Debug, Clone, Copy, PartialEq, Eq, Structural)]
pub enum Turn {
    Clockwise,
    Anticlockwise,
}

/// What pressing the measure button sets off besides a change of mode.
#[derive(Debug, Clone, Copy, PartialEq, Eq, Structural)]
pub enum ButtonAction {
    Nothing,
    StartMeasurement,
    StartDebug,
}

/// The effect of one press of the measure button.
#[derive(Debug, Clone, Copy, PartialEq, Eq, Structural)]
pub struct ButtonPress {
    /// The press came too soon after the previous one and does nothing.
    pub bounced: bool,
    pub mode: AppMode,
    pub action: ButtonAction,
}

/// Presses closer together than this many milliseconds count as one.
pub const BUTTON_DEBOUNCE_MS: u64 = 100;

/// What the measuring task does after looking at the mode and the
/// measurement.
#[derive(Debug, Clone, Copy, PartialEq, Eq, Structural)]
pub enum MeasurePoll {
    /// The mode was changed away from measuring: the task ends.
    Cancelled,
    /// The measurement is done: the results are shown.
    Finished,
    /// Look again after this many milliseconds.
    Wait(u32),
}

/// The menu entry after one turn: one step along the ring of entries.
pub open spec fn turned_selection(selected: usize, turn: Turn) -> usize {
    let d: int = match turn {
        Turn::Clockwise => 1,
        Turn::Anticlockwise => -1,
    };
    ((selected + MENU_OPTIONS + d) % (MENU_OPTIONS as int)) as usize
}

/// The modes from which a turn of the encoder opens the menu.
pub open spec fn opens_menu(mode: AppMode) -> bool {
    mode == AppMode::Start || mode == AppMode::Calibrating || mode == AppMode::Measure
        || mode == AppMode::Results || mode == AppMode::Debug
}

/// A turn of the encoder: outside the menu (and while updating or before
/// the first screen) it opens the menu, in the menu it moves the selection.
pub fn after_rotary_turn(mode: AppMode, selected: usize, turn: Turn) -> (r: (AppMode, usize))
    requires
        selected < MENU_OPTIONS,
    ensures
        opens_menu(mode) ==> r == (AppMode::Menu, selected),
        mode == AppMode::Menu ==> r == (AppMode::Menu, turned_selection(selected, turn)),
        mode == AppMode::Update || mode == AppMode::Unset ==> r == (mode, selected),
        r.1 < MENU_OPTIONS,
{
    match mode {
        AppMode::Start | AppMode::Calibrating | AppMode::Measure | AppMode::Results | AppMode::Debug => {
            (AppMode::Menu, selected)
        },
        AppMode::Menu => {
            let next = match turn {
                Turn::Clockwise => (selected + MENU_OPTIONS + 1) % MENU_OPTIONS,
                Turn::Anticlockwise => (selected + MENU_OPTIONS - 1) % MENU_OPTIONS,
            };
            (AppMode::Menu, next)
        },
        _ => (mode, selected),
    }
}

/// The mode and action that a (not bounced) press of the measure button
/// leads to.
pub open spec fn pressed(mode: AppMode, selected: usize) -> (AppMode, ButtonAction) {
    match mode {
        AppMode::Calibrating | AppMode::Measure | AppMode::Debug => (AppMode::Start, ButtonAction::Nothing),
        AppMode::Menu => if selected == 0 {
            (mode, ButtonAction::StartMeasurement)
        } else if selected == 1 {
            (mode, ButtonAction::StartDebug)
        } else if selected == 3 {
            (AppMode::Update, ButtonAction::Nothing)
        } else {
            (mode, ButtonAction::Nothing)
        },
        AppMode::Start | AppMode::Results => (mode, ButtonAction::StartMeasurement),
        AppMode::Update | AppMode::Unset => (mode, ButtonAction::Nothing),
    }
}

/// A press of the measure button, `since_last_ms` milliseconds after the
/// previous accepted one: a running calibration, measurement or debug view
/// is abandoned for the start screen; in the menu the selected entry is
/// taken (measure, debug, nothing, update); on the start and results
/// screens a measurement begins.
pub fn measure_button_press(since_last_ms: u64, mode: AppMode, selected: usize) -> (p: ButtonPress)
    ensures
        p.bounced == (since_last_ms < BUTTON_DEBOUNCE_MS),
        p.bounced ==> p.mode == mode && p.action == ButtonAction::Nothing,
        !p.bounced ==> (p.mode, p.action) == pressed(mode, selected),
{
    if since_last_ms < BUTTON_DEBOUNCE_MS {
        return ButtonPress { bounced: true, mode, action: ButtonAction::Nothing };
    }
    let (mode, action) = match mode {
        AppMode::Calibrating | AppMode::Measure | AppMode::Debug => (AppMode::Start, ButtonAction::Nothing),
        AppMode::Menu => match selected {
            0 => (mode, ButtonAction::StartMeasurement),
            1 => (mode, ButtonAction::StartDebug),
            3 => (AppMode::Update, ButtonAction::Nothing),
            _ => (mode, ButtonAction::Nothing),
        },
        AppMode::Start | AppMode::Results => (mode, ButtonAction::StartMeasurement),
        AppMode::Update | AppMode::Unset => (mode, ButtonAction::Nothing),
    };
    ButtonPress { bounced: false, mode, action }
}

/// One look of the measuring task at its progress: it stops when the mode
/// has left measuring, finishes when the measurement is done and otherwise
/// looks again after 100 ms.
pub fn measure_poll(mode: AppMode, done: bool) -> (r: MeasurePoll)
    ensures
        mode != AppMode::Measure ==> r == MeasurePoll::Cancelled,
        mode == AppMode::Measure && done ==> r == MeasurePoll::Finished,
        mode == AppMode::Measure && !done ==> r == MeasurePoll::Wait(100),
{
    if mode != AppMode::Measure {
        MeasurePoll::Cancelled
    } else if done {
        MeasurePoll::Finished
    } else {
        MeasurePoll::Wait(100)
    }
}

/// The pause between two frames of the display loop: fast for the live
/// debug view, slow while calibrating or waiting for a pulse.
pub fn frame_delay_ms(mode: AppMode) -> (ms: u32)
    ensures
        ms == match mode {
            AppMode::Debug => 5u32,
            AppMode::Calibrating | AppMode::Measure => 500u32,
            _ => 25u32,
        },
{
    match mode {
        AppMode::Debug => 5,
        AppMode::Calibrating | AppMode::Measure => 500,
        _ => 25,
    }
}

/// The mode the display loop has to switch its screen to, if the shared
/// mode differs from the one it shows.
pub fn changed_mode(shown: AppMode, current: AppMode) -> (r: Option<AppMode>)
    ensures
        r == (if shown == current { None } else { Some(current) }),
{
    if shown != current {
        Some(current)
    } else {
        None
    }
}

/// The mode after a press of the mode button on a device without a menu:
/// it switches between the debug view and the start screen, and leaves a
/// running calibration alone.
pub fn after_mode_button(mode: AppMode) -> (m: AppMode)
    ensures
        m == match mode {
            AppMode::Unset | AppMode::Results | AppMode::Start | AppMode::Measure => AppMode::Debug,
            AppMode::Debug => AppMode::Start,
            _ => mode,
        },
{
    match mode {
        AppMode::Unset | AppMode::Results | AppMode::Start | AppMode::Measure => AppMode::Debug,
        AppMode::Debug => AppMode::Start,
        _ => mode,
    }
}

/// A press of the measure button on a device without a menu: it abandons a
/// running measurement for the start screen, and otherwise starts a
/// measurement (returned as `true`) without changing the mode.
pub fn after_plain_measure_button(mode: AppMode) -> (r: (AppMode, bool))
    ensures
        r == (if mode == AppMode::Measure { (AppMode::Start, false) } else { (mode, true) }),
{
    if mode == AppMode::Measure {
        (AppMode::Start, false)
    } else {
        (mode, true)
    }
}

/// Turning the encoder in the menu one way and then the other comes back to
/// the same entry, and four turns the same way go round the whole menu.
pub proof fn law_menu_turns_wrap(selected: usize)
    requires
        selected < MENU_OPTIONS,
    ensures
        turned_selection(turned_selection(selected, Turn::Clockwise), Turn::Anticlockwise) == selected,
        turned_selection(turned_selection(selected, Turn::Anticlockwise), Turn::Clockwise) == selected,
        turned_selection(
            turned_selection(
                turned_selection(turned_selection(selected, Turn::Clockwise), Turn::Clockwise),
                Turn::Clockwise,
            ),
            Turn::Clockwise,
        ) == selected,
        turned_selection(selected, Turn::Clockwise) < MENU_OPTIONS,
        turned_selection(selected, Turn::Anticlockwise) < MENU_OPTIONS,
{
}

/// A press of the measure button that is not bounced always leaves a
/// running calibration, measurement or debug view, and never starts a new
/// task from them.
pub proof fn law_press_abandons_running_work(mode: AppMode, selected: usize)
    requires
        mode == AppMode::Calibrating || mode == AppMode::Measure || mode == AppMode::Debug,
    ensures
        pressed(mode, selected) == (AppMode::Start, ButtonAction::Nothing),
{
}

} // verus!
