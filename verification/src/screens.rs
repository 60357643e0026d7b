//! The state of the device's screens and the decisions that each frame
//! makes; the pixels themselves are drawn elsewhere.
use vstd::prelude::*;
use core::marker::PhantomData;
use crate::measurement::{CalibrationState, MeasurementResult};
use crate::ring::{history1000, ring_len, ring_oldest, ring_wf, ring_write, lemma_ring_write, h1000_new, h1000_write, h1000_oldest};
use crate::stats::{seq_max, seq_min, seq_sum, lemma_seq_sum_bound, max_u16, min_u16};

verus! {

/// Timing information handed to a screen for one frame.
pub struct DrawFrameContext {
    pub animation_time_ms: u32,
}

/// A display that can be asked to show what has been drawn so far.
pub trait HintRefresh {
    fn hint_refresh(&mut self);
}

/// The animated boot logo.
pub struct BootScreen<DT, E> {
    _phantom: PhantomData<(DT, E)>,
}

impl<DT, E> Default for BootScreen<DT, E> {
    fn default() -> (s: Self) {
        BootScreen { _phantom: PhantomData }
    }
}

/// The "ready" screen with its blinking square.
pub struct StartScreen<DT, E> {
    _phantom: PhantomData<(DT, E)>,
}

impl<DT, E> Default for StartScreen<DT, E> {
    fn default() -> (s: Self) {
        StartScreen { _phantom: PhantomData }
    }
}

impl<DT, E> StartScreen<DT, E> {
    /// Whether the square is lit: it blinks with a half-second phase.
    pub fn square_lit(cx: &DrawFrameContext) -> (lit: bool)
        ensures
            lit == ((cx.animation_time_ms / 500) % 2 == 0),
    {
        (cx.animation_time_ms / 500) % 2 == 0
    }
}

/// The calibration screen with its shrinking ring.
pub struct CalibrationScreen<DT, E> {
    progress: u8,
    _phantom: PhantomData<(DT, E)>,
}

impl<DT, E> Default for CalibrationScreen<DT, E> {
    fn default() -> (s: Self)
        ensures
            s.progress() == 0,
    {
        CalibrationScreen { progress: 0, _phantom: PhantomData }
    }
}

impl<DT, E> CalibrationScreen<DT, E> {
    pub closed spec fn progress(&self) -> u8 {
        self.progress
    }

    /// Takes the calibration's progress; a finished calibration counts as
    /// complete.
    pub fn step(&mut self, progress: Option<u8>)
        ensures
            final(self).progress() == match progress {
                Some(p) => p,
                None => 100u8,
            },
    {
        self.progress = match progress {
            Some(p) => p,
            None => 100,
        };
    }

    /// The progress in percent.
    pub fn percent(&self) -> (p: u8)
        ensures
            p == self.progress(),
    {
        self.progress
    }

    /// Diameter of the ring, which shrinks as the calibration progresses.
    pub fn ring_diameter(&self) -> (d: u32)
        requires
            self.progress() <= 100,
        ensures
            d == (100 - self.progress()) / 4,
    {
        ((100 - self.progress) / 4) as u32
    }
}

/// The screen shown while a measurement waits for a pulse, with three
/// dots of which one is lit.
pub struct MeasurementScreen<DT, E> {
    _phantom: PhantomData<(DT, E)>,
}

impl<DT, E> Default for MeasurementScreen<DT, E> {
    fn default() -> (s: Self) {
        MeasurementScreen { _phantom: PhantomData }
    }
}

impl<DT, E> MeasurementScreen<DT, E> {
    /// The lit dot (0 to 2), which moves on every second.
    pub fn lit_dot(cx: &DrawFrameContext) -> (i: u32)
        ensures
            i == (cx.animation_time_ms / 1000) % 3,
            i < 3,
    {
        (cx.animation_time_ms / 1000) % 3
    }
}

/// The lit dot (0 to 3) of the four-dot animation of a device without a
/// menu, which moves on every second.
pub fn four_dot_lit(secs: u64) -> (i: u64)
    ensures
        i == secs % 4,
        i < 4,
{
    secs % 4
}

/// The screen shown before rebooting into the firmware updater.
pub struct UpdateScreen<DT, E> {
    _phantom: PhantomData<(DT, E)>,
}

impl<DT, E> Default for UpdateScreen<DT, E> {
    fn default() -> (s: Self) {
        UpdateScreen { _phantom: PhantomData }
    }
}

/// Number of entries of the menu: measure, debug, sensitivity, USB update.
pub const MENU_OPTIONS: usize = 4;

/// What stands left of a menu entry.
pub enum MenuMarker {
    /// Nothing: the entry is not selected.
    Blank,
    /// An arrow: the selected entry is an action.
    Arrow,
    /// The selected sensitivity setting (0 to 2, shown as 1 to 3).
    Sensitivity(u8),
}

/// How one frame of the menu is drawn.
pub struct MenuFrame {
    /// Whether the entries' labels are drawn again (the selection moved).
    pub redraw_labels: bool,
    /// The entry drawn highlighted.
    pub selected: usize,
    /// The marker of each entry.
    pub markers: Vec<MenuMarker>,
}

/// The main menu.
pub struct MenuScreen<DT, E> {
    pub position: usize,
    pub sensitivity: u8,
    last_position: usize,
    _phantom: PhantomData<(DT, E)>,
}

impl<DT, E> Default for MenuScreen<DT, E> {
    fn default() -> (s: Self)
        ensures
            s.selected_entry() == 0,
            s.sensitivity_setting() == 0,
            s.drawn_position() == 999,
    {
        MenuScreen { position: 0, sensitivity: 0, last_position: 999, _phantom: PhantomData }
    }
}

impl MenuScreen<(), ()> {
    pub fn options_len() -> (n: usize)
        ensures
            n == MENU_OPTIONS,
    {
        MENU_OPTIONS
    }
}

/// The marker of entry `index` when `position` is selected.
pub open spec fn menu_marker(index: usize, position: usize, sensitivity: u8) -> MenuMarker {
    if index != position {
        MenuMarker::Blank
    } else if index == 2 {
        MenuMarker::Sensitivity(sensitivity)
    } else {
        MenuMarker::Arrow
    }
}

impl<DT, E> MenuScreen<DT, E> {
    /// The selection that the labels were last drawn for.
    pub closed spec fn drawn_position(&self) -> usize {
        self.last_position
    }

    pub closed spec fn selected_entry(&self) -> usize {
        self.position
    }

    pub closed spec fn sensitivity_setting(&self) -> u8 {
        self.sensitivity
    }

    /// Plans one frame: labels are drawn again when the selection moved,
    /// the selected entry gets an arrow (or the sensitivity setting for the
    /// sensitivity entry), the others a blank; the selection is then
    /// remembered as drawn.
    pub fn plan_frame(&mut self) -> (f: MenuFrame)
        requires
            old(self).selected_entry() != 2 || old(self).sensitivity_setting() < 3,
        ensures
            f.redraw_labels == (old(self).drawn_position() != old(self).selected_entry()),
            f.selected == old(self).selected_entry(),
            f.markers@.len() == MENU_OPTIONS,
            forall|i: int| 0 <= i < MENU_OPTIONS ==> #[trigger] f.markers@[i] == menu_marker(
                i as usize,
                old(self).selected_entry(),
                old(self).sensitivity_setting(),
            ),
            final(self).selected_entry() == old(self).selected_entry(),
            final(self).sensitivity_setting() == old(self).sensitivity_setting(),
            final(self).drawn_position() == old(self).selected_entry(),
    {
        let redraw_labels = self.last_position != self.position;
        let mut markers: Vec<MenuMarker> = Vec::new();
        let mut index: usize = 0;
        while index < MENU_OPTIONS
            invariant
                index <= MENU_OPTIONS,
                markers@.len() == index,
                forall|i: int| 0 <= i < index ==> #[trigger] markers@[i] == menu_marker(
                    i as usize,
                    self.position,
                    self.sensitivity,
                ),
            decreases MENU_OPTIONS - index,
        {
            let marker = if index != self.position {
                MenuMarker::Blank
            } else if index == 2 {
                MenuMarker::Sensitivity(self.sensitivity)
            } else {
                MenuMarker::Arrow
            };
            markers.push(marker);
            index = index + 1;
        }
        self.last_position = self.position;
        MenuFrame { redraw_labels, selected: self.position, markers }
    }
}

/// Capacity of the debug view's light level history.
pub const DEBUG_HISTORY_LEN: usize = 1000;

/// The light level of the most recent samples: average, minimum and
/// maximum.
pub struct RecentLevels {
    pub average: u16,
    pub min: u16,
    pub max: u16,
}

/// The last (up to) ten samples, oldest first.
pub open spec fn recent(s: Seq<u16>) -> Seq<u16> {
    let n: int = if s.len() < 10 { s.len() as int } else { 10 };
    s.skip(s.len() - n)
}

/// Whether the trigger is held after `value`: it engages above the high
/// threshold and releases below the low one.
pub open spec fn triggered_after(triggered: bool, value: u16, low: u16, high: u16) -> bool {
    let engaged = if !triggered && value > high { true } else { triggered };
    if engaged && value < low { false } else { engaged }
}

/// The trigger of the debug view has hysteresis: a level between the two
/// thresholds leaves it as it was, a level below the low threshold always
/// releases it, and a level above both thresholds always engages it.
pub proof fn law_trigger_hysteresis(triggered: bool, value: u16, low: u16, high: u16)
    ensures
        low <= value <= high ==> triggered_after(triggered, value, low, high) == triggered,
        value < low ==> !triggered_after(triggered, value, low, high),
        value > high && value >= low ==> triggered_after(triggered, value, low, high),
{
}

/// The debug view: the light level against the calibration and the
/// trigger thresholds.
pub struct DebugScreen<DT, E> {
    adc_history: heapless::HistoryBuffer<u16, 1000>,
    is_triggered: bool,
    calibration: u16,
    threshold_low: u16,
    threshold_high: u16,
    max_value: u16,
    _phantom: PhantomData<(DT, E)>,
}

impl<DT, E> DebugScreen<DT, E> {
    pub closed spec fn history(&self) -> (Seq<u16>, Seq<u16>) {
        history1000(self.adc_history)
    }

    pub closed spec fn triggered(&self) -> bool {
        self.is_triggered
    }

    /// Calibration value, low and high threshold, and full scale.
    pub closed spec fn levels(&self) -> (u16, u16, u16, u16) {
        (self.calibration, self.threshold_low, self.threshold_high, self.max_value)
    }

    pub open spec fn wf(&self) -> bool {
        ring_wf(self.history(), 1000)
    }

    /// A debug view for a calibration value, the thresholds that the
    /// trigger settings give for it, and the full scale of the sensor.
    pub fn new(calibration: u16, threshold_low: u16, threshold_high: u16, max_value: u16) -> (s: Self)
        ensures
            s.wf(),
            s.history() == (Seq::<u16>::empty(), Seq::<u16>::empty()),
            !s.triggered(),
            s.levels() == (calibration, threshold_low, threshold_high, max_value),
    {
        DebugScreen {
            adc_history: h1000_new(),
            is_triggered: false,
            calibration,
            threshold_low,
            threshold_high,
            max_value,
            _phantom: PhantomData,
        }
    }

    /// Records a sample and updates the trigger indicator.
    pub fn step(&mut self, adc_value: u16)
        requires
            old(self).wf(),
        ensures
            final(self).wf(),
            final(self).history() == ring_write(old(self).history(), 1000, adc_value),
            final(self).levels() == old(self).levels(),
            final(self).triggered() == triggered_after(
                old(self).triggered(),
                adc_value,
                old(self).levels().1,
                old(self).levels().2,
            ),
    {
        proof {
            lemma_ring_write(history1000(self.adc_history), 1000, adc_value);
        }
        h1000_write(&mut self.adc_history, adc_value);
        if !self.is_triggered && adc_value > self.threshold_high {
            self.is_triggered = true;
        }
        if self.is_triggered && adc_value < self.threshold_low {
            self.is_triggered = false;
        }
    }

    /// The number of samples in the light level history.
    pub fn history_len(&self) -> (n: usize)
        ensures
            n == ring_len(self.history()),
    {
        let h = h1000_oldest(&self.adc_history);
        h.len()
    }

    /// The most recent sample, or 0 before the first one.
    pub fn last_adc_value(&self) -> (v: u16)
        ensures
            v == if ring_oldest(self.history()).len() == 0 { 0 } else { ring_oldest(self.history()).last() },
    {
        let h = h1000_oldest(&self.adc_history);
        if h.len() == 0 {
            0
        } else {
            h[h.len() - 1]
        }
    }

    /// Average, minimum and maximum of the last (up to) ten samples.
    pub fn recent_levels(&self) -> (r: RecentLevels)
        requires
            ring_len(self.history()) > 0,
        ensures
            r.average == seq_sum(recent(ring_oldest(self.history()))) / recent(ring_oldest(self.history())).len(),
            r.min == seq_min(recent(ring_oldest(self.history()))),
            r.max == seq_max(recent(ring_oldest(self.history()))),
    {
        let h = h1000_oldest(&self.adc_history);
        let n = h.len();
        let recent_samples = if n < 10 { n } else { 10 };
        let mut last: Vec<u16> = Vec::new();
        let mut i = n - recent_samples;
        while i < n
            invariant
                n == h@.len(),
                recent_samples <= n,
                recent_samples <= 10,
                n - recent_samples <= i <= n,
                last@ == h@.subrange(n - recent_samples, i as int),
            decreases n - i,
        {
            last.push(h[i]);
            i = i + 1;
        }
        assert(last@ =~= recent(h@));
        proof {
            lemma_seq_sum_bound(last@);
        }
        let mut sum: u32 = 0;
        let mut j: usize = 0;
        while j < last.len()
            invariant
                last@.len() <= 10,
                j <= last@.len(),
                sum == seq_sum(last@.take(j as int)),
            decreases last@.len() - j,
        {
            proof {
                assert(last@.take(j as int + 1).drop_last() =~= last@.take(j as int));
                lemma_seq_sum_bound(last@.take(j as int + 1));
            }
            sum = sum + last[j] as u32;
            j = j + 1;
        }
        assert(last@.take(last@.len() as int) =~= last@);
        proof {
            let s = seq_sum(last@) as int;
            let c = recent_samples as int;
            assert(s / c <= 65535) by (nonlinear_arith)
                requires
                    0 <= s <= c * 65535,
                    c > 0,
            {
                assert(s / c * c <= s);
            }
        }
        RecentLevels {
            average: (sum / recent_samples as u32) as u16,
            min: min_u16(&last),
            max: max_u16(&last),
        }
    }

    /// The sample noise shown for a pair of extremes: half their spread.
    pub fn noise(levels: &RecentLevels) -> (n: u16)
        requires
            levels.min <= levels.max,
        ensures
            n == (levels.max - levels.min) / 2,
    {
        (levels.max - levels.min) / 2
    }

    pub fn calibration(&self) -> (v: u16)
        ensures
            v == self.levels().0,
    {
        self.calibration
    }

    pub fn threshold_low(&self) -> (v: u16)
        ensures
            v == self.levels().1,
    {
        self.threshold_low
    }

    pub fn threshold_high(&self) -> (v: u16)
        ensures
            v == self.levels().2,
    {
        self.threshold_high
    }

    pub fn max_value(&self) -> (v: u16)
        ensures
            v == self.levels().3,
    {
        self.max_value
    }

    pub fn is_triggered(&self) -> (b: bool)
        ensures
            b == self.triggered(),
    {
        self.is_triggered
    }
}

/// The results of a measurement together with the calibration it was made
/// against.
pub struct ResultsScreen<DT, E> {
    pub calibration: CalibrationState,
    pub result: MeasurementResult,
    _phantom: PhantomData<(DT, E)>,
}

impl<DT, E> ResultsScreen<DT, E> {
    pub closed spec fn shown(&self) -> (CalibrationState, MeasurementResult) {
        (self.calibration, self.result)
    }

    pub fn new(calibration: CalibrationState, result: MeasurementResult) -> (s: Self)
        ensures
            s.shown() == (calibration, result),
    {
        ResultsScreen { calibration, result, _phantom: PhantomData }
    }
}

/// How the shutter speed of a result is shown: as a fraction `1/x` of a
/// second for exposures shorter than half a second, as seconds otherwise;
/// a zero duration is shown as one microsecond.
#[derive(Debug, Clone, Copy, PartialEq, Eq, Structural)]
pub struct ShutterSpeedDisplay {
    pub micros: u64,
    pub inverse: bool,
}

pub fn shutter_speed_display(integrated_duration_micros: u64) -> (d: ShutterSpeedDisplay)
    ensures
        d.micros == (if integrated_duration_micros >= 1 { integrated_duration_micros } else { 1 }),
        d.inverse == (d.micros < 500_000),
{
    let micros = if integrated_duration_micros >= 1 { integrated_duration_micros } else { 1 };
    ShutterSpeedDisplay { micros, inverse: micros < 500_000 }
}

/// How far a measured speed is off the nearest nominal one.
#[derive(Debug, Clone, Copy, PartialEq, Eq, Structural)]
pub enum DeviationGrade {
    Good,
    Fair,
    Bad,
}

/// The deviation shown on the results screen: its size in percent, its
/// grade (under 15 % good, under 30 % fair, bad beyond) and whether the
/// pointer beside it points up (the shutter was slower than nominal).
#[derive(Debug, Clone, Copy, PartialEq, Eq, Structural)]
pub struct DeviationDisplay {
    pub percent: u16,
    pub grade: DeviationGrade,
    pub pointer_up: bool,
}

pub open spec fn abs16(p: i16) -> int {
    if p < 0 { -p } else { p as int }
}

pub fn deviation_display(percent_offset: i16) -> (d: DeviationDisplay)
    requires
        percent_offset > i16::MIN,
    ensures
        d.percent == abs16(percent_offset),
        d.grade == (if abs16(percent_offset) < 15 {
            DeviationGrade::Good
        } else if abs16(percent_offset) < 30 {
            DeviationGrade::Fair
        } else {
            DeviationGrade::Bad
        }),
        d.pointer_up == (percent_offset > 0),
{
    let magnitude: i16 = if percent_offset < 0 { -percent_offset } else { percent_offset };
    let grade = if magnitude < 15 {
        DeviationGrade::Good
    } else if magnitude < 30 {
        DeviationGrade::Fair
    } else {
        DeviationGrade::Bad
    };
    DeviationDisplay { percent: magnitude as u16, grade, pointer_up: percent_offset > 0 }
}

/// The light level shown by the debug view: the average relative to the
/// calibration.
pub fn relative_level(average: u16, calibration: u16) -> (r: i32)
    ensures
        r == average - calibration,
{
    average as i32 - calibration as i32
}

/// The heights of the arrows of the screen that asks for a sensor module,
/// from the first to the last step of their animation.
pub open spec fn arrow_offsets() -> Seq<i32> {
    seq![12i32, 12, 12, 9, 6, 4, 2, 2, 2, 2, 2]
}

/// Which arrows are lit at `animation_time_ms`: the animation moves on
/// every 150 ms, and every arrow at the height of the current step is lit.
pub fn arrows_lit(animation_time_ms: u32) -> (lit: Vec<bool>)
    ensures
        lit@.len() == arrow_offsets().len(),
        forall|i: int| 0 <= i < lit@.len() ==> #[trigger] lit@[i] == (arrow_offsets()[i] == arrow_offsets()[((animation_time_ms / 150) % 11) as int]),
{
    let offsets: Vec<i32> = vec![12, 12, 12, 9, 6, 4, 2, 2, 2, 2, 2];
    assert(offsets@ =~= arrow_offsets());
    let current = ((animation_time_ms / 150) % 11) as usize;
    let mut lit: Vec<bool> = Vec::new();
    let mut i: usize = 0;
    while i < offsets.len()
        invariant
            offsets@ == arrow_offsets(),
            current == (animation_time_ms / 150) % 11,
            i <= offsets@.len(),
            lit@.len() == i,
            forall|k: int| 0 <= k < i ==> #[trigger] lit@[k] == (arrow_offsets()[k] == arrow_offsets()[current as int]),
        decreases offsets@.len() - i,
    {
        lit.push(offsets[i] == offsets[current]);
        i = i + 1;
    }
    lit
}

/// The height of arrow `i` on the screen that asks for a sensor module.
pub fn arrow_offset(i: usize) -> (o: i32)
    requires
        i < 11,
    ensures
        o == arrow_offsets()[i as int],
{
    let offsets: Vec<i32> = vec![12, 12, 12, 9, 6, 4, 2, 2, 2, 2, 2];
    assert(offsets@ =~= arrow_offsets());
    offsets[i]
}

} // verus!
