use embedded_graphics::pixelcolor::Rgb565;
use embedded_graphics::prelude::RgbColor;
use shutter_tester::fx::{FXParams, FX};
use shutter_tester::history_iter::HistoryBufferDoubleEndedIterator;
use shutter_tester::screens::{
    arrow_offset, arrows_lit, CalibrationScreen, DebugScreen, DrawFrameContext, MeasurementScreen, MenuMarker,
    MenuScreen, StartScreen,
};
use shutter_tester::sound::{play, BeeperCommand};
use shutter_tester::stats::{max_u16, min_u16, sum_u64};

#[test]
fn dithering_alternates_on_a_checkerboard() {
    let c = Rgb565::new(10, 20, 10);
    let p = FXParams::default();
    assert_eq!(FX::<(), ()>::map_pixel(0, 0, c, p), Rgb565::new(16, 32, 16));
    assert_eq!(FX::<(), ()>::map_pixel(1, 0, c, p), Rgb565::new(4, 8, 4));
    assert_eq!(FX::<(), ()>::map_pixel(1, 1, c, p), Rgb565::new(16, 32, 16));
    // Negative coordinates count as even.
    assert_eq!(FX::<(), ()>::map_pixel(-1, 0, c, p), Rgb565::new(16, 32, 16));
    // Brightening stops at full scale, darkening at zero.
    assert_eq!(FX::<(), ()>::map_pixel(0, 0, Rgb565::WHITE, p), Rgb565::WHITE);
    assert_eq!(FX::<(), ()>::map_pixel(1, 0, Rgb565::BLACK, p), Rgb565::BLACK);

    let mut target = 7u32;
    let mut fx: FX<u32, ()> = FX::new(&mut target, p);
    assert_eq!(*fx.target(), 7);
    fx.step_params();
    assert_eq!(fx.params().t(), 1);
    // The checkerboard flips with every step.
    assert_eq!(FX::<(), ()>::map_pixel(0, 0, c, fx.params()), Rgb565::new(4, 8, 4));
    *fx.inner() = 9;
    assert_eq!(target, 9);
}

#[test]
fn history_walk_from_both_ends() {
    let mut buf = heapless::HistoryBuffer::<u16, 100>::new();
    for v in [1u16, 2, 3] {
        buf.write(v);
    }
    let mut it = HistoryBufferDoubleEndedIterator::new(&buf);
    assert_eq!(it.size_hint(), (3, Some(3)));
    assert_eq!(it.len(), 3);
    // The front advances before it reads, so the oldest item is passed over.
    assert_eq!(it.next(), Some(2));
    assert_eq!(it.next(), Some(3));
    assert_eq!(it.next(), None);
    let mut back = HistoryBufferDoubleEndedIterator::new(&buf);
    assert_eq!(back.next_back(), Some(3));
    assert_eq!(back.next_back(), Some(2));
    assert_eq!(back.next_back(), Some(1));
    assert_eq!(back.next_back(), None);
    assert_eq!(back.len(), 3);
}

#[test]
fn history_walk_over_a_wrapped_buffer() {
    let mut buf = heapless::HistoryBuffer::<u16, 100>::new();
    for v in 0..150u16 {
        buf.write(v);
    }
    let mut back = HistoryBufferDoubleEndedIterator::new(&buf);
    assert_eq!(back.next_back(), Some(149));
    let mut front = HistoryBufferDoubleEndedIterator::new(&buf);
    assert_eq!(front.next(), Some(51));
}

#[test]
fn debug_view_tracks_level_and_trigger() {
    let mut d: DebugScreen<(), ()> = DebugScreen::new(100, 150, 200, 4095);
    assert_eq!(d.history_len(), 0);
    assert_eq!(d.last_adc_value(), 0);
    d.step(120);
    assert!(!d.is_triggered());
    d.step(210);
    assert!(d.is_triggered());
    d.step(160);
    assert!(d.is_triggered());
    d.step(140);
    assert!(!d.is_triggered());
    assert_eq!(d.history_len(), 4);
    assert_eq!(d.last_adc_value(), 140);
    let levels = d.recent_levels();
    assert_eq!((levels.average, levels.min, levels.max), (157, 120, 210));
    assert_eq!(DebugScreen::<(), ()>::noise(&levels), 45);
    assert_eq!((d.calibration(), d.threshold_low(), d.threshold_high(), d.max_value()), (100, 150, 200, 4095));
}

#[test]
fn debug_view_averages_the_last_ten() {
    let mut d: DebugScreen<(), ()> = DebugScreen::new(0, 10, 20, 4095);
    for v in 0..20u16 {
        d.step(v);
    }
    let levels = d.recent_levels();
    assert_eq!((levels.average, levels.min, levels.max), (14, 10, 19));
}

#[test]
fn menu_frames() {
    assert_eq!(MenuScreen::options_len(), 4);
    let mut m: MenuScreen<(), ()> = MenuScreen::default();
    let f = m.plan_frame();
    assert!(f.redraw_labels);
    assert_eq!(f.selected, 0);
    assert!(matches!(f.markers[0], MenuMarker::Arrow));
    assert!(matches!(f.markers[1], MenuMarker::Blank));
    let f = m.plan_frame();
    assert!(!f.redraw_labels);
    m.position = 2;
    m.sensitivity = 1;
    let f = m.plan_frame();
    assert!(f.redraw_labels);
    assert!(matches!(f.markers[2], MenuMarker::Sensitivity(1)));
    assert!(matches!(f.markers[0], MenuMarker::Blank));
}

#[test]
fn animations() {
    let cx = |t| DrawFrameContext { animation_time_ms: t };
    assert!(StartScreen::<(), ()>::square_lit(&cx(0)));
    assert!(!StartScreen::<(), ()>::square_lit(&cx(500)));
    assert!(StartScreen::<(), ()>::square_lit(&cx(1999)) == false);
    assert_eq!(MeasurementScreen::<(), ()>::lit_dot(&cx(2500)), 2);
    assert_eq!(MeasurementScreen::<(), ()>::lit_dot(&cx(3000)), 0);
    let mut c: CalibrationScreen<(), ()> = CalibrationScreen::default();
    c.step(Some(40));
    assert_eq!(c.percent(), 40);
    assert_eq!(c.ring_diameter(), 15);
    c.step(None);
    assert_eq!(c.percent(), 100);
    assert_eq!(c.ring_diameter(), 0);
    assert_eq!(arrows_lit(0), vec![true, true, true, false, false, false, false, false, false, false, false]);
    assert_eq!(arrows_lit(900), vec![false, false, false, false, false, false, true, true, true, true, true]);
    assert_eq!(arrow_offset(3), 9);
}

#[test]
fn sample_statistics() {
    assert_eq!(sum_u64(&vec![1, 2, 3]), 6);
    assert_eq!(min_u16(&vec![]), 0);
    assert_eq!(max_u16(&vec![]), 0);
    assert_eq!(min_u16(&vec![5, 3, 9]), 3);
    assert_eq!(max_u16(&vec![5, 3, 9]), 9);
}

#[test]
fn playing_a_note_appends_its_commands() {
    let mut v = vec![BeeperCommand::Disable];
    play(&mut v, 22, 100);
    assert_eq!(
        v,
        vec![
            BeeperCommand::Disable,
            BeeperCommand::SetDuty(10),
            BeeperCommand::Note(79),
            BeeperCommand::Wait(10),
            BeeperCommand::SetDuty(50),
            BeeperCommand::Note(91),
            BeeperCommand::Wait(100),
            BeeperCommand::Disable,
        ]
    );
}

#[test]
fn menu_sensitivity_only_matters_on_its_entry() {
    let mut m: MenuScreen<(), ()> = MenuScreen::default();
    m.position = 3;
    m.sensitivity = 7;
    let f = m.plan_frame();
    assert!(f.redraw_labels);
    assert_eq!(f.selected, 3);
    assert!(matches!(f.markers[3], MenuMarker::Arrow));
    assert!(matches!(f.markers[2], MenuMarker::Blank));
    let f = m.plan_frame();
    assert!(!f.redraw_labels);
}
