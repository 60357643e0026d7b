use shutter_tester::bootloader::{
    is_dfu_boot_flag_set, request_dfu_boot, reset_bootloader_flags, take_boot_request, FLAG_REBOOT_DFU,
};
use shutter_tester::clock::{CycleDuration, LaxDuration, SYSCLK};
use shutter_tester::shapes::{cross_pixels, cross_strokes, pointer_corners, ruler_label, triangle_pixels, Spot};
use shutter_tester::chart::{
    can_plan_chart, can_plan_history_chart, can_plan_ring_chart, micros_label, plan_chart, plan_history_chart,
    plan_ring_chart, try_plan_chart, try_plan_history_chart, try_plan_ring_chart, ChartMarker, TimeUnit,
};
use shutter_tester::screens::{deviation_display, relative_level, shutter_speed_display, DeviationGrade};
use shutter_tester::sound::{chirp_program, BeeperCommand, Chirp, NOTE_A0};

#[test]
fn chart_layout_of_a_short_pulse() {
    let mut buf = heapless::HistoryBuffer::<u16, 712>::new();
    for v in [100u16, 100, 100, 1000, 1000, 1000, 1000, 100, 100, 100] {
        buf.write(v);
    }
    let p = plan_chart(&buf, 240, 5, Some(7), Some(3));
    assert_eq!(p.chunk_size, 1);
    assert_eq!(p.width, 10);
    assert_eq!(p.left, 115);
    assert_eq!(p.top, 5);
    assert_eq!(p.bottom, 24);
    assert_eq!(p.center_x, 119);
    assert_eq!((p.y_min, p.y_max), (0, 1000));
    assert_eq!(p.columns.len(), 10);
    let ys: Vec<i32> = p.columns.iter().map(|c| c.y).collect();
    assert_eq!(ys, vec![22, 22, 22, 4, 4, 4, 4, 22, 22, 22]);
    let xs: Vec<i32> = p.columns.iter().map(|c| c.x).collect();
    assert_eq!(xs, (115..125).collect::<Vec<i32>>());
    let lit: Vec<bool> = p.columns.iter().map(|c| c.integrated).collect();
    assert_eq!(lit, vec![false, false, false, false, true, true, true, false, false, false]);
    let span = p.span.expect("both markers are inside the chart");
    assert_eq!((span.start_x, span.end_x, span.line_y, span.label_x), (118, 122, 31, 120));
}

#[test]
fn chart_columns_average_runs_of_samples() {
    let mut buf = heapless::HistoryBuffer::<u16, 712>::new();
    for i in 0..700u16 {
        buf.write(if i < 350 { 10 } else { 30 });
    }
    // 700 samples on 220 pixels: four samples per column, 175 columns.
    let p = plan_chart(&buf, 240, 0, None, Some(0));
    assert_eq!(p.chunk_size, 4);
    assert_eq!(p.columns.len(), 175);
    assert_eq!(p.width, 175);
    assert_eq!(p.left, 120 - 87);
    // A flat-ish range (20) is not widened; a fifth of it goes below.
    assert_eq!((p.y_min, p.y_max), (6, 30));
    // The column over samples 348..352 averages 10, 10, 30, 30.
    assert_eq!(p.columns[87].y, 19 - (20 - 6) * 20 / 24);
    assert!(p.columns.iter().all(|c| !c.integrated));
    assert!(p.span.is_none());
}

#[test]
fn flat_chart_is_widened() {
    let mut buf = heapless::HistoryBuffer::<u16, 712>::new();
    for _ in 0..5 {
        buf.write(20);
    }
    let p = plan_chart(&buf, 100, 0, None, None);
    // 20..21 is widened to 0..71, then lowered by a fifth of 71.
    assert_eq!((p.y_min, p.y_max), (0, 71));
}

#[test]
fn durations_switch_to_milliseconds_above_ten() {
    assert_eq!(micros_label(2000), (2000, TimeUnit::Micros));
    assert_eq!(micros_label(10000), (10000, TimeUnit::Micros));
    assert_eq!(micros_label(12345), (12, TimeUnit::Millis));
}

#[test]
fn shutter_speed_is_inverted_below_half_a_second() {
    let d = shutter_speed_display(0);
    assert_eq!((d.micros, d.inverse), (1, true));
    let d = shutter_speed_display(499_999);
    assert!(d.inverse);
    let d = shutter_speed_display(500_000);
    assert!(!d.inverse);
}

#[test]
fn deviation_grades() {
    let d = deviation_display(14);
    assert_eq!((d.percent, d.grade, d.pointer_up), (14, DeviationGrade::Good, true));
    let d = deviation_display(-20);
    assert_eq!((d.percent, d.grade, d.pointer_up), (20, DeviationGrade::Fair, false));
    let d = deviation_display(30);
    assert_eq!(d.grade, DeviationGrade::Bad);
    let d = deviation_display(0);
    assert!(!d.pointer_up);
    assert_eq!(relative_level(90, 100), -10);
}

#[test]
fn beeper_programs() {
    assert_eq!(
        chirp_program(Chirp::Button),
        vec![BeeperCommand::Note(NOTE_A0 + 9), BeeperCommand::Wait(50), BeeperCommand::Disable]
    );
    let startup = chirp_program(Chirp::Startup);
    assert_eq!(startup.len(), 22);
    assert_eq!(startup[0], BeeperCommand::SetDuty(10));
    assert_eq!(startup[1], BeeperCommand::Note(67));
    assert_eq!(startup[4], BeeperCommand::Note(79));
    assert_eq!(startup[5], BeeperCommand::Wait(250));
    assert_eq!(startup[21], BeeperCommand::Wait(2000));
    let done = chirp_program(Chirp::Done);
    assert_eq!(done[4], BeeperCommand::Note(79));
    assert_eq!(done[11], BeeperCommand::Note(91));
    assert_eq!(done[12], BeeperCommand::Wait(100));
}

#[test]
fn bootloader_flag_round_trip() {
    let mut word = 12345u32;
    assert!(!is_dfu_boot_flag_set(word));
    request_dfu_boot(&mut word);
    assert_eq!(word, FLAG_REBOOT_DFU);
    assert!(is_dfu_boot_flag_set(word));
    reset_bootloader_flags(&mut word);
    assert_eq!(word, 0);
    assert!(!is_dfu_boot_flag_set(word));
}

#[test]
fn ring_chart_marks_start_and_end() {
    let mut buf = heapless::HistoryBuffer::<u16, 500>::new();
    for v in [100u16, 100, 100, 1000, 1000, 1000, 1000, 100, 100, 100] {
        buf.write(v);
    }
    let p = plan_ring_chart(&buf, 240, 25, Some(7), Some(3));
    assert_eq!((p.left, p.top, p.width, p.bottom), (10, 25, 220, 64));
    assert_eq!((p.y_min, p.y_max, p.chunk_size), (100, 1000, 1));
    let ys: Vec<i32> = p.columns.iter().map(|c| c.y).collect();
    assert_eq!(ys, vec![64, 64, 64, 24, 24, 24, 24, 64, 64, 64]);
    let lit: Vec<bool> = p.columns.iter().map(|c| c.integrated).collect();
    assert_eq!(lit, vec![false, false, false, false, true, true, true, false, false, false]);
    assert_eq!(p.start, Some(ChartMarker { x: 13, y: 24 }));
    assert_eq!(p.end, Some(ChartMarker { x: 17, y: 64 }));
}

#[test]
fn empty_ring_chart_has_no_columns() {
    let buf = heapless::HistoryBuffer::<u16, 500>::new();
    let p = plan_ring_chart(&buf, 240, 25, Some(0), None);
    assert!(p.columns.is_empty());
    assert_eq!((p.y_min, p.y_max), (0, 1));
    assert_eq!(p.start, None);
}

#[test]
fn history_chart_shows_the_newest_hundred() {
    let mut buf = heapless::HistoryBuffer::<u16, 100>::new();
    for v in 0..120u16 {
        buf.write(v);
    }
    let p = plan_history_chart(&buf, 240, 10);
    assert_eq!(p.columns.len(), 100);
    assert_eq!((p.y_min, p.y_max), (20, 119));
    assert_eq!(p.columns[0].y, 49);
    assert_eq!(p.columns[99].y, 9);
    assert_eq!(p.columns[50].y, 49 - 50 * 40 / 99);
    assert!(p.start.is_none() && p.end.is_none());
}

#[test]
fn boot_request_is_taken_once() {
    let mut word = FLAG_REBOOT_DFU;
    assert!(take_boot_request(&mut word));
    assert_eq!(word, 0);
    assert!(!take_boot_request(&mut word));
}

#[test]
fn cycle_counter_durations() {
    assert_eq!(SYSCLK, 84_000_000);
    assert_eq!(CycleDuration { ticks: 84_000 }.to_micros(), 1000);
    assert_eq!(CycleDuration { ticks: 84_083 }.to_micros(), 1000);
    assert_eq!(CycleDuration { ticks: 83 }.to_micros(), 0);
    assert_eq!(CycleDuration { ticks: 84 * 1_000_000 }.to_micros(), 1_000_000);
}

#[test]
fn shape_corners() {
    let (a, b, c) = pointer_corners(50, 60, 5, false);
    assert_eq!((a, b, c), (Spot { x: 50, y: 60 }, Spot { x: 55, y: 55 }, Spot { x: 45, y: 55 }));
    let (_, b, c) = pointer_corners(50, 60, 5, true);
    assert_eq!((b.y, c.y), (65, 65));
    let (l1, l2) = cross_strokes(10, 10, 2);
    assert_eq!(l1, (Spot { x: 8, y: 8 }, Spot { x: 12, y: 12 }));
    assert_eq!(l2, (Spot { x: 12, y: 8 }, Spot { x: 8, y: 12 }));
    assert_eq!(ruler_label(100, 20, 240), (90, false));
    assert_eq!(ruler_label(5, 20, 240), (-5, true));
    assert_eq!(ruler_label(235, 20, 240), (225, true));
}

#[test]
fn chart_preconditions_are_checked() {
    let empty = heapless::HistoryBuffer::<u16, 712>::new();
    assert!(!can_plan_chart(&empty, 240, 5, None, None));
    let mut buf = heapless::HistoryBuffer::<u16, 712>::new();
    for v in [1u16, 2, 3] {
        buf.write(v);
    }
    assert!(can_plan_chart(&buf, 240, 5, Some(3), Some(0)));
    assert!(!can_plan_chart(&buf, 240, 5, Some(4), None));
    assert!(!can_plan_chart(&buf, 20, 5, None, None));
    assert!(!can_plan_chart(&buf, 240, i32::MAX - 10, None, None));
    let mut top = heapless::HistoryBuffer::<u16, 712>::new();
    top.write(u16::MAX);
    assert!(!can_plan_chart(&top, 240, 5, None, None));
    // 712 samples on 21 pixels: 712 / 1 + 1 = 712 samples per column,
    // whose sum of 712 * 100 no longer fits 16 bits.
    let mut big = heapless::HistoryBuffer::<u16, 712>::new();
    for _ in 0..712 {
        big.write(100);
    }
    assert!(!can_plan_chart(&big, 21, 5, None, None));
    assert!(can_plan_chart(&big, 240, 5, None, None));

    let ring = heapless::HistoryBuffer::<u16, 500>::new();
    assert!(can_plan_ring_chart(&ring, 240, 5, Some(0), None));
    assert!(!can_plan_ring_chart(&ring, 240, 5, Some(1), None));
    let hist = heapless::HistoryBuffer::<u16, 100>::new();
    assert!(can_plan_history_chart(&hist, 240, 5));
    assert!(!can_plan_history_chart(&hist, 19, 5));
}

#[test]
fn pixel_cross_and_triangle() {
    let p = cross_pixels(10, 10, 2);
    assert_eq!(p.len(), 32);
    assert_eq!(&p[..4], &[Spot { x: 8, y: 12 }, Spot { x: 9, y: 11 }, Spot { x: 10, y: 10 }, Spot { x: 11, y: 9 }]);
    assert_eq!(p[4], Spot { x: 9, y: 12 });
    assert_eq!(p[31], Spot { x: 12, y: 12 });
    let t = triangle_pixels(50, 60, 3, false);
    assert_eq!(t.len(), 48);
    assert_eq!(&t[..3], &[Spot { x: 50, y: 60 }, Spot { x: 49, y: 59 }, Spot { x: 48, y: 58 }]);
    assert_eq!(&t[3..6], &[Spot { x: 50, y: 60 }, Spot { x: 51, y: 59 }, Spot { x: 52, y: 58 }]);
    assert_eq!(t[6], Spot { x: 47, y: 57 });
    assert_eq!(t[11], Spot { x: 52, y: 57 });
    assert_eq!(t[12], Spot { x: 51, y: 60 });
    let u = triangle_pixels(50, 60, 3, true);
    assert_eq!(u[1], Spot { x: 49, y: 61 });
    assert_eq!(u[6], Spot { x: 47, y: 63 });
}

#[test]
fn chart_plans_are_tried() {
    let empty = heapless::HistoryBuffer::<u16, 712>::new();
    assert!(try_plan_chart(&empty, 240, 5, None, None).is_none());
    let mut buf = heapless::HistoryBuffer::<u16, 712>::new();
    for v in [10u16, 10, 500, 500, 10] {
        buf.write(v);
    }
    assert!(try_plan_chart(&buf, 240, 5, Some(6), None).is_none());
    let tried = try_plan_chart(&buf, 240, 5, Some(3), Some(1)).unwrap();
    let planned = plan_chart(&buf, 240, 5, Some(3), Some(1));
    assert_eq!((tried.left, tried.top, tried.width, tried.bottom), (planned.left, planned.top, planned.width, planned.bottom));
    assert_eq!((tried.y_min, tried.y_max), (planned.y_min, planned.y_max));
    assert_eq!(tried.columns.len(), planned.columns.len());

    let mut ring = heapless::HistoryBuffer::<u16, 500>::new();
    ring.write(100);
    ring.write(900);
    assert!(try_plan_ring_chart(&ring, 240, 25, Some(3), None).is_none());
    let tried = try_plan_ring_chart(&ring, 240, 25, Some(2), Some(1)).unwrap();
    let planned = plan_ring_chart(&ring, 240, 25, Some(2), Some(1));
    assert_eq!((tried.y_min, tried.y_max, tried.chunk_size), (planned.y_min, planned.y_max, planned.chunk_size));
    assert_eq!(tried.columns.len(), 2);

    let mut hist = heapless::HistoryBuffer::<u16, 100>::new();
    hist.write(7);
    assert!(try_plan_history_chart(&hist, 19, 5).is_none());
    assert!(try_plan_history_chart(&hist, 240, i32::MAX - 10).is_none());
    let tried = try_plan_history_chart(&hist, 240, 10).unwrap();
    assert_eq!(tried.columns.len(), 1);
}
