use emblinkenator::devices::manager::DeviceKind;
use emblinkenator::frame::{FrameData, FrameSink, FrameTimeKeeper};
use emblinkenator::id::DeviceId;

#[test]
fn frame_data_counts_whole_seconds() {
    assert_eq!(FrameData::new(0, 1000, 25).whole_seconds_elapsed, 0);
    assert_eq!(FrameData::new(24, 1000, 25).whole_seconds_elapsed, 0);
    assert_eq!(FrameData::new(25, 1000, 25).whole_seconds_elapsed, 1);
    assert_eq!(FrameData::new(26, 1000, 25).whole_seconds_elapsed, 1);
    assert_eq!(FrameData::new(250, 1000, 25).whole_seconds_elapsed, 10);
}

#[test]
fn seconds_elapsed_is_frame_times_interval() {
    let frame = FrameData::new(7, 1000, 25);
    assert_eq!(frame.seconds_elapsed_numerator(), 7000);
    assert_eq!(frame.seconds_elapsed_denominator(), 25000);
    let seconds = frame.seconds_elapsed_numerator() as f32 / frame.seconds_elapsed_denominator() as f32;
    assert_eq!(seconds, 0.28);
    assert_eq!(FrameData::num_fields(), 5);
}

#[test]
fn zero_denominator_has_no_whole_seconds_at_frame_zero() {
    assert_eq!(FrameData::new(0, 1000, 0).whole_seconds_elapsed, 0);
    assert_eq!(FrameData::new(1, 1000, 0).whole_seconds_elapsed, u32::MAX);
    assert_eq!(FrameData::new(5, 0, 0).whole_seconds_elapsed, 0);
}

#[test]
fn whole_seconds_are_held_at_the_largest_count() {
    assert_eq!(FrameData::new(u32::MAX, u32::MAX, 1).whole_seconds_elapsed, u32::MAX);
}

#[test]
fn frame_cadence() {
    let mut keeper = FrameTimeKeeper::new(1000, 25, 10);
    for k in 1..=25u32 {
        let tick = keeper.tick(40).unwrap();
        assert_eq!(tick.frame_data.frame, k);
        assert_eq!(tick.next_frame_data.frame, k + 1);
        let seconds = tick.frame_data.seconds_elapsed_numerator() as f64
            / tick.frame_data.seconds_elapsed_denominator() as f64;
        assert!(seconds >= 0.04 * k as f64 - 1e-12);
        assert!(seconds <= 0.04 * k as f64 + 1e-9);
        assert!(!tick.running_late);
        assert_eq!(tick.late_by_ms, 0);
    }
    assert_eq!(keeper.frame(), 25);
    assert_eq!(keeper.tick(40).unwrap().frame_data.whole_seconds_elapsed, 1);
}

#[test]
fn frames_increase_strictly() {
    let mut keeper = FrameTimeKeeper::new(1000, 30, 3);
    let mut last = keeper.frame();
    for elapsed in [0u128, 33, 34, 900, 1, 33] {
        let tick = keeper.tick(elapsed).unwrap();
        assert!(tick.frame_data.frame > last);
        assert_eq!(tick.frame_data.frame, last + 1);
        last = tick.frame_data.frame;
    }
}

#[test]
fn late_frame_warning() {
    let mut keeper = FrameTimeKeeper::new(1000, 25, 10);
    // A stall of 200 ms against an interval of 40 ms.
    let stalled = keeper.tick(200).unwrap();
    assert_eq!(stalled.late_by_ms, 160);
    assert_eq!(keeper.cumulative_lateness_ms(), 160);
    assert!(!stalled.running_late);
    // Two more stalls take the lateness past 400 ms: one warning.
    let second = keeper.tick(200).unwrap();
    assert_eq!(second.late_by_ms, 320);
    assert!(!second.running_late);
    let third = keeper.tick(200).unwrap();
    assert_eq!(third.late_by_ms, 480);
    assert!(third.running_late);
    // Still late, but the warning is not repeated.
    let fourth = keeper.tick(40).unwrap();
    assert_eq!(fourth.late_by_ms, 480);
    assert!(!fourth.running_late);
}

#[test]
fn on_time_frames_pay_lateness_back() {
    let mut keeper = FrameTimeKeeper::new(1000, 25, 10);
    assert_eq!(keeper.tick(200).unwrap().late_by_ms, 160);
    assert_eq!(keeper.tick(0).unwrap().late_by_ms, 120);
    assert_eq!(keeper.tick(20).unwrap().late_by_ms, 100);
    assert_eq!(keeper.tick(40).unwrap().late_by_ms, 100);
    for _ in 0..3 {
        keeper.tick(0).unwrap();
    }
    assert_eq!(keeper.cumulative_lateness_ms(), 0);
    assert_eq!(keeper.tick(0).unwrap().late_by_ms, 0);
}

#[test]
fn lateness_is_exact_for_fractional_intervals() {
    // 1000/30 ms per frame: 34 ms is two thirds of a millisecond late.
    let mut keeper = FrameTimeKeeper::new(1000, 30, 10);
    assert_eq!(keeper.tick(34).unwrap().late_by_ms, 0);
    assert_eq!(keeper.tick(34).unwrap().late_by_ms, 1);
    assert_eq!(keeper.tick(34).unwrap().late_by_ms, 2);
}

#[test]
fn zero_budget_warns_on_the_first_tick_only() {
    let mut keeper = FrameTimeKeeper::new(1000, 25, 0);
    assert!(keeper.tick(40).unwrap().running_late);
    assert!(!keeper.tick(40).unwrap().running_late);
}

#[test]
fn sinks_register_by_kind() {
    let mut keeper = FrameTimeKeeper::new(1000, 25, 10);
    keeper.send_frame_data_to_blocking("event_loop".to_string());
    keeper.send_frame_data_to_non_blocking("a".to_string());
    keeper.send_next_frame_data_to_blocking("b".to_string());
    keeper.send_next_frame_data_to_non_blocking("c".to_string());
    keeper.send_next_frame_data_to_non_blocking("d".to_string());
    keeper.send_next_frame_data_to_non_blocking("c".to_string());
    assert_eq!(keeper.sink_names(FrameSink::CurrentBlocking), vec!["event_loop"]);
    assert_eq!(keeper.sink_names(FrameSink::CurrentNonBlocking), vec!["a"]);
    assert_eq!(keeper.sink_names(FrameSink::NextBlocking), vec!["b"]);
    assert_eq!(keeper.sink_names(FrameSink::NextNonBlocking), vec!["c", "d"]);
}

#[test]
fn auxiliary_devices_are_told_the_coming_frame() {
    let mut keeper = FrameTimeKeeper::new(1000, 25, 10);
    let noise = DeviceId::new_from("noise".to_string());
    let strip = DeviceId::new_from("strip".to_string());
    assert!(keeper.on_device_added(&noise, DeviceKind::AuxiliaryData));
    assert!(!keeper.on_device_added(&strip, DeviceKind::LEDDataOutput));
    assert_eq!(keeper.sink_names(FrameSink::NextNonBlocking), vec!["noise"]);
    keeper.on_device_removed(&noise);
    assert!(keeper.sink_names(FrameSink::NextNonBlocking).is_empty());
}
