use emblinkenator::devices::led_output::{output_tick, payload, FrameReceive, OutputAction};
use emblinkenator::led::LED;

#[test]
fn flat_u8_is_r_g_b() {
    assert_eq!(LED { r: 1, g: 2, b: 3 }.flat_u8(), vec![1, 2, 3]);
}

#[test]
fn default_is_dark() {
    assert_eq!(LED::default(), LED { r: 0, g: 0, b: 0 });
}

#[test]
fn integers_are_clamped_to_a_byte() {
    assert_eq!(LED::from_u32(&[0, 255, 256]), LED { r: 0, g: 255, b: 255 });
    assert_eq!(LED::from_u32(&[u32::MAX, 17, 300]), LED { r: 255, g: 17, b: 255 });
}

#[test]
fn a_slice_of_integers_converts_to_an_led() {
    let values = [7u32, 300, 9];
    assert_eq!(LED::from(&values[..]), LED { r: 7, g: 255, b: 9 });
    let short: &[u32] = &[1];
    let led: LED = short.into();
    assert_eq!(led, LED { r: 1, g: 0, b: 0 });
}

#[test]
fn missing_channels_are_dark() {
    assert_eq!(LED::from_u32(&[]), LED { r: 0, g: 0, b: 0 });
    assert_eq!(LED::from_u32(&[9]), LED { r: 9, g: 0, b: 0 });
    assert_eq!(LED::from_u32(&[9, 8]), LED { r: 9, g: 8, b: 0 });
    assert_eq!(LED::from_u32(&[9, 8, 7, 6]), LED { r: 9, g: 8, b: 7 });
}

#[test]
fn payload_is_three_bytes_per_led() {
    let frame = vec![LED { r: 1, g: 2, b: 3 }, LED { r: 4, g: 5, b: 6 }];
    assert_eq!(payload(&frame), vec![1, 2, 3, 4, 5, 6]);
    assert_eq!(payload(&Vec::new()), Vec::<u8>::new());
}

#[test]
fn output_device_sends_frames_and_reports_trouble() {
    let frame = vec![LED { r: 255, g: 0, b: 0 }];
    assert!(matches!(
        output_tick(&FrameReceive::Frame(frame)),
        OutputAction::Send(bytes) if bytes == vec![255, 0, 0]
    ));
    assert!(matches!(output_tick(&FrameReceive::Empty), OutputAction::Idle));
    assert!(matches!(output_tick(&FrameReceive::Closed), OutputAction::ReportClosed));
    assert!(matches!(output_tick(&FrameReceive::Lagged(3)), OutputAction::ReportLagged(3)));
}
