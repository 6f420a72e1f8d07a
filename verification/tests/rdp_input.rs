use ironrdp::pdu::input::fast_path::KeyboardFlags;
use ironrdp::pdu::input::mouse::PointerFlags;
use ironrdp::pdu::rdp::client_info::{PerformanceFlags, TimezoneInfo};
use rdpweb::config::Target;
use rdpweb::protocol::{ClientMsg, MouseButton, WheelTurn};
use rdpweb::rdp::{
    build_connector_config, clamp_u16, host_port, translate_input, InputEvent, KeyboardType,
    KEY_EXTENDED, KEY_RELEASE, PERFORMANCE_FLAGS, POINTER_DOWN, POINTER_HORIZONTAL_WHEEL, POINTER_LEFT,
    POINTER_MIDDLE, POINTER_MOVE, POINTER_RIGHT, POINTER_VERTICAL_WHEEL,
};

fn mouse(flags: u16, wheel_units: i16, x: u16, y: u16) -> InputEvent {
    InputEvent::Mouse { flags, wheel_units, x, y }
}

#[test]
fn brackets_ipv6_destination() {
    assert_eq!(host_port("2001:db8::20", 3389), "[2001:db8::20]:3389");
    assert_eq!(host_port("desktop", 3389), "desktop:3389");
}

#[test]
fn brackets_are_not_doubled() {
    assert_eq!(host_port("[2001:db8::20]", 3389), host_port("2001:db8::20", 3389));
    assert_eq!(host_port("", 0), ":0");
    assert_eq!(host_port("a", 65_535), "a:65535");
}

#[test]
fn clamps_pointer_coordinates() {
    assert_eq!(clamp_u16(-1), 0);
    assert_eq!(clamp_u16(42), 42);
    assert_eq!(clamp_u16(100_000), u16::MAX);
}

#[test]
fn flags_are_those_of_the_protocol() {
    assert_eq!(POINTER_MOVE, PointerFlags::MOVE.bits());
    assert_eq!(POINTER_LEFT, PointerFlags::LEFT_BUTTON.bits());
    assert_eq!(POINTER_RIGHT, PointerFlags::RIGHT_BUTTON.bits());
    assert_eq!(POINTER_MIDDLE, PointerFlags::MIDDLE_BUTTON_OR_WHEEL.bits());
    assert_eq!(POINTER_DOWN, PointerFlags::DOWN.bits());
    assert_eq!(POINTER_VERTICAL_WHEEL, PointerFlags::VERTICAL_WHEEL.bits());
    assert_eq!(POINTER_HORIZONTAL_WHEEL, PointerFlags::HORIZONTAL_WHEEL.bits());
    assert_eq!(KEY_RELEASE, KeyboardFlags::RELEASE.bits());
    assert_eq!(KEY_EXTENDED, KeyboardFlags::EXTENDED.bits());
    assert_eq!(PERFORMANCE_FLAGS, PerformanceFlags::default().bits());
}

#[test]
fn moving_is_remembered_for_buttons() {
    let mut pointer = (5, 6);
    let moved = translate_input(ClientMsg::MouseMove { x: -3, y: 70_000 }, None, &mut pointer);
    assert_eq!(moved, vec![mouse(0x0800, 0, 0, 65_535)]);
    assert_eq!(pointer, (0, 65_535));
    let cases = [
        (MouseButton::Left, 0x1000),
        (MouseButton::Middle, 0x4000),
        (MouseButton::Right, 0x2000),
    ];
    for (button, flag) in cases {
        let down =
            translate_input(ClientMsg::MouseButton { button, pressed: true }, None, &mut pointer);
        let up =
            translate_input(ClientMsg::MouseButton { button, pressed: false }, None, &mut pointer);
        assert_eq!(down, vec![mouse(flag | 0x8000, 0, 0, 65_535)]);
        assert_eq!(up, vec![mouse(flag, 0, 0, 65_535)]);
    }
    assert_eq!(pointer, (0, 65_535));
}

#[test]
fn wheels_turn_the_right_way() {
    let mut pointer = (5, 6);
    let mut turn = |dx: WheelTurn, dy: WheelTurn| {
        translate_input(ClientMsg::Wheel { dx, dy }, None, &mut pointer)
    };
    assert_eq!(turn(WheelTurn::Still, WheelTurn::Still), Vec::new());
    assert_eq!(turn(WheelTurn::Still, WheelTurn::Forward), vec![mouse(0x0200, -120, 5, 6)]);
    assert_eq!(turn(WheelTurn::Still, WheelTurn::Backward), vec![mouse(0x0200, 120, 5, 6)]);
    assert_eq!(turn(WheelTurn::Forward, WheelTurn::Still), vec![mouse(0x0400, 120, 5, 6)]);
    assert_eq!(
        turn(WheelTurn::Backward, WheelTurn::Backward),
        vec![mouse(0x0200, 120, 5, 6), mouse(0x0400, -120, 5, 6)]
    );
}

#[test]
fn keys_carry_their_flags() {
    let mut pointer = (0, 0);
    let mut key = |pressed: bool, scancode: Option<(u8, bool)>| {
        let code = "KeyA".to_owned();
        translate_input(ClientMsg::Key { code, pressed }, scancode, &mut pointer)
    };
    let event = |flags: u8| vec![InputEvent::Key { flags, scancode: 0x1e }];
    assert_eq!(key(true, Some((0x1e, false))), event(0));
    assert_eq!(key(false, Some((0x1e, false))), event(1));
    assert_eq!(key(true, Some((0x1e, true))), event(2));
    assert_eq!(key(false, Some((0x1e, true))), event(3));
    assert_eq!(key(true, None), Vec::new());
}

#[test]
fn connector_takes_credentials_and_desktop_from_target() {
    let config = build_connector_config(&Target {
        protocol: None,
        name: None,
        host: "h".to_owned(),
        port: 1,
        username: "u".to_owned(),
        password: "p".to_owned(),
        width: 11,
        height: 12,
    });
    assert_eq!((config.username.as_str(), config.password.as_str()), ("u", "p"));
    assert_eq!((config.desktop_width, config.desktop_height), (11, 12));
    assert!(config.enable_tls && config.enable_credssp);
    assert!(!config.autologon && !config.enable_server_pointer);
    assert!(!config.pointer_software_rendering && !config.enable_audio_playback);
    assert_eq!(config.keyboard_type, KeyboardType::IbmEnhanced);
    assert_eq!(config.keyboard_functional_keys_count, 12);
    assert_eq!((config.keyboard_subtype, config.keyboard_layout, config.client_build), (0, 0, 0));
    assert_eq!(config.client_name, "rdpweb");
    assert_eq!(config.client_dir, "C:\\Windows\\System32\\mstscax.dll");
    assert_eq!(config.desktop_scale_factor, 0);
    assert_eq!(config.alternate_shell, "");
    assert!(config.domain.is_none() && config.bitmap.is_none());
    assert!(config.compression_type.is_none() && config.request_data.is_none());
    assert!(config.multitransport_flags.is_none() && config.hardware_id.is_none());
    assert!(!config.license_cache);
    assert_eq!(config.performance_flags, PERFORMANCE_FLAGS);
    let plain = TimezoneInfo::default();
    let timezone = config.timezone_info;
    assert_eq!(
        (timezone.bias, timezone.standard_bias, timezone.daylight_bias),
        (plain.bias, plain.standard_bias, plain.daylight_bias)
    );
    assert_eq!(
        (timezone.standard_name, timezone.daylight_name),
        (plain.standard_name, plain.daylight_name)
    );
    assert!(plain.standard_date.0.is_none() && timezone.standard_date.is_none());
    assert!(plain.daylight_date.0.is_none() && timezone.daylight_date.is_none());
}
