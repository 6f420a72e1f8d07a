//! The RDP side of a session: where to connect, how, and what to send.

use crate::config::Target;
use crate::protocol::{ClientMsg, MouseButton, WheelTurn};
use crate::text::{contains_char, push_number, starts_with_char};
use vstd::prelude::*;

verus! {

/// The pointer moved.
pub const POINTER_MOVE: u16 = 0x0800;

/// The left button.
pub const POINTER_LEFT: u16 = 0x1000;

/// The right button.
pub const POINTER_RIGHT: u16 = 0x2000;

/// The middle button.
pub const POINTER_MIDDLE: u16 = 0x4000;

/// A button went down.
pub const POINTER_DOWN: u16 = 0x8000;

/// The vertical wheel turned.
pub const POINTER_VERTICAL_WHEEL: u16 = 0x0200;

/// The horizontal wheel turned.
pub const POINTER_HORIZONTAL_WHEEL: u16 = 0x0400;

/// A key was released.
pub const KEY_RELEASE: u8 = 0x01;

/// A key of the extended set.
pub const KEY_EXTENDED: u8 = 0x02;

/// An input event for the server.
#[derive(Debug, Clone, Copy, PartialEq, Eq, Structural)]
pub enum InputEvent {
    Mouse { flags: u16, wheel_units: i16, x: u16, y: u16 },
    Key { flags: u8, scancode: u8 },
}

/// `value`, or the nearest number that sixteen bits can hold.
pub open spec fn clamped(value: i32) -> u16 {
    if value < 0 {
        0
    } else if value > u16::MAX {
        u16::MAX
    } else {
        value as u16
    }
}

/// `value`, or the nearest number that sixteen bits can hold.
pub fn clamp_u16(value: i32) -> (number: u16)
    ensures
        number == clamped(value),
{
    if value < 0 {
        0
    } else if value > u16::MAX as i32 {
        u16::MAX
    } else {
        value as u16
    }
}

/// The flag of a button.
pub open spec fn button_flag(button: MouseButton) -> u16 {
    match button {
        MouseButton::Left => POINTER_LEFT,
        MouseButton::Middle => POINTER_MIDDLE,
        MouseButton::Right => POINTER_RIGHT,
    }
}

/// A turn of the vertical wheel: scrolling down is a negative rotation.
pub open spec fn vertical_turn(turn: WheelTurn, pointer: (u16, u16)) -> Seq<InputEvent> {
    if turn == WheelTurn::Still {
        Seq::empty()
    } else {
        seq![
            InputEvent::Mouse {
                flags: POINTER_VERTICAL_WHEEL,
                wheel_units: if turn == WheelTurn::Forward {
                    (-120) as i16
                } else {
                    120
                },
                x: pointer.0,
                y: pointer.1,
            },
        ]
    }
}

/// A turn of the horizontal wheel.
pub open spec fn horizontal_turn(turn: WheelTurn, pointer: (u16, u16)) -> Seq<InputEvent> {
    if turn == WheelTurn::Still {
        Seq::empty()
    } else {
        seq![
            InputEvent::Mouse {
                flags: POINTER_HORIZONTAL_WHEEL,
                wheel_units: if turn == WheelTurn::Forward {
                    120
                } else {
                    (-120) as i16
                },
                x: pointer.0,
                y: pointer.1,
            },
        ]
    }
}

/// The flags of a key.
pub open spec fn key_flags(pressed: bool, extended: bool) -> u8 {
    if pressed && extended {
        KEY_EXTENDED
    } else if pressed {
        0
    } else if extended {
        (KEY_RELEASE + KEY_EXTENDED) as u8
    } else {
        KEY_RELEASE
    }
}

/// Where the pointer is after a message of the browser.
pub open spec fn pointer_after(input: ClientMsg, pointer: (u16, u16)) -> (u16, u16) {
    match input {
        ClientMsg::MouseMove { x, y } => (clamped(x), clamped(y)),
        _ => pointer,
    }
}

/// What a message of the browser is for the server when the pointer is at `pointer`.
/// `scancode` is what the keyboard layout has for the key, where it is a key: its
/// code, and whether that is of the extended set.
pub open spec fn events_of(
    input: ClientMsg,
    scancode: Option<(u8, bool)>,
    pointer: (u16, u16),
) -> Seq<InputEvent> {
    match input {
        ClientMsg::MouseMove { x, y } => seq![
            InputEvent::Mouse {
                flags: POINTER_MOVE,
                wheel_units: 0,
                x: clamped(x),
                y: clamped(y),
            },
        ],
        ClientMsg::MouseButton { button, pressed } => seq![
            InputEvent::Mouse {
                flags: if pressed {
                    (button_flag(button) + POINTER_DOWN) as u16
                } else {
                    button_flag(button)
                },
                wheel_units: 0,
                x: pointer.0,
                y: pointer.1,
            },
        ],
        ClientMsg::Wheel { dx, dy } => vertical_turn(dy, pointer) + horizontal_turn(dx, pointer),
        ClientMsg::Key { code, pressed } => match scancode {
            None => Seq::empty(),
            Some((scancode, extended)) => seq![
                InputEvent::Key { flags: key_flags(pressed, extended), scancode },
            ],
        },
    }
}

/// Turns a message of the browser into input events, and keeps track of the pointer.
pub fn translate_input(
    input: ClientMsg,
    scancode: Option<(u8, bool)>,
    last_pointer: &mut (u16, u16),
) -> (events: Vec<InputEvent>)
    ensures
        events@ == events_of(input, scancode, *old(last_pointer)),
        *final(last_pointer) == pointer_after(input, *old(last_pointer)),
{
    let mut events: Vec<InputEvent> = Vec::new();
    match input {
        ClientMsg::MouseMove { x, y } => {
            let position: (u16, u16) = (clamp_u16(x), clamp_u16(y));
            *last_pointer = position;
            events.push(
                InputEvent::Mouse {
                    flags: POINTER_MOVE,
                    wheel_units: 0,
                    x: position.0,
                    y: position.1,
                },
            );
        },
        ClientMsg::MouseButton { button, pressed } => {
            let mut flags: u16 = match button {
                MouseButton::Left => POINTER_LEFT,
                MouseButton::Middle => POINTER_MIDDLE,
                MouseButton::Right => POINTER_RIGHT,
            };
            if pressed {
                flags = flags + POINTER_DOWN;
            }
            events.push(
                InputEvent::Mouse { flags, wheel_units: 0, x: last_pointer.0, y: last_pointer.1 },
            );
        },
        ClientMsg::Wheel { dx, dy } => {
            if dy != WheelTurn::Still {
                events.push(
                    InputEvent::Mouse {
                        flags: POINTER_VERTICAL_WHEEL,
                        wheel_units: if dy == WheelTurn::Forward {
                            -120
                        } else {
                            120
                        },
                        x: last_pointer.0,
                        y: last_pointer.1,
                    },
                );
            }
            if dx != WheelTurn::Still {
                events.push(
                    InputEvent::Mouse {
                        flags: POINTER_HORIZONTAL_WHEEL,
                        wheel_units: if dx == WheelTurn::Forward {
                            120
                        } else {
                            -120
                        },
                        x: last_pointer.0,
                        y: last_pointer.1,
                    },
                );
            }
        },
        ClientMsg::Key { code: _, pressed } => {
            if let Some((scancode, extended)) = scancode {
                let mut flags: u8 = 0;
                if !pressed {
                    flags = flags + KEY_RELEASE;
                }
                if extended {
                    flags = flags + KEY_EXTENDED;
                }
                events.push(InputEvent::Key { flags, scancode });
            }
        },
    }
    proof {
        assert(events@ =~= events_of(input, scancode, *old(last_pointer)));
    }
    events
}

/// A button is pressed and released where the pointer was moved to.
pub proof fn law_buttons_follow_pointer(
    x: i32,
    y: i32,
    button: MouseButton,
    pressed: bool,
    before: (u16, u16),
)
    ensures
        ({
            let pointer = pointer_after(ClientMsg::MouseMove { x, y }, before);
            let event = events_of(ClientMsg::MouseButton { button, pressed }, None, pointer)[0];
            &&& event matches InputEvent::Mouse { x: at_x, y: at_y, .. }
            &&& at_x == clamped(x)
            &&& at_y == clamped(y)
        }),
{
}

/// Only moving it moves the pointer.
pub proof fn law_only_moves_move_pointer(input: ClientMsg, pointer: (u16, u16))
    requires
        !(input is MouseMove),
    ensures
        pointer_after(input, pointer) == pointer,
{
}

/// Releasing a key or a button sends what pressing it sent, but for the one flag that
/// tells the two apart.
pub proof fn law_release_mirrors_press(
    code: String,
    scancode: u8,
    extended: bool,
    button: MouseButton,
    pointer: (u16, u16),
)
    ensures
        ({
            let press = events_of(
                ClientMsg::Key { code, pressed: true },
                Some((scancode, extended)),
                pointer,
            );
            let release = events_of(
                ClientMsg::Key { code, pressed: false },
                Some((scancode, extended)),
                pointer,
            );
            &&& press.len() == 1 && release.len() == 1
            &&& press[0] matches InputEvent::Key { flags, scancode: sent }
            &&& release[0] == InputEvent::Key { flags: (flags + KEY_RELEASE) as u8, scancode: sent }
        }),
        ({
            let press = events_of(ClientMsg::MouseButton { button, pressed: true }, None, pointer);
            let release = events_of(
                ClientMsg::MouseButton { button, pressed: false },
                None,
                pointer,
            );
            &&& press.len() == 1 && release.len() == 1
            &&& release[0] matches InputEvent::Mouse { flags, wheel_units, x, y }
            &&& press[0] == InputEvent::Mouse {
                flags: (flags + POINTER_DOWN) as u16,
                wheel_units,
                x,
                y,
            }
        }),
{
}

/// The address of a host and a port. A bare IPv6 address is put in brackets.
pub open spec fn destination_of(host: Seq<char>, port: u16) -> Seq<char> {
    let number = crate::text::digits(port as nat, 10);
    if host.contains(':') && host[0] != '[' {
        "["@ + host + "]:"@ + number
    } else {
        host + ":"@ + number
    }
}

/// The address of a host and a port. A bare IPv6 address is put in brackets.
pub fn host_port(host: &str, port: u16) -> (destination: String)
    ensures
        destination@ == destination_of(host@, port),
{
    let mut destination = String::new();
    if contains_char(host, ':') && !starts_with_char(host, '[') {
        destination.append("[");
        destination.append(host);
        destination.append("]:");
        proof {
            assert(Seq::<char>::empty() + "["@ + host@ + "]:"@ =~= "["@ + host@ + "]:"@);
        }
    } else {
        destination.append(host);
        destination.append(":");
        proof {
            assert(Seq::<char>::empty() + host@ + ":"@ =~= host@ + ":"@);
        }
    }
    push_number(&mut destination, port as u64, 10);
    destination
}

/// A bare IPv6 address and the same in brackets lead to the same place.
pub proof fn law_brackets_do_not_matter(host: Seq<char>, port: u16)
    requires
        host.contains(':'),
        host[0] != '[',
    ensures
        destination_of("["@ + host + "]"@, port) == destination_of(host, port),
{
    reveal_strlit("[");
    reveal_strlit("]");
    reveal_strlit(":");
    reveal_strlit("]:");
    let bracketed = "["@ + host + "]"@;
    assert(bracketed[0] == '[');
    assert("]"@ + ":"@ =~= "]:"@);
    assert(bracketed + ":"@ =~= "["@ + host + "]:"@);
}

/// The kind of a keyboard.
#[derive(Debug, Clone, Copy, PartialEq, Eq, Structural)]
pub enum KeyboardType {
    IbmEnhanced,
}

/// How bitmaps outside of the graphics channel are to be sent.
#[derive(Debug, Clone, Copy, PartialEq, Eq, Structural)]
pub struct BitmapSettings {
    pub lossy_compression: bool,
    pub color_depth: u32,
}

/// The compression of what the server sends outside of the graphics channel.
#[derive(Debug, Clone, Copy, PartialEq, Eq, Structural)]
pub enum CompressionType {
    K8,
    K64,
    Rdp6,
    Rdp61,
}

/// What a connection request carries for a load balancer.
#[derive(Debug)]
pub enum RequestData {
    RoutingToken(String),
    Cookie(String),
}

/// When the clocks of a time zone are changed.
#[derive(Debug, Clone, Copy, PartialEq, Eq, Structural)]
pub struct ClockChange {
    pub month: u16,
    pub day_of_week: u16,
    pub day: u16,
    pub hour: u16,
    pub minute: u16,
    pub second: u16,
    pub milliseconds: u16,
}

/// The time zone of the client.
pub struct TimezoneSettings {
    pub bias: i32,
    pub standard_name: String,
    pub standard_date: Option<ClockChange>,
    pub standard_bias: i32,
    pub daylight_name: String,
    pub daylight_date: Option<ClockChange>,
    pub daylight_bias: i32,
}

impl TimezoneSettings {
    /// Whether this is universal time, without a name and without daylight saving.
    pub open spec fn is_universal(self) -> bool {
        &&& self.bias == 0
        &&& self.standard_name@ == ""@
        &&& self.standard_date is None
        &&& self.standard_bias == 0
        &&& self.daylight_name@ == ""@
        &&& self.daylight_date is None
        &&& self.daylight_bias == 0
    }

    /// Universal time.
    fn universal() -> (timezone: TimezoneSettings)
        ensures
            timezone.is_universal(),
    {
        TimezoneSettings {
            bias: 0,
            standard_name: "".to_owned(),
            standard_date: None,
            standard_bias: 0,
            daylight_name: "".to_owned(),
            daylight_date: None,
            daylight_bias: 0,
        }
    }
}

/// The performance flags that the gateway asks for: windows are not dragged with their
/// content, menus are not animated, and fonts are smoothed.
pub const PERFORMANCE_FLAGS: u32 = 0x86;

/// How the gateway introduces itself to the server.
pub struct ConnectorConfig {
    pub username: String,
    pub password: String,
    pub domain: Option<String>,
    pub enable_tls: bool,
    pub enable_credssp: bool,
    pub keyboard_type: KeyboardType,
    pub keyboard_subtype: u32,
    pub keyboard_layout: u32,
    pub keyboard_functional_keys_count: u32,
    pub ime_file_name: String,
    pub dig_product_id: String,
    pub desktop_width: u16,
    pub desktop_height: u16,
    pub bitmap: Option<BitmapSettings>,
    pub client_build: u32,
    pub client_name: String,
    pub client_dir: String,
    pub enable_server_pointer: bool,
    pub pointer_software_rendering: bool,
    pub request_data: Option<RequestData>,
    pub autologon: bool,
    pub enable_audio_playback: bool,
    pub compression_type: Option<CompressionType>,
    pub multitransport_flags: Option<u32>,
    pub desktop_scale_factor: u32,
    pub hardware_id: Option<[u32; 4]>,
    /// Whether licences are kept from one connection to the next.
    pub license_cache: bool,
    pub timezone_info: TimezoneSettings,
    pub performance_flags: u32,
    pub alternate_shell: String,
    pub work_dir: String,
}

/// How the gateway introduces itself for `target`: with the target's credentials and
/// desktop, over TLS with CredSSP, and with nothing that is optional.
pub fn build_connector_config(target: &Target) -> (config: ConnectorConfig)
    ensures
        config.username@ == target.username@,
        config.password@ == target.password@,
        config.domain is None,
        config.enable_tls,
        config.enable_credssp,
        config.keyboard_type == KeyboardType::IbmEnhanced,
        config.keyboard_subtype == 0,
        config.keyboard_layout == 0,
        config.keyboard_functional_keys_count == 12,
        config.ime_file_name@ == ""@,
        config.dig_product_id@ == ""@,
        config.desktop_width == target.width,
        config.desktop_height == target.height,
        config.bitmap is None,
        config.client_build == 0,
        config.client_name@ == "rdpweb"@,
        config.client_dir@ == "C:\\Windows\\System32\\mstscax.dll"@,
        !config.enable_server_pointer,
        !config.pointer_software_rendering,
        config.request_data is None,
        !config.autologon,
        !config.enable_audio_playback,
        config.compression_type is None,
        config.multitransport_flags is None,
        config.desktop_scale_factor == 0,
        config.hardware_id is None,
        !config.license_cache,
        config.timezone_info.is_universal(),
        config.performance_flags == PERFORMANCE_FLAGS,
        config.alternate_shell@ == ""@,
        config.work_dir@ == ""@,
{
    ConnectorConfig {
        username: target.username.clone(),
        password: target.password.clone(),
        domain: None,
        enable_tls: true,
        enable_credssp: true,
        keyboard_type: KeyboardType::IbmEnhanced,
        keyboard_subtype: 0,
        keyboard_layout: 0,
        keyboard_functional_keys_count: 12,
        ime_file_name: "".to_owned(),
        dig_product_id: "".to_owned(),
        desktop_width: target.width,
        desktop_height: target.height,
        bitmap: None,
        client_build: 0,
        client_name: "rdpweb".to_owned(),
        client_dir: "C:\\Windows\\System32\\mstscax.dll".to_owned(),
        enable_server_pointer: false,
        pointer_software_rendering: false,
        request_data: None,
        autologon: false,
        enable_audio_playback: false,
        compression_type: None,
        multitransport_flags: None,
        desktop_scale_factor: 0,
        hardware_id: None,
        license_cache: false,
        timezone_info: TimezoneSettings::universal(),
        performance_flags: PERFORMANCE_FLAGS,
        alternate_shell: "".to_owned(),
        work_dir: "".to_owned(),
    }
}

/// Whether `held` is `value` held to sixteen bits.
pub open spec fn held_to_u16(value: i32, held: u16) -> bool {
    &&& value < 0 ==> held == 0
    &&& 0 <= value <= 65535 ==> held == value
    &&& value > 65535 ==> held == 65535
}

/// A coordinate that sixteen bits can hold stays; any other becomes the nearest that
/// they can hold.
pub proof fn law_coordinates_are_held(value: i32)
    ensures
        held_to_u16(value, clamped(value)),
{
}

/// Moving the pointer sends one event, at the place that it was moved to.
pub proof fn law_move_is_sent_where_it_goes(
    x: i32,
    y: i32,
    scancode: Option<(u8, bool)>,
    pointer: (u16, u16),
)
    ensures
        ({
            let events = events_of(ClientMsg::MouseMove { x, y }, scancode, pointer);
            let after = pointer_after(ClientMsg::MouseMove { x, y }, pointer);
            &&& held_to_u16(x, after.0)
            &&& held_to_u16(y, after.1)
            &&& events.len() == 1
            &&& events[0] == InputEvent::Mouse {
                flags: 0x0800,
                wheel_units: 0,
                x: after.0,
                y: after.1,
            }
        }),
{
}

/// A button sends one event, where the pointer is: the flag of the button, and with it the
/// flag for down where it is pressed.
pub proof fn law_button_is_sent_at_pointer(
    button: MouseButton,
    pressed: bool,
    scancode: Option<(u8, bool)>,
    pointer: (u16, u16),
)
    ensures
        ({
            let message = ClientMsg::MouseButton { button, pressed };
            let events = events_of(message, scancode, pointer);
            let flag = match button {
                MouseButton::Left => 0x1000int,
                MouseButton::Right => 0x2000int,
                MouseButton::Middle => 0x4000int,
            };
            &&& pointer_after(message, pointer) == pointer
            &&& events.len() == 1
            &&& events[0] matches InputEvent::Mouse { flags, wheel_units, x, y }
            &&& flags == flag + if pressed {
                0x8000int
            } else {
                0int
            }
            &&& wheel_units == 0
            &&& x == pointer.0
            &&& y == pointer.1
        }),
{
}

/// A wheel sends one event for each axis that turned, the vertical one first, where the
/// pointer is. Forward is down and to the right: a step of 120 units, below zero for down
/// and above zero for right.
pub proof fn law_wheel_is_sent_at_pointer(
    dx: WheelTurn,
    dy: WheelTurn,
    scancode: Option<(u8, bool)>,
    pointer: (u16, u16),
)
    ensures
        ({
            let message = ClientMsg::Wheel { dx, dy };
            let events = events_of(message, scancode, pointer);
            let vertical = if dy == WheelTurn::Still {
                0int
            } else {
                1int
            };
            let horizontal = if dx == WheelTurn::Still {
                0int
            } else {
                1int
            };
            &&& pointer_after(message, pointer) == pointer
            &&& events.len() == vertical + horizontal
            &&& vertical == 1 ==> {
                &&& events[0] matches InputEvent::Mouse { flags, wheel_units, x, y }
                &&& flags == 0x0200 && x == pointer.0 && y == pointer.1
                &&& wheel_units == -120 <==> dy == WheelTurn::Forward
                &&& wheel_units == 120 <==> dy == WheelTurn::Backward
            }
            &&& horizontal == 1 ==> {
                &&& events[vertical] matches InputEvent::Mouse { flags, wheel_units, x, y }
                &&& flags == 0x0400 && x == pointer.0 && y == pointer.1
                &&& wheel_units == 120 <==> dx == WheelTurn::Forward
                &&& wheel_units == -120 <==> dx == WheelTurn::Backward
            }
        }),
{
}

/// A key of the layout sends its scancode once: with the first flag where it is released,
/// and with the second one where it is of the extended set. Any other key sends nothing.
pub proof fn law_key_sends_its_scancode(
    code: String,
    pressed: bool,
    scancode: Option<(u8, bool)>,
    pointer: (u16, u16),
)
    ensures
        ({
            let message = ClientMsg::Key { code, pressed };
            let events = events_of(message, scancode, pointer);
            &&& pointer_after(message, pointer) == pointer
            &&& scancode is None ==> events.len() == 0
            &&& scancode matches Some((number, extended)) ==> {
                &&& events.len() == 1
                &&& events[0] matches InputEvent::Key { flags, scancode: sent }
                &&& sent == number
                &&& flags % 2 == 1 <==> !pressed
                &&& flags / 2 == 1 <==> extended
                &&& flags < 4
            }
        }),
{
}

/// A destination is the host, a colon and the port, which is read back from its digits;
/// a host with a colon that does not begin with a bracket stands in brackets.
pub proof fn law_destination_is_host_and_port(host: Seq<char>, port: u16)
    ensures
        ({
            let number = crate::text::digits(port as nat, 10);
            &&& crate::text::number_in(number, 10) == port
            &&& !host.contains(':') ==> destination_of(host, port) == host + ":"@ + number
            &&& host.contains(':') && host[0] == '[' ==> destination_of(host, port) == host + ":"@
                + number
            &&& host.contains(':') && host[0] != '[' ==> destination_of(host, port) == "["@ + host
                + "]:"@ + number
        }),
{
    crate::text::law_digits_read_back(port as nat, 10);
}

/// Universal time is no hours away, has no names, and its clocks are not changed.
pub proof fn law_universal_time(timezone: TimezoneSettings)
    requires
        timezone.is_universal(),
    ensures
        timezone.bias == 0,
        timezone.standard_bias == 0,
        timezone.daylight_bias == 0,
        timezone.standard_name@ == ""@,
        timezone.daylight_name@ == ""@,
        timezone.standard_date is None,
        timezone.daylight_date is None,
{
}

} // verus!
