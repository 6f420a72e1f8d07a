use rdpweb::config::Target;
use rdpweb::protocol::{ClientMsg, ControlMsg, GatewayEvent, VideoCodec, VideoPacket, WheelTurn};
use rdpweb::rdp::InputEvent;
use rdpweb::relay::{Relay, RelayAction, RelayEvent};
use rdpweb::session::{Phase, Session, SessionAction, SessionEvent, StageOutput};

fn session() -> Session {
    Session::new(&Target {
        protocol: None,
        name: None,
        host: "2001:db8::20".to_owned(),
        port: 3389,
        username: "u".to_owned(),
        password: "p".to_owned(),
        width: 1,
        height: 1,
    })
}

fn active() -> Session {
    let mut session = session();
    session.step(SessionEvent::Start);
    session.step(SessionEvent::TcpConnected);
    session.step(SessionEvent::Activated { width: 101, height: 50 });
    session
}

fn shown(action: &SessionAction) -> String {
    match action {
        SessionAction::Tell(message) => format!("tell {message:?}"),
        SessionAction::Connect { destination, timeout_secs } => {
            format!("connect {destination} {timeout_secs}")
        }
        SessionAction::Handshake { timeout_secs } => format!("handshake {timeout_secs}"),
        SessionAction::Send(events) => format!("send {events:?}"),
        SessionAction::Write { index } => format!("write {index}"),
        SessionAction::Finish => "finish".to_owned(),
        SessionAction::Fail(text) => format!("fail {text:?}"),
    }
}

fn step(session: &mut Session, event: SessionEvent) -> Vec<String> {
    session.step(event).iter().map(shown).collect()
}

#[test]
fn session_connects_step_by_step() {
    let mut session = session();
    assert_eq!(session.phase(), Phase::Idle);
    assert_eq!(
        step(&mut session, SessionEvent::Start),
        vec![
            "tell Status { phase: \"connecting\", message: \"connecting to 2001:db8::20\" }",
            "connect [2001:db8::20]:3389 20",
        ]
    );
    assert_eq!(step(&mut session, SessionEvent::TcpConnected), vec!["handshake 30"]);
    assert_eq!(
        step(&mut session, SessionEvent::Activated { width: 101, height: 50 }),
        vec![
            "tell Status { phase: \"connected\", message: \"RDP active; waiting for EGFX/AVC420\" }",
            "tell Resize { width: 101, height: 50 }",
        ]
    );
    assert_eq!(session.phase(), Phase::Active);
    let turned = session.step(SessionEvent::Input {
        message: ClientMsg::Wheel { dx: WheelTurn::Still, dy: WheelTurn::Forward },
        scancode: None,
    });
    assert_eq!(
        turned.iter().map(shown).collect::<Vec<_>>(),
        vec![shown(&SessionAction::Send(vec![InputEvent::Mouse {
            flags: 0x0200,
            wheel_units: -120,
            x: 50,
            y: 25,
        }]))]
    );
}

#[test]
fn each_failure_says_at_what() {
    let mut timed_out = session();
    timed_out.step(SessionEvent::Start);
    assert_eq!(
        step(&mut timed_out, SessionEvent::TcpTimedOut),
        vec!["fail Some(\"TCP connect to [2001:db8::20]:3389 timed out\")"]
    );
    let mut refused = session();
    refused.step(SessionEvent::Start);
    assert_eq!(
        step(&mut refused, SessionEvent::TcpFailed),
        vec!["fail Some(\"TCP connect to [2001:db8::20]:3389\")"]
    );
    let mut slow = session();
    slow.step(SessionEvent::Start);
    slow.step(SessionEvent::TcpConnected);
    assert_eq!(
        step(&mut slow, SessionEvent::HandshakeTimedOut),
        vec!["fail Some(\"RDP handshake timed out\")"]
    );
    let mut broken = session();
    broken.step(SessionEvent::Start);
    broken.step(SessionEvent::TcpConnected);
    assert_eq!(step(&mut broken, SessionEvent::HandshakeFailed), vec!["fail None"]);
    let cases = [
        (SessionEvent::ReadFailed, "read RDP frame"),
        (SessionEvent::ProcessFailed, "process RDP frame"),
        (SessionEvent::EncodeFailed, "encode RDP input"),
        (SessionEvent::WriteFailed, "write RDP response"),
    ];
    for (event, text) in cases {
        let mut session = active();
        assert_eq!(step(&mut session, event), vec![format!("fail Some({text:?})")]);
        assert_eq!(session.phase(), Phase::Ended);
    }
}

#[test]
fn outputs_behind_the_end_are_left() {
    let mut session = active();
    let outputs = vec![
        StageOutput::GraphicsUpdate,
        StageOutput::ResponseFrame,
        StageOutput::DeactivateAll,
        StageOutput::Other,
        StageOutput::ResponseFrame,
        StageOutput::Terminate,
        StageOutput::ResponseFrame,
    ];
    assert_eq!(
        step(&mut session, SessionEvent::Processed(outputs)),
        vec![
            "write 1",
            "tell Warning { message: \"server deactivated the session; resize/reactivation is outside this POC\" }",
            "write 4",
            "finish",
        ]
    );
    assert_eq!(session.phase(), Phase::Closing);
    for event in [SessionEvent::InputClosed, SessionEvent::ReadFailed] {
        assert_eq!(step(&mut session, event), Vec::<String>::new());
        assert_eq!(session.phase(), Phase::Closing);
    }
}

#[test]
fn failed_write_before_the_end_fails_the_session() {
    let endings = [
        vec![StageOutput::ResponseFrame],
        vec![StageOutput::ResponseFrame, StageOutput::Terminate],
    ];
    for outputs in endings {
        let mut session = active();
        let actions = step(&mut session, SessionEvent::Processed(outputs));
        assert_eq!(actions[0], "write 0");
        assert_eq!(
            step(&mut session, SessionEvent::WriteFailed),
            vec!["fail Some(\"write RDP response\")"]
        );
        assert_eq!(session.phase(), Phase::Ended);
        assert_eq!(step(&mut session, SessionEvent::WriteFailed), Vec::<String>::new());
    }
}

#[test]
fn session_goes_on_without_an_end() {
    let mut session = active();
    assert_eq!(step(&mut session, SessionEvent::Processed(Vec::new())), Vec::<String>::new());
    let unmapped = SessionEvent::Input {
        message: ClientMsg::Key { code: "Fn".to_owned(), pressed: true },
        scancode: None,
    };
    assert_eq!(step(&mut session, unmapped), Vec::<String>::new());
    assert_eq!(session.phase(), Phase::Active);
    assert_eq!(step(&mut session, SessionEvent::InputClosed), vec!["finish"]);
    assert_eq!(session.phase(), Phase::Ended);
    assert_eq!(step(&mut session, SessionEvent::ReadFailed), Vec::<String>::new());
}

fn relayed(relay: &mut Relay, event: RelayEvent) -> Vec<String> {
    relay
        .step(event)
        .iter()
        .map(|action| match action {
            RelayAction::Forward(message) => format!("forward {message:?}"),
            RelayAction::SendText(message) => format!("text {message:?}"),
            RelayAction::SendBinary(bytes) => format!("binary {}", bytes.len()),
            RelayAction::Stop => "stop".to_owned(),
        })
        .collect()
}

#[test]
fn relay_passes_both_ways() {
    let mut relay = Relay::new();
    assert!(relay.running() && relay.listening());
    assert_eq!(
        relayed(&mut relay, RelayEvent::Input(ClientMsg::MouseMove { x: 1, y: 2 })),
        vec!["forward MouseMove { x: 1, y: 2 }"]
    );
    let message = ControlMsg::Resize { width: 3, height: 4 };
    assert_eq!(
        relayed(&mut relay, RelayEvent::Event(GatewayEvent::Control(message))),
        vec!["text Resize { width: 3, height: 4 }"]
    );
    for event in [RelayEvent::InvalidInput, RelayEvent::Unused, RelayEvent::Unserializable] {
        assert_eq!(relayed(&mut relay, event), Vec::<String>::new());
    }
    assert_eq!(relayed(&mut relay, RelayEvent::EventsEnded), Vec::<String>::new());
    assert!(relay.running() && !relay.listening());
}

#[test]
fn relay_sends_pictures_encoded() {
    let packet = || VideoPacket {
        codec: VideoCodec::RgbaClearCodec,
        key_frame: false,
        timestamp_us: 1,
        surface_id: 2,
        x: 3,
        y: 4,
        width: 5,
        height: 6,
        output_x: 7,
        output_y: 8,
        data: vec![9, 9],
    };
    let mut relay = Relay::new();
    let actions = relay.step(RelayEvent::Event(GatewayEvent::Video(packet())));
    match &actions[..] {
        [RelayAction::SendBinary(bytes)] => assert_eq!(*bytes, packet().encode()),
        _ => panic!("no bytes were sent"),
    }
}

#[test]
fn relay_stops_for_good() {
    let ends = [
        RelayEvent::BrowserGone,
        RelayEvent::InputRefused,
        RelayEvent::SendFailed,
        RelayEvent::SessionEnded,
        RelayEvent::SessionLost,
    ];
    for end in ends {
        let mut relay = Relay::new();
        assert_eq!(relayed(&mut relay, end), vec!["stop"]);
        assert!(!relay.running());
        assert_eq!(relayed(&mut relay, RelayEvent::BrowserGone), Vec::<String>::new());
    }
    let mut relay = Relay::new();
    assert_eq!(
        relayed(&mut relay, RelayEvent::SessionFailed("why".to_owned())),
        vec!["text Error { message: \"why\" }", "stop"]
    );
    assert!(!relay.running());
}
