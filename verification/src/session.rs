//! What a session does next: the connection to the server, step by step.
//!
//! The session decides and someone else acts. It is told what happened and answers
//! with what to do, in order.

use crate::config::Target;
use crate::protocol::{ClientMsg, ControlMsg, ControlView};
use crate::rdp::{host_port, translate_input, InputEvent};
use vstd::prelude::*;

verus! {

/// How many seconds a TCP connection may take.
pub const TCP_TIMEOUT_SECS: u64 = 20;

/// How many seconds the RDP handshake may take.
pub const HANDSHAKE_TIMEOUT_SECS: u64 = 30;

/// How far a session has come.
#[derive(Debug, Clone, Copy, PartialEq, Eq, Structural)]
pub enum Phase {
    /// Nothing was done yet.
    Idle,
    /// The TCP connection is on its way.
    Connecting,
    /// The RDP handshake is on its way.
    Negotiating,
    /// The desktop is there.
    Active,
    /// The server ended the session; the frames before that are still being written.
    Closing,
    /// The session is over.
    Ended,
}

/// What the active stage of the RDP connection has to say about a frame.
#[derive(Debug, Clone, Copy, PartialEq, Eq, Structural)]
pub enum StageOutput {
    /// A frame for the server.
    ResponseFrame,
    /// The server ended the session.
    Terminate,
    /// The server deactivated the session.
    DeactivateAll,
    /// A picture that did not come over the graphics channel.
    GraphicsUpdate,
    /// Anything else.
    Other,
}

/// What happened to a session.
pub enum SessionEvent {
    Start,
    TcpConnected,
    TcpTimedOut,
    TcpFailed,
    /// The handshake is through; the desktop has this size.
    Activated { width: u16, height: u16 },
    HandshakeTimedOut,
    HandshakeFailed,
    /// The active stage took in a frame or an input, and has this to say.
    Processed(Vec<StageOutput>),
    ReadFailed,
    ProcessFailed,
    /// A message of the browser, and the scancode of its key where it has one.
    Input { message: ClientMsg, scancode: Option<(u8, bool)> },
    InputClosed,
    EncodeFailed,
    WriteFailed,
}

/// What is to be done for a session.
pub enum SessionAction {
    /// Tell the browser.
    Tell(ControlMsg),
    /// Connect to a destination within so many seconds.
    Connect { destination: String, timeout_secs: u64 },
    /// Shake hands within so many seconds.
    Handshake { timeout_secs: u64 },
    /// Send input events.
    Send(Vec<InputEvent>),
    /// Write the frame at this place of the outputs to the server.
    Write { index: usize },
    /// The session is over.
    Finish,
    /// The session failed. The text says at what, where there is more to say than
    /// the error has.
    Fail(Option<String>),
}

/// The content of a [`SessionAction`].
pub enum ActionView {
    Tell(ControlView),
    Connect { destination: Seq<char>, timeout_secs: u64 },
    Handshake { timeout_secs: u64 },
    Send(Seq<InputEvent>),
    Write { index: int },
    Finish,
    Fail(Option<Seq<char>>),
}

impl View for SessionAction {
    type V = ActionView;

    open spec fn view(&self) -> ActionView {
        match self {
            SessionAction::Tell(message) => ActionView::Tell(message@),
            SessionAction::Connect { destination, timeout_secs } => ActionView::Connect {
                destination: destination@,
                timeout_secs: *timeout_secs,
            },
            SessionAction::Handshake { timeout_secs } => ActionView::Handshake {
                timeout_secs: *timeout_secs,
            },
            SessionAction::Send(events) => ActionView::Send(events@),
            SessionAction::Write { index } => ActionView::Write { index: *index as int },
            SessionAction::Finish => ActionView::Finish,
            SessionAction::Fail(text) => ActionView::Fail(crate::config::text_view(*text)),
        }
    }
}

/// The contents of a list of actions.
pub open spec fn action_views(actions: Seq<SessionAction>) -> Seq<ActionView> {
    actions.map_values(|action: SessionAction| action@)
}

/// What a session knows.
pub struct SessionView {
    pub phase: Phase,
    pub host: Seq<char>,
    pub port: u16,
    pub pointer: (u16, u16),
}

impl SessionView {
    /// The same session, over.
    pub open spec fn ended(self) -> SessionView {
        SessionView { phase: Phase::Ended, ..self }
    }

    /// The same session in another phase.
    pub open spec fn entering(self, phase: Phase) -> SessionView {
        SessionView { phase, ..self }
    }
}

/// What the browser is told when the server deactivates the session.
pub open spec fn deactivated() -> ControlView {
    ControlView::Warning {
        message: "server deactivated the session; resize/reactivation is outside this POC"@,
    }
}

/// What is to be done about the outputs from `at` on: frames are written, a
/// deactivation is told, and everything behind the end of the session is left.
pub open spec fn output_actions(outputs: Seq<StageOutput>, at: int) -> Seq<ActionView>
    decreases outputs.len() - at,
{
    if at < 0 || at >= outputs.len() {
        Seq::empty()
    } else {
        match outputs[at] {
            StageOutput::ResponseFrame => seq![ActionView::Write { index: at }] + output_actions(
                outputs,
                at + 1,
            ),
            StageOutput::Terminate => seq![ActionView::Finish],
            StageOutput::DeactivateAll => seq![ActionView::Tell(deactivated())] + output_actions(
                outputs,
                at + 1,
            ),
            StageOutput::GraphicsUpdate => output_actions(outputs, at + 1),
            StageOutput::Other => output_actions(outputs, at + 1),
        }
    }
}

/// A failure with a text of its own.
pub open spec fn failure(text: Seq<char>) -> Seq<ActionView> {
    seq![ActionView::Fail(Some(text))]
}

/// What a session becomes, and what is to be done, when something happens to it. An
/// event that does not belong to the phase changes nothing.
pub open spec fn session_step(session: SessionView, event: SessionEvent) -> (
    SessionView,
    Seq<ActionView>,
) {
    let destination = crate::rdp::destination_of(session.host, session.port);
    match (session.phase, event) {
        (Phase::Idle, SessionEvent::Start) => (
            session.entering(Phase::Connecting),
            seq![
                ActionView::Tell(
                    ControlView::Status {
                        phase: "connecting"@,
                        message: "connecting to "@ + session.host,
                    },
                ),
                ActionView::Connect { destination, timeout_secs: TCP_TIMEOUT_SECS },
            ],
        ),
        (Phase::Connecting, SessionEvent::TcpConnected) => (
            session.entering(Phase::Negotiating),
            seq![ActionView::Handshake { timeout_secs: HANDSHAKE_TIMEOUT_SECS }],
        ),
        (Phase::Connecting, SessionEvent::TcpTimedOut) => (
            session.ended(),
            failure("TCP connect to "@ + destination + " timed out"@),
        ),
        (Phase::Connecting, SessionEvent::TcpFailed) => (
            session.ended(),
            failure("TCP connect to "@ + destination),
        ),
        (Phase::Negotiating, SessionEvent::Activated { width, height }) => (
            SessionView { phase: Phase::Active, pointer: (width / 2, height / 2), ..session },
            seq![
                ActionView::Tell(
                    ControlView::Status {
                        phase: "connected"@,
                        message: "RDP active; waiting for EGFX/AVC420"@,
                    },
                ),
                ActionView::Tell(
                    ControlView::Resize { width: width as u32, height: height as u32 },
                ),
            ],
        ),
        (Phase::Negotiating, SessionEvent::HandshakeTimedOut) => (
            session.ended(),
            failure("RDP handshake timed out"@),
        ),
        (Phase::Negotiating, SessionEvent::HandshakeFailed) => (
            session.ended(),
            seq![ActionView::Fail(None)],
        ),
        (Phase::Active, SessionEvent::Processed(outputs)) => (
            if outputs@.contains(StageOutput::Terminate) {
                session.entering(Phase::Closing)
            } else {
                session
            },
            output_actions(outputs@, 0),
        ),
        (Phase::Active, SessionEvent::ReadFailed) => (session.ended(), failure("read RDP frame"@)),
        (Phase::Active, SessionEvent::ProcessFailed) => (
            session.ended(),
            failure("process RDP frame"@),
        ),
        (Phase::Active, SessionEvent::Input { message, scancode }) => {
            let events = crate::rdp::events_of(message, scancode, session.pointer);
            (
                SessionView {
                    pointer: crate::rdp::pointer_after(message, session.pointer),
                    ..session
                },
                if events.len() == 0 {
                    Seq::empty()
                } else {
                    seq![ActionView::Send(events)]
                },
            )
        },
        (Phase::Active, SessionEvent::InputClosed) => (session.ended(), seq![ActionView::Finish]),
        (Phase::Active, SessionEvent::EncodeFailed) => (
            session.ended(),
            failure("encode RDP input"@),
        ),
        (Phase::Active, SessionEvent::WriteFailed) => (
            session.ended(),
            failure("write RDP response"@),
        ),
        (Phase::Closing, SessionEvent::WriteFailed) => (
            session.ended(),
            failure("write RDP response"@),
        ),
        _ => (session, Seq::empty()),
    }
}

/// A session with a server.
pub struct Session {
    phase: Phase,
    host: String,
    port: u16,
    pointer: (u16, u16),
}

impl View for Session {
    type V = SessionView;

    closed spec fn view(&self) -> SessionView {
        SessionView {
            phase: self.phase,
            host: self.host@,
            port: self.port,
            pointer: self.pointer,
        }
    }
}

impl Session {
    /// A session with `target` that was not started yet.
    pub fn new(target: &Target) -> (session: Session)
        ensures
            session@ == (SessionView {
                phase: Phase::Idle,
                host: target.host@,
                port: target.port,
                pointer: (0, 0),
            }),
    {
        Session { phase: Phase::Idle, host: target.host.clone(), port: target.port, pointer: (0, 0) }
    }

    /// How far the session has come.
    pub fn phase(&self) -> (phase: Phase)
        ensures
            phase == self@.phase,
    {
        self.phase
    }

    /// What is to be done about what the active stage has to say.
    fn outputs(&mut self, outputs: &Vec<StageOutput>) -> (actions: Vec<SessionAction>)
        ensures
            action_views(actions@) == output_actions(outputs@, 0),
            final(self)@ == if outputs@.contains(StageOutput::Terminate) {
                old(self)@.entering(Phase::Closing)
            } else {
                old(self)@
            },
    {
        let mut actions: Vec<SessionAction> = Vec::new();
        let mut at: usize = 0;
        proof {
            assert(action_views(actions@) + output_actions(outputs@, 0) =~= output_actions(
                outputs@,
                0,
            ));
        }
        while at < outputs.len()
            invariant
                at <= outputs@.len(),
                self@ == old(self)@,
                forall|i: int| 0 <= i < at ==> outputs@[i] != StageOutput::Terminate,
                output_actions(outputs@, 0) == action_views(actions@) + output_actions(
                    outputs@,
                    at as int,
                ),
            decreases outputs@.len() - at,
        {
            let ghost before = action_views(actions@);
            let ghost rest = output_actions(outputs@, at + 1);
            match outputs[at] {
                StageOutput::ResponseFrame => {
                    actions.push(SessionAction::Write { index: at });
                    proof {
                        let action = ActionView::Write { index: at as int };
                        assert(action_views(actions@) =~= before.push(action));
                        assert(before.push(action) + rest =~= before + (seq![action] + rest));
                    }
                },
                StageOutput::Terminate => {
                    self.phase = Phase::Closing;
                    actions.push(SessionAction::Finish);
                    proof {
                        assert(action_views(actions@) =~= before + seq![ActionView::Finish]);
                        assert(outputs@[at as int] == StageOutput::Terminate);
                    }
                    return actions;
                },
                StageOutput::DeactivateAll => {
                    let message =
                        "server deactivated the session; resize/reactivation is outside this POC".to_owned();
                    actions.push(SessionAction::Tell(ControlMsg::Warning { message }));
                    proof {
                        let action = ActionView::Tell(deactivated());
                        assert(action_views(actions@) =~= before.push(action));
                        assert(before.push(action) + rest =~= before + (seq![action] + rest));
                    }
                },
                StageOutput::GraphicsUpdate => {},
                StageOutput::Other => {},
            }
            at = at + 1;
        }
        proof {
            assert(action_views(actions@) + Seq::<ActionView>::empty() =~= action_views(actions@));
        }
        actions
    }

    /// Ends the session with a failure that has a text of its own.
    fn fail(&mut self, text: String) -> (actions: Vec<SessionAction>)
        ensures
            final(self)@ == old(self)@.ended(),
            action_views(actions@) == failure(text@),
    {
        self.phase = Phase::Ended;
        let ghost content = ActionView::Fail(Some(text@));
        let mut actions: Vec<SessionAction> = Vec::new();
        actions.push(SessionAction::Fail(Some(text)));
        proof {
            assert(action_views(actions@) =~= seq![content]);
        }
        actions
    }

    /// Says what is to be done now that `event` has happened.
    pub fn step(&mut self, event: SessionEvent) -> (actions: Vec<SessionAction>)
        ensures
            final(self)@ == session_step(old(self)@, event).0,
            action_views(actions@) == session_step(old(self)@, event).1,
    {
        let mut actions: Vec<SessionAction> = Vec::new();
        match (self.phase, event) {
            (Phase::Idle, SessionEvent::Start) => {
                self.phase = Phase::Connecting;
                let mut message = "connecting to ".to_owned();
                message.append(self.host.as_str());
                actions.push(
                    SessionAction::Tell(ControlMsg::Status { phase: "connecting", message }),
                );
                actions.push(
                    SessionAction::Connect {
                        destination: host_port(self.host.as_str(), self.port),
                        timeout_secs: TCP_TIMEOUT_SECS,
                    },
                );
            },
            (Phase::Connecting, SessionEvent::TcpConnected) => {
                self.phase = Phase::Negotiating;
                actions.push(SessionAction::Handshake { timeout_secs: HANDSHAKE_TIMEOUT_SECS });
            },
            (Phase::Connecting, SessionEvent::TcpTimedOut) => {
                let mut text = "TCP connect to ".to_owned();
                text.append(host_port(self.host.as_str(), self.port).as_str());
                text.append(" timed out");
                return self.fail(text);
            },
            (Phase::Connecting, SessionEvent::TcpFailed) => {
                let mut text = "TCP connect to ".to_owned();
                text.append(host_port(self.host.as_str(), self.port).as_str());
                return self.fail(text);
            },
            (Phase::Negotiating, SessionEvent::Activated { width, height }) => {
                self.phase = Phase::Active;
                self.pointer = (width / 2, height / 2);
                let message = "RDP active; waiting for EGFX/AVC420".to_owned();
                actions.push(
                    SessionAction::Tell(ControlMsg::Status { phase: "connected", message }),
                );
                actions.push(
                    SessionAction::Tell(
                        ControlMsg::Resize { width: width as u32, height: height as u32 },
                    ),
                );
            },
            (Phase::Negotiating, SessionEvent::HandshakeTimedOut) => {
                return self.fail("RDP handshake timed out".to_owned());
            },
            (Phase::Negotiating, SessionEvent::HandshakeFailed) => {
                self.phase = Phase::Ended;
                actions.push(SessionAction::Fail(None));
            },
            (Phase::Active, SessionEvent::Processed(outputs)) => {
                return self.outputs(&outputs);
            },
            (Phase::Active, SessionEvent::ReadFailed) => {
                return self.fail("read RDP frame".to_owned());
            },
            (Phase::Active, SessionEvent::ProcessFailed) => {
                return self.fail("process RDP frame".to_owned());
            },
            (Phase::Active, SessionEvent::Input { message, scancode }) => {
                let events = translate_input(message, scancode, &mut self.pointer);
                if events.len() > 0 {
                    actions.push(SessionAction::Send(events));
                }
            },
            (Phase::Active, SessionEvent::InputClosed) => {
                self.phase = Phase::Ended;
                actions.push(SessionAction::Finish);
            },
            (Phase::Active, SessionEvent::EncodeFailed) => {
                return self.fail("encode RDP input".to_owned());
            },
            (Phase::Active, SessionEvent::WriteFailed) => {
                return self.fail("write RDP response".to_owned());
            },
            (Phase::Closing, SessionEvent::WriteFailed) => {
                return self.fail("write RDP response".to_owned());
            },
            _ => {},
        }
        proof {
            assert(action_views(actions@) =~= session_step(old(self)@, event).1);
        }
        actions
    }
}

/// A session that is over stays over, and nothing more is done for it.
pub proof fn law_ended_session_stays_ended(session: SessionView, event: SessionEvent)
    requires
        session.phase == Phase::Ended,
    ensures
        session_step(session, event) == (session, Seq::<ActionView>::empty()),
{
}

/// A session that is closing fails where a frame could not be written, and otherwise
/// stays as it is with nothing more to do.
pub proof fn law_closing_session_only_fails(session: SessionView, event: SessionEvent)
    requires
        session.phase == Phase::Closing,
    ensures
        session_step(session, event) == if event is WriteFailed {
            (session.ended(), failure("write RDP response"@))
        } else {
            (session, Seq::<ActionView>::empty())
        },
{
}

/// A session closes or is over exactly when what is to be done last is to finish or to
/// fail.
pub proof fn law_session_ends_with_its_last_action(session: SessionView, event: SessionEvent)
    requires
        session.phase != Phase::Closing,
        session.phase != Phase::Ended,
    ensures
        ({
            let (after, actions) = session_step(session, event);
            (after.phase == Phase::Closing || after.phase == Phase::Ended) <==> actions.len() > 0
                && (actions.last() is Finish || actions.last() is Fail)
        }),
        ({
            let (after, actions) = session_step(session, event);
            after.phase == Phase::Closing <==> (session.phase == Phase::Active
                && event is Processed && event->Processed_0@.contains(StageOutput::Terminate))
        }),
{
    if let SessionEvent::Processed(outputs) = event {
        lemma_outputs_end(outputs@, 0);
    }
}

/// A frame that could not be written fails the session, whether or not the server
/// ended the session behind it.
pub proof fn law_failed_write_fails_session(session: SessionView, outputs: Vec<StageOutput>)
    requires
        session.phase == Phase::Active,
    ensures
        session_step(
            session_step(session, SessionEvent::Processed(outputs)).0,
            SessionEvent::WriteFailed,
        ) == (session.ended(), failure("write RDP response"@)),
{
}

/// What is to be done about outputs ends with finishing where one of them is the end.
proof fn lemma_outputs_end(outputs: Seq<StageOutput>, at: int)
    requires
        0 <= at <= outputs.len(),
    ensures
        ({
            let actions = output_actions(outputs, at);
            (exists|i: int| at <= i < outputs.len() && #[trigger] outputs[i]
                == StageOutput::Terminate) <==> actions.len() > 0 && (actions.last() is Finish
                || actions.last() is Fail)
        }),
    decreases outputs.len() - at,
{
    if at < outputs.len() {
        lemma_outputs_end(outputs, at + 1);
        let rest = output_actions(outputs, at + 1);
        match outputs[at] {
            StageOutput::ResponseFrame => {
                let action = ActionView::Write { index: at };
                assert(rest.len() > 0 ==> (seq![action] + rest).last() == rest.last());
            },
            StageOutput::DeactivateAll => {
                let action = ActionView::Tell(deactivated());
                assert(rest.len() > 0 ==> (seq![action] + rest).last() == rest.last());
            },
            _ => {},
        }
    }
}

/// Every frame for the server that comes before the end of the session is written,
/// and none behind it.
pub proof fn law_frames_before_the_end_are_written(outputs: Seq<StageOutput>, at: int, index: int)
    requires
        0 <= at <= index < outputs.len(),
    ensures
        output_actions(outputs, at).contains(ActionView::Write { index }) <==> outputs[index]
            == StageOutput::ResponseFrame && forall|i: int|
            at <= i < index ==> #[trigger] outputs[i] != StageOutput::Terminate,
    decreases outputs.len() - at,
{
    let write = ActionView::Write { index };
    let actions = output_actions(outputs, at);
    let rest = output_actions(outputs, at + 1);
    if at < index {
        law_frames_before_the_end_are_written(outputs, at + 1, index);
    } else {
        lemma_earlier_frames_are_not_written(outputs, at + 1, index);
    }
    match outputs[at] {
        StageOutput::ResponseFrame => {
            lemma_prepended(ActionView::Write { index: at }, rest, write);
        },
        StageOutput::Terminate => {
            assert(!actions.contains(write)) by {
                assert(actions =~= seq![ActionView::Finish]);
            }
        },
        StageOutput::DeactivateAll => {
            lemma_prepended(ActionView::Tell(deactivated()), rest, write);
        },
        _ => {},
    }
}

/// No frame is written from behind its place.
proof fn lemma_earlier_frames_are_not_written(outputs: Seq<StageOutput>, at: int, index: int)
    requires
        0 <= index < at <= outputs.len(),
    ensures
        !output_actions(outputs, at).contains(ActionView::Write { index }),
    decreases outputs.len() - at,
{
    let write = ActionView::Write { index };
    if at < outputs.len() {
        let rest = output_actions(outputs, at + 1);
        lemma_earlier_frames_are_not_written(outputs, at + 1, index);
        match outputs[at] {
            StageOutput::ResponseFrame => {
                lemma_prepended(ActionView::Write { index: at }, rest, write);
            },
            StageOutput::Terminate => {
                assert(output_actions(outputs, at) =~= seq![ActionView::Finish]);
            },
            StageOutput::DeactivateAll => {
                lemma_prepended(ActionView::Tell(deactivated()), rest, write);
            },
            _ => {},
        }
    }
}

/// What a list with one more in front contains.
proof fn lemma_prepended(first: ActionView, rest: Seq<ActionView>, action: ActionView)
    ensures
        (seq![first] + rest).contains(action) <==> first == action || rest.contains(action),
{
    let whole = seq![first] + rest;
    if first == action {
        assert(whole[0] == action);
    }
    if rest.contains(action) {
        let i = choose|i: int| 0 <= i < rest.len() && rest[i] == action;
        assert(whole[i + 1] == action);
    }
    if whole.contains(action) && first != action {
        let i = choose|i: int| 0 <= i < whole.len() && whole[i] == action;
        assert(rest[i - 1] == action);
    }
}

/// From the start to the desktop: the browser is told which host is connected to, the
/// host is connected to within 20 seconds, the handshake is given 30, and then the browser
/// is told that the session is active and how large the desktop is. The pointer is then
/// in the middle of the desktop.
pub proof fn law_session_reaches_the_desktop(session: SessionView, width: u16, height: u16)
    requires
        session.phase == Phase::Idle,
    ensures
        ({
            let (started, first) = session_step(session, SessionEvent::Start);
            let (connected, second) = session_step(started, SessionEvent::TcpConnected);
            let (active, third) = session_step(
                connected,
                SessionEvent::Activated { width, height },
            );
            &&& started.phase == Phase::Connecting
            &&& connected.phase == Phase::Negotiating
            &&& active.phase == Phase::Active
            &&& active.pointer == (width / 2, height / 2)
            &&& first.len() == 2 && second.len() == 1 && third.len() == 2
            &&& first[0] == ActionView::Tell(
                ControlView::Status {
                    phase: "connecting"@,
                    message: "connecting to "@ + session.host,
                },
            )
            &&& first[1] == ActionView::Connect {
                destination: crate::rdp::destination_of(session.host, session.port),
                timeout_secs: 20,
            }
            &&& second[0] == ActionView::Handshake { timeout_secs: 30 }
            &&& third[0] == ActionView::Tell(
                ControlView::Status {
                    phase: "connected"@,
                    message: "RDP active; waiting for EGFX/AVC420"@,
                },
            )
            &&& third[1] matches ActionView::Tell(ControlView::Resize { width: w, height: h })
            &&& w == width && h == height
        }),
{
}

/// Host and port are those of the target for as long as the session lasts.
pub proof fn law_session_keeps_its_target(session: SessionView, event: SessionEvent)
    ensures
        session_step(session, event).0.host == session.host,
        session_step(session, event).0.port == session.port,
{
}

/// The phases in which a session takes notice of `event`.
pub open spec fn awaited_in(event: SessionEvent, phase: Phase) -> bool {
    match event {
        SessionEvent::Start => phase == Phase::Idle,
        SessionEvent::TcpConnected => phase == Phase::Connecting,
        SessionEvent::TcpTimedOut => phase == Phase::Connecting,
        SessionEvent::TcpFailed => phase == Phase::Connecting,
        SessionEvent::Activated { .. } => phase == Phase::Negotiating,
        SessionEvent::HandshakeTimedOut => phase == Phase::Negotiating,
        SessionEvent::HandshakeFailed => phase == Phase::Negotiating,
        SessionEvent::WriteFailed => phase == Phase::Active || phase == Phase::Closing,
        _ => phase == Phase::Active,
    }
}

/// What happens at the wrong time changes nothing and asks for nothing; what happens at
/// the right time does one of the two, but for input that means nothing to the server and
/// outputs that ask for nothing.
pub proof fn law_only_awaited_events_count(session: SessionView, event: SessionEvent)
    ensures
        !awaited_in(event, session.phase) ==> session_step(session, event).0 == session
            && session_step(session, event).1.len() == 0,
        awaited_in(event, session.phase) && !(event is Input) && !(event is Processed)
            ==> session_step(session, event).1.len() > 0 && session_step(session, event).0.phase
            != session.phase,
{
}

/// Each failure ends the session, with one thing to do: to fail, with words that say at
/// what, and with none where the handshake has its own.
pub proof fn law_failures_end_the_session(session: SessionView, event: SessionEvent)
    requires
        awaited_in(event, session.phase),
    ensures
        ({
            let (after, actions) = session_step(session, event);
            let destination = crate::rdp::destination_of(session.host, session.port);
            let words = match event {
                SessionEvent::TcpTimedOut => Some("TCP connect to "@ + destination + " timed out"@),
                SessionEvent::TcpFailed => Some("TCP connect to "@ + destination),
                SessionEvent::HandshakeTimedOut => Some("RDP handshake timed out"@),
                SessionEvent::ReadFailed => Some("read RDP frame"@),
                SessionEvent::ProcessFailed => Some("process RDP frame"@),
                SessionEvent::EncodeFailed => Some("encode RDP input"@),
                SessionEvent::WriteFailed => Some("write RDP response"@),
                _ => None,
            };
            &&& words is Some || event is HandshakeFailed ==> after.phase == Phase::Ended
                && actions.len() == 1 && actions[0] == ActionView::Fail(words)
            &&& event is InputClosed ==> after.phase == Phase::Ended && actions.len() == 1
                && actions[0] == ActionView::Finish
        }),
{
}

/// Input in an active session is sent as the events that it means, in one go, or not at
/// all where it means none. The session goes on.
pub proof fn law_input_is_sent(
    session: SessionView,
    message: ClientMsg,
    scancode: Option<(u8, bool)>,
)
    requires
        session.phase == Phase::Active,
    ensures
        ({
            let (after, actions) = session_step(session, SessionEvent::Input { message, scancode });
            let events = crate::rdp::events_of(message, scancode, session.pointer);
            &&& after.phase == Phase::Active
            &&& events.len() == 0 ==> actions.len() == 0
            &&& events.len() > 0 ==> actions.len() == 1 && actions[0] == ActionView::Send(events)
            &&& !(message is MouseMove) ==> after.pointer == session.pointer
        }),
{
}

/// Whether the only thing to do is to send events, at least one, each of which is a mouse
/// event at `x` and `y` held to sixteen bits.
pub open spec fn sends_mouse_at(actions: Seq<ActionView>, x: i32, y: i32) -> bool {
    &&& actions.len() == 1
    &&& actions[0] matches ActionView::Send(events)
    &&& events.len() > 0
    &&& forall|i: int|
        0 <= i < events.len() ==> {
            &&& #[trigger] events[i] matches InputEvent::Mouse { x: at_x, y: at_y, .. }
            &&& crate::rdp::held_to_u16(x, at_x)
            &&& crate::rdp::held_to_u16(y, at_y)
        }
}

/// Buttons and wheels act where the pointer was last moved to: after a move to `x` and
/// `y`, and whatever key, button or wheel came between, a button or a wheel that turned
/// sends events there, held to sixteen bits.
pub proof fn law_clicks_land_where_the_pointer_went(
    session: SessionView,
    x: i32,
    y: i32,
    between: ClientMsg,
    button: crate::protocol::MouseButton,
    pressed: bool,
    dx: crate::protocol::WheelTurn,
    dy: crate::protocol::WheelTurn,
    scancode: Option<(u8, bool)>,
)
    requires
        session.phase == Phase::Active,
        !(between is MouseMove),
    ensures
        ({
            let went = SessionEvent::Input { message: ClientMsg::MouseMove { x, y }, scancode };
            let (moved, sent) = session_step(session, went);
            let (later, _) = session_step(
                moved,
                SessionEvent::Input { message: between, scancode },
            );
            let click = SessionEvent::Input {
                message: ClientMsg::MouseButton { button, pressed },
                scancode,
            };
            let turn = SessionEvent::Input { message: ClientMsg::Wheel { dx, dy }, scancode };
            &&& sends_mouse_at(sent, x, y)
            &&& sends_mouse_at(session_step(moved, click).1, x, y)
            &&& sends_mouse_at(session_step(later, click).1, x, y)
            &&& dx != crate::protocol::WheelTurn::Still || dy
                != crate::protocol::WheelTurn::Still ==> sends_mouse_at(
                session_step(moved, turn).1,
                x,
                y,
            ) && sends_mouse_at(session_step(later, turn).1, x, y)
        }),
{
    crate::rdp::law_move_is_sent_where_it_goes(x, y, scancode, session.pointer);
    let went = SessionEvent::Input { message: ClientMsg::MouseMove { x, y }, scancode };
    let moved = session_step(session, went).0;
    let later = session_step(moved, SessionEvent::Input { message: between, scancode }).0;
    law_input_is_sent(session, ClientMsg::MouseMove { x, y }, scancode);
    law_input_is_sent(moved, between, scancode);
    law_input_is_sent(moved, ClientMsg::MouseButton { button, pressed }, scancode);
    law_input_is_sent(later, ClientMsg::MouseButton { button, pressed }, scancode);
    law_input_is_sent(moved, ClientMsg::Wheel { dx, dy }, scancode);
    law_input_is_sent(later, ClientMsg::Wheel { dx, dy }, scancode);
    crate::rdp::law_button_is_sent_at_pointer(button, pressed, scancode, moved.pointer);
    crate::rdp::law_wheel_is_sent_at_pointer(dx, dy, scancode, moved.pointer);
}

/// What the server does to a session in frames, outputs and ends comes out in the order in
/// which it came up: a list with one more output asks for what the shorter one asked for,
/// and then for what the last output is for, unless the session ended before.
pub proof fn law_outputs_are_done_in_order(outputs: Seq<StageOutput>, last: StageOutput)
    ensures
        output_actions(Seq::<StageOutput>::empty(), 0).len() == 0,
        ({
            let shorter = output_actions(outputs, 0);
            let longer = output_actions(outputs.push(last), 0);
            if outputs.contains(StageOutput::Terminate) {
                longer == shorter
            } else {
                match last {
                    StageOutput::ResponseFrame => longer == shorter.push(
                        ActionView::Write { index: outputs.len() as int },
                    ),
                    StageOutput::Terminate => longer == shorter.push(ActionView::Finish),
                    StageOutput::DeactivateAll => longer == shorter.push(
                        ActionView::Tell(
                            ControlView::Warning {
                                message:
                                    "server deactivated the session; resize/reactivation is outside this POC"@,
                            },
                        ),
                    ),
                    _ => longer == shorter,
                }
            }
        }),
{
    lemma_outputs_push(outputs, last, 0);
    if outputs.contains(StageOutput::Terminate) {
        let i = choose|i: int| 0 <= i < outputs.len() && outputs[i] == StageOutput::Terminate;
        assert(outputs[i] == StageOutput::Terminate);
    }
}

/// What one more output does to what is to be done from `at` on.
proof fn lemma_outputs_push(outputs: Seq<StageOutput>, last: StageOutput, at: int)
    requires
        0 <= at <= outputs.len(),
    ensures
        ({
            let shorter = output_actions(outputs, at);
            let longer = output_actions(outputs.push(last), at);
            let ended = exists|i: int|
                at <= i < outputs.len() && #[trigger] outputs[i] == StageOutput::Terminate;
            &&& ended ==> longer == shorter
            &&& !ended ==> match last {
                StageOutput::ResponseFrame => longer == shorter.push(
                    ActionView::Write { index: outputs.len() as int },
                ),
                StageOutput::Terminate => longer == shorter.push(ActionView::Finish),
                StageOutput::DeactivateAll => longer == shorter.push(
                    ActionView::Tell(deactivated()),
                ),
                _ => longer == shorter,
            }
        }),
    decreases outputs.len() - at,
{
    let longer = outputs.push(last);
    if at == outputs.len() {
        assert(longer[at] == last);
        assert(output_actions(longer, at + 1) =~= Seq::<ActionView>::empty());
        assert(output_actions(outputs, at) =~= Seq::<ActionView>::empty());
        let action = match last {
            StageOutput::ResponseFrame => ActionView::Write { index: outputs.len() as int },
            StageOutput::DeactivateAll => ActionView::Tell(deactivated()),
            _ => ActionView::Finish,
        };
        assert(seq![action] + Seq::<ActionView>::empty() =~= Seq::<ActionView>::empty().push(
            action,
        ));
        assert(seq![action] =~= Seq::<ActionView>::empty().push(action));
    } else {
        assert(longer[at] == outputs[at]);
        lemma_outputs_push(outputs, last, at + 1);
        let rest = output_actions(outputs, at + 1);
        let tail = output_actions(longer, at + 1);
        let first = match outputs[at] {
            StageOutput::ResponseFrame => ActionView::Write { index: at },
            _ => ActionView::Tell(deactivated()),
        };
        if tail.len() == rest.len() + 1 {
            assert(seq![first] + rest.push(tail.last()) =~= (seq![first] + rest).push(tail.last()));
        }
    }
}

/// What the active stage has to say leaves the pointer, and the session goes on unless the
/// server ended it.
pub proof fn law_outputs_leave_the_pointer(session: SessionView, outputs: Vec<StageOutput>)
    requires
        session.phase == Phase::Active,
    ensures
        ({
            let (after, actions) = session_step(session, SessionEvent::Processed(outputs));
            &&& after.pointer == session.pointer
            &&& after.phase == if outputs@.contains(StageOutput::Terminate) {
                Phase::Closing
            } else {
                Phase::Active
            }
            &&& actions == output_actions(outputs@, 0)
        }),
{
}

/// The content of actions is what they carry.
pub proof fn law_action_content(actions: Seq<SessionAction>, at: int)
    requires
        0 <= at < actions.len(),
    ensures
        action_views(actions).len() == actions.len(),
        match actions[at] {
            SessionAction::Tell(message) => action_views(actions)[at] == ActionView::Tell(message@),
            SessionAction::Connect { destination, timeout_secs } => action_views(actions)[at]
                == ActionView::Connect { destination: destination@, timeout_secs },
            SessionAction::Handshake { timeout_secs } => action_views(actions)[at]
                == ActionView::Handshake { timeout_secs },
            SessionAction::Send(events) => action_views(actions)[at] == ActionView::Send(events@),
            SessionAction::Write { index } => action_views(actions)[at] == ActionView::Write {
                index: index as int,
            },
            SessionAction::Finish => action_views(actions)[at] == ActionView::Finish,
            SessionAction::Fail(None) => action_views(actions)[at] == ActionView::Fail(None),
            SessionAction::Fail(Some(text)) => action_views(actions)[at] == ActionView::Fail(
                Some(text@),
            ),
        },
{
}

} // verus!
