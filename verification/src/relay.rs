//! What the gateway does between a browser and a session.
//!
//! The relay decides and someone else acts, as with a session.

use crate::protocol::{ClientMsg, ControlMsg, ControlView, EventView, GatewayEvent};
use vstd::prelude::*;

verus! {

/// What happened at either end.
pub enum RelayEvent {
    /// The browser sent a message that could be read.
    Input(ClientMsg),
    /// The browser sent text that could not be read.
    InvalidInput,
    /// The browser sent something that carries no message.
    Unused,
    /// The browser closed the connection, or it is gone, or reading failed.
    BrowserGone,
    /// The session takes no more input.
    InputRefused,
    /// The session has something for the browser.
    Event(GatewayEvent),
    /// The session has nothing more for the browser.
    EventsEnded,
    /// A message could not be put into text.
    Unserializable,
    /// Writing to the browser failed.
    SendFailed,
    /// The session is over.
    SessionEnded,
    /// The session failed with this error.
    SessionFailed(String),
    /// The session is gone without a word.
    SessionLost,
}

/// What is to be done.
pub enum RelayAction {
    /// Hand a message to the session.
    Forward(ClientMsg),
    /// Send a control message to the browser as text.
    SendText(ControlMsg),
    /// Send bytes to the browser.
    SendBinary(Vec<u8>),
    /// Stop.
    Stop,
}

/// The content of a [`RelayAction`].
pub enum RelayActionView {
    Forward(ClientMsg),
    SendText(ControlView),
    SendBinary(Seq<u8>),
    Stop,
}

impl View for RelayAction {
    type V = RelayActionView;

    open spec fn view(&self) -> RelayActionView {
        match self {
            RelayAction::Forward(message) => RelayActionView::Forward(*message),
            RelayAction::SendText(message) => RelayActionView::SendText(message@),
            RelayAction::SendBinary(bytes) => RelayActionView::SendBinary(bytes@),
            RelayAction::Stop => RelayActionView::Stop,
        }
    }
}

/// The contents of a list of actions.
pub open spec fn relay_views(actions: Seq<RelayAction>) -> Seq<RelayActionView> {
    actions.map_values(|action: RelayAction| action@)
}

/// What a relay knows.
pub struct RelayView {
    /// Whether it goes on.
    pub running: bool,
    /// Whether the session may have more for the browser.
    pub listening: bool,
}

/// What the browser is sent for an event: a control message as text, a picture in
/// its encoding.
pub open spec fn sent_for(event: EventView) -> RelayActionView {
    match event {
        EventView::Control(message) => RelayActionView::SendText(message),
        EventView::Video(packet) => RelayActionView::SendBinary(packet.encoded()),
    }
}

/// What a relay becomes, and what is to be done, when something happens. Nothing more
/// is done by one that has stopped.
pub open spec fn relay_step(relay: RelayView, event: RelayEvent) -> (
    RelayView,
    Seq<RelayActionView>,
) {
    let stopped = RelayView { running: false, ..relay };
    if !relay.running {
        (relay, Seq::empty())
    } else {
        match event {
            RelayEvent::Input(message) => (relay, seq![RelayActionView::Forward(message)]),
            RelayEvent::InvalidInput => (relay, Seq::empty()),
            RelayEvent::Unused => (relay, Seq::empty()),
            RelayEvent::BrowserGone => (stopped, seq![RelayActionView::Stop]),
            RelayEvent::InputRefused => (stopped, seq![RelayActionView::Stop]),
            RelayEvent::Event(event) => (relay, seq![sent_for(event@)]),
            RelayEvent::EventsEnded => (RelayView { listening: false, ..relay }, Seq::empty()),
            RelayEvent::Unserializable => (relay, Seq::empty()),
            RelayEvent::SendFailed => (stopped, seq![RelayActionView::Stop]),
            RelayEvent::SessionEnded => (stopped, seq![RelayActionView::Stop]),
            RelayEvent::SessionFailed(text) => (
                stopped,
                seq![
                    RelayActionView::SendText(ControlView::Error { message: text@ }),
                    RelayActionView::Stop,
                ],
            ),
            RelayEvent::SessionLost => (stopped, seq![RelayActionView::Stop]),
        }
    }
}

/// The relay between a browser and a session.
pub struct Relay {
    running: bool,
    listening: bool,
}

impl View for Relay {
    type V = RelayView;

    closed spec fn view(&self) -> RelayView {
        RelayView { running: self.running, listening: self.listening }
    }
}

impl Relay {
    /// A relay that has just begun.
    pub fn new() -> (relay: Relay)
        ensures
            relay@ == (RelayView { running: true, listening: true }),
    {
        Relay { running: true, listening: true }
    }

    /// Whether the relay goes on.
    pub fn running(&self) -> (running: bool)
        ensures
            running == self@.running,
    {
        self.running
    }

    /// Whether the session may have more for the browser.
    pub fn listening(&self) -> (listening: bool)
        ensures
            listening == self@.listening,
    {
        self.listening
    }

    /// Says what is to be done now that `event` has happened.
    pub fn step(&mut self, event: RelayEvent) -> (actions: Vec<RelayAction>)
        ensures
            final(self)@ == relay_step(old(self)@, event).0,
            relay_views(actions@) == relay_step(old(self)@, event).1,
    {
        let mut actions: Vec<RelayAction> = Vec::new();
        if self.running {
            match event {
                RelayEvent::Input(message) => {
                    actions.push(RelayAction::Forward(message));
                },
                RelayEvent::InvalidInput => {},
                RelayEvent::Unused => {},
                RelayEvent::Event(GatewayEvent::Control(message)) => {
                    actions.push(RelayAction::SendText(message));
                },
                RelayEvent::Event(GatewayEvent::Video(packet)) => {
                    actions.push(RelayAction::SendBinary(packet.encode()));
                },
                RelayEvent::EventsEnded => {
                    self.listening = false;
                },
                RelayEvent::Unserializable => {},
                RelayEvent::SessionFailed(text) => {
                    self.running = false;
                    actions.push(RelayAction::SendText(ControlMsg::Error { message: text }));
                    actions.push(RelayAction::Stop);
                },
                RelayEvent::BrowserGone | RelayEvent::InputRefused | RelayEvent::SendFailed
                | RelayEvent::SessionEnded | RelayEvent::SessionLost => {
                    self.running = false;
                    actions.push(RelayAction::Stop);
                },
            }
        }
        proof {
            assert(relay_views(actions@) =~= relay_step(old(self)@, event).1);
        }
        actions
    }
}

/// A relay stops exactly when the last thing to be done is to stop, and does nothing
/// more after that.
pub proof fn law_relay_stops_for_good(relay: RelayView, event: RelayEvent)
    ensures
        relay.running ==> (!relay_step(relay, event).0.running <==> relay_step(
            relay,
            event,
        ).1.len() > 0 && relay_step(relay, event).1.last() == RelayActionView::Stop),
        !relay.running ==> relay_step(relay, event) == (relay, Seq::<RelayActionView>::empty()),
{
}

/// Once the session has nothing more for the browser, it is not asked again.
pub proof fn law_events_end_for_good(relay: RelayView, event: RelayEvent)
    requires
        !relay.listening,
    ensures
        !relay_step(relay, event).0.listening,
{
}

/// Text that could not be read, or could not be written, changes nothing.
pub proof fn law_bad_text_is_passed_over(relay: RelayView)
    ensures
        relay_step(relay, RelayEvent::InvalidInput) == (relay, Seq::<RelayActionView>::empty()),
        relay_step(relay, RelayEvent::Unserializable) == (relay, Seq::<RelayActionView>::empty()),
{
}

/// What the browser is sent for a picture can be read back as that picture.
pub proof fn law_sent_pictures_read_back(event: EventView)
    requires
        event is Video,
    ensures
        sent_for(event) matches RelayActionView::SendBinary(bytes)
            && crate::protocol::read_packet(bytes) == event->Video_0,
{
    crate::protocol::law_packet_reads_back(event->Video_0);
}

/// A running relay hands each message of the browser to the session as it is, and goes on.
pub proof fn law_input_is_forwarded(relay: RelayView, message: ClientMsg)
    requires
        relay.running,
    ensures
        ({
            let (after, actions) = relay_step(relay, RelayEvent::Input(message));
            &&& after.running && after.listening == relay.listening
            &&& actions.len() == 1
            &&& actions[0] == RelayActionView::Forward(message)
        }),
{
}

/// A running relay sends each event on, once, and goes on: a control message as it is, and
/// a picture as bytes from which every field of it is read back.
pub proof fn law_events_are_sent_on(relay: RelayView, event: GatewayEvent)
    requires
        relay.running,
    ensures
        ({
            let (after, actions) = relay_step(relay, RelayEvent::Event(event));
            &&& after.running && after.listening == relay.listening
            &&& actions.len() == 1
            &&& match event {
                GatewayEvent::Control(message) => actions[0] == RelayActionView::SendText(message@),
                GatewayEvent::Video(packet) => {
                    &&& actions[0] matches RelayActionView::SendBinary(bytes)
                    &&& bytes == packet@.encoded()
                    &&& crate::protocol::read_packet(bytes) == packet@
                },
            }
        }),
{
    if let GatewayEvent::Video(packet) = event {
        crate::protocol::law_packet_reads_back(packet@);
    }
}

/// When the browser is gone, a write fails, or the session takes no more input or is over,
/// a running relay stops. The browser hears why only where the session failed, in the
/// words of the failure and before the stop.
pub proof fn law_ends_stop_the_relay(relay: RelayView, event: RelayEvent)
    requires
        relay.running,
    ensures
        ({
            let (after, actions) = relay_step(relay, event);
            let ends = event is BrowserGone || event is InputRefused || event is SendFailed
                || event is SessionEnded || event is SessionLost || event is SessionFailed;
            &&& !after.running <==> ends
            &&& ends && !(event is SessionFailed) ==> actions.len() == 1 && actions[0]
                == RelayActionView::Stop
            &&& event matches RelayEvent::SessionFailed(text) ==> {
                &&& actions.len() == 2
                &&& actions[0] == RelayActionView::SendText(ControlView::Error { message: text@ })
                &&& actions[1] == RelayActionView::Stop
            }
        }),
{
}

/// Only the end of its events lets a running relay listen no more, and it does not stop it.
pub proof fn law_only_the_end_of_events_stops_listening(relay: RelayView, event: RelayEvent)
    requires
        relay.running,
    ensures
        ({
            let (after, actions) = relay_step(relay, event);
            &&& event is EventsEnded ==> !after.listening && after.running && actions.len() == 0
            &&& !(event is EventsEnded) ==> after.listening == relay.listening
            &&& event is Unused ==> after == relay && actions.len() == 0
        }),
{
}

/// The content of actions is what they carry.
pub proof fn law_relay_action_content(actions: Seq<RelayAction>, at: int)
    requires
        0 <= at < actions.len(),
    ensures
        relay_views(actions).len() == actions.len(),
        match actions[at] {
            RelayAction::Forward(message) => relay_views(actions)[at] == RelayActionView::Forward(
                message,
            ),
            RelayAction::SendText(message) => relay_views(actions)[at] == RelayActionView::SendText(
                message@,
            ),
            RelayAction::SendBinary(bytes) => relay_views(actions)[at]
                == RelayActionView::SendBinary(bytes@),
            RelayAction::Stop => relay_views(actions)[at] == RelayActionView::Stop,
        },
{
}

} // verus!
