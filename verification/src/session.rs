//! One connection: what it does with each thing that happens on its socket
//! or on the channel of its room, and how it ends.
//!
//! The caller owns the socket and the subscription. It reports each event
//! to [`Session::step`] and carries out the action that comes back. A
//! session exists from the moment it has joined its room; it is active until
//! an event ends it, and closed from then on.

use vstd::prelude::*;
use vstd::utf8::*;
use tokio::sync::broadcast::{Receiver, Sender};
use crate::channel::{fresh_identifier, publish, same_channel};
use crate::membership::{after_join, after_leave, after_rename, members_of, Registry};
use crate::protocol::{
    translate, ClientMessage, ClientMessageView, ServerMessage, ServerMessageView,
};
use crate::room::RoomManager;
use crate::text::same_text;

verus! {

/// Something that happened on a connection.
#[derive(Clone, Debug, PartialEq, Eq)]
pub enum Event {
    /// A text frame that decoded as a client message.
    Message(ClientMessage),
    /// A text frame that is no client message.
    Malformed,
    /// A binary frame: synchronisation data that is relayed unread.
    Binary(Vec<u8>),
    /// A ping with its payload.
    Ping(Vec<u8>),
    /// A close frame.
    Close,
    /// A frame of any other kind.
    Ignored,
    /// The socket ended or failed, on reading or on writing.
    SocketLost,
    /// The subscription delivered a message of the room.
    Broadcast(ServerMessage),
    /// The subscription fell behind and lost its oldest messages.
    Lagged,
    /// The channel of the room was closed.
    ChannelClosed,
}

/// What an [`Event`] holds.
pub enum EventView {
    Message(ClientMessageView),
    Malformed,
    Binary(Seq<u8>),
    Ping(Seq<u8>),
    Close,
    Ignored,
    SocketLost,
    Broadcast(ServerMessageView),
    Lagged,
    ChannelClosed,
}

impl View for Event {
    type V = EventView;

    open spec fn view(&self) -> EventView {
        match *self {
            Event::Message(msg) => EventView::Message(msg@),
            Event::Malformed => EventView::Malformed,
            Event::Binary(data) => EventView::Binary(data@),
            Event::Ping(data) => EventView::Ping(data@),
            Event::Close => EventView::Close,
            Event::Ignored => EventView::Ignored,
            Event::SocketLost => EventView::SocketLost,
            Event::Broadcast(msg) => EventView::Broadcast(msg@),
            Event::Lagged => EventView::Lagged,
            Event::ChannelClosed => EventView::ChannelClosed,
        }
    }
}

/// What the caller is to do after an event.
#[derive(Clone, Debug, PartialEq, Eq)]
pub enum Action {
    /// Nothing; wait for the next event.
    Proceed,
    /// Answer the ping with a pong of the same payload.
    Pong(Vec<u8>),
    /// Write the message to the socket.
    Deliver(ServerMessage),
    /// Stop both directions; the session is closed.
    Stop,
}

/// What an [`Action`] holds.
pub enum ActionView {
    Proceed,
    Pong(Seq<u8>),
    Deliver(ServerMessageView),
    Stop,
}

impl View for Action {
    type V = ActionView;

    open spec fn view(&self) -> ActionView {
        match *self {
            Action::Proceed => ActionView::Proceed,
            Action::Pong(data) => ActionView::Pong(data@),
            Action::Deliver(msg) => ActionView::Deliver(msg@),
            Action::Stop => ActionView::Stop,
        }
    }
}

/// What a session decides on an event, before anything is done.
#[derive(Clone, Debug, PartialEq, Eq)]
pub struct Plan {
    /// Message to publish to the room.
    pub publish: Option<ServerMessage>,
    /// Name to record for the participant.
    pub rename: Option<String>,
    /// Whether the session ends and the participant leaves the room.
    pub close: bool,
    /// What the caller is to do.
    pub action: Action,
}

/// What a [`Plan`] holds.
pub struct PlanView {
    pub publish: Option<ServerMessageView>,
    pub rename: Option<Seq<char>>,
    pub close: bool,
    pub action: ActionView,
}

impl View for Plan {
    type V = PlanView;

    open spec fn view(&self) -> PlanView {
        PlanView {
            publish: match self.publish {
                Some(msg) => Some(msg@),
                None => None,
            },
            rename: match self.rename {
                Some(name) => Some(name@),
                None => None,
            },
            close: self.close,
            action: self.action@,
        }
    }
}

/// The participant that a broadcast speaks for; snapshots and errors speak
/// for nobody.
pub open spec fn origin(msg: ServerMessageView) -> Option<Seq<char>> {
    match msg {
        ServerMessageView::UserJoined { user } => Some(user.id),
        ServerMessageView::UserLeft { user_id } => Some(user_id),
        ServerMessageView::CursorUpdate { user_id, x, y } => Some(user_id),
        ServerMessageView::DrawUpdate { user_id, operation } => Some(user_id),
        ServerMessageView::YjsSync { user_id, data } => Some(user_id),
        ServerMessageView::RoomState { users } => None,
        ServerMessageView::Error { message } => None,
    }
}

/// What a session is: its room, its participant, and whether it is still
/// active.
pub struct SessionView {
    pub room: Seq<char>,
    pub user: Seq<char>,
    pub active: bool,
}

/// The broadcast for a client message of the participant `s.user`. A
/// request for the room state is answered with the participants that the
/// registry has for the room; every other message is mapped by [`translate`].
pub open spec fn broadcast_for(s: SessionView, reg: Registry, msg: ClientMessageView)
    -> ServerMessageView {
    match msg {
        ClientMessageView::SyncRequest => ServerMessageView::RoomState {
            users: members_of(reg, s.room),
        },
        _ => translate(msg, s.user),
    }
}

/// The events that end a session.
pub open spec fn ends(event: EventView) -> bool {
    event is Close || event is SocketLost || event is ChannelClosed
}

/// What the session `s` decides on `event` while the registry is `reg`.
///
/// A closed session does nothing. An active one publishes the broadcast for
/// a client message, records a new name, relays binary data under its own
/// identifier, answers a ping, and drops what it cannot read. It delivers
/// the messages of other participants and of nobody to its socket, and
/// keeps its own from it. It survives falling behind, and ends on a close
/// frame, a lost socket or a closed channel.
pub open spec fn plan_for(s: SessionView, reg: Registry, event: EventView) -> PlanView {
    let idle = PlanView { publish: None, rename: None, close: false, action: ActionView::Proceed };
    if !s.active {
        PlanView { action: ActionView::Stop, ..idle }
    } else {
        match event {
            EventView::Message(msg) => PlanView {
                publish: Some(broadcast_for(s, reg, msg)),
                rename: match msg {
                    ClientMessageView::UpdateName { name } => Some(name),
                    _ => None,
                },
                ..idle
            },
            EventView::Binary(data) => PlanView {
                publish: Some(ServerMessageView::YjsSync { user_id: s.user, data }),
                ..idle
            },
            EventView::Ping(data) => PlanView { action: ActionView::Pong(data), ..idle },
            EventView::Broadcast(msg) => if origin(msg) == Some(s.user) {
                idle
            } else {
                PlanView { action: ActionView::Deliver(msg), ..idle }
            },
            EventView::Malformed | EventView::Ignored | EventView::Lagged => idle,
            EventView::Close | EventView::SocketLost | EventView::ChannelClosed => PlanView {
                close: true,
                action: ActionView::Stop,
                ..idle
            },
        }
    }
}

/// The session after it carried out `plan`.
pub open spec fn session_after(s: SessionView, plan: PlanView) -> SessionView {
    SessionView { active: s.active && !plan.close, ..s }
}

/// The registry after the session `s` carried out `plan`.
pub open spec fn registry_after(s: SessionView, reg: Registry, plan: PlanView) -> Registry {
    if plan.close {
        after_leave(reg, s.room, s.user)
    } else {
        match plan.rename {
            Some(name) => after_rename(reg, s.room, s.user, name),
            None => reg,
        }
    }
}

/// Per-connection state: the room and the participant of the connection,
/// the publish handle of the room, and whether the connection is still
/// active.
pub struct Session {
    room_id: String,
    user_id: String,
    tx: Sender<ServerMessage>,
    active: bool,
}

impl View for Session {
    type V = SessionView;

    closed spec fn view(&self) -> SessionView {
        SessionView { room: self.room_id@, user: self.user_id@, active: self.active }
    }
}

/// Whether `msg` speaks for the participant `user_id`.
fn speaks_for(msg: &ServerMessage, user_id: &str) -> (own: bool)
    ensures
        own == (origin(msg@) == Some(user_id@)),
{
    match msg {
        ServerMessage::UserJoined { user } => same_text(user.id.as_str(), user_id),
        ServerMessage::UserLeft { user_id: id } => same_text(id.as_str(), user_id),
        ServerMessage::CursorUpdate { user_id: id, .. } => same_text(id.as_str(), user_id),
        ServerMessage::DrawUpdate { user_id: id, .. } => same_text(id.as_str(), user_id),
        ServerMessage::YjsSync { user_id: id, .. } => same_text(id.as_str(), user_id),
        ServerMessage::RoomState { .. } => false,
        ServerMessage::Error { .. } => false,
    }
}

impl Session {
    /// The publish handle that the session holds.
    pub closed spec fn handle(&self) -> Sender<ServerMessage> {
        self.tx
    }

    /// Joins `room_id` as the participant `user_id`. Returns the session,
    /// active, and the subscription from which the caller takes the
    /// broadcasts of the room.
    pub fn open(manager: &mut RoomManager, room_id: &str, user_id: &str) -> (opened: (
        Session,
        Receiver<ServerMessage>,
    ))
        requires
            old(manager).wf(),
        ensures
            final(manager).wf(),
            final(manager)@ == after_join(old(manager)@, room_id@, user_id@),
            opened.0@ == (SessionView { room: room_id@, user: user_id@, active: true }),
            same_channel(final(manager).channel(room_id@), opened.0.handle()),
    {
        let (tx, rx) = manager.join_room(room_id, user_id);
        let session = Session {
            room_id: room_id.to_owned(),
            user_id: user_id.to_owned(),
            tx,
            active: true,
        };
        (session, rx)
    }

    /// Joins `room_id` under a fresh random identifier. Whatever the
    /// identifier is, it has 36 ASCII characters, and the registry afterwards
    /// is the one before with that participant joined.
    pub fn connect(manager: &mut RoomManager, room_id: &str) -> (opened: (
        Session,
        Receiver<ServerMessage>,
    ))
        requires
            old(manager).wf(),
        ensures
            final(manager).wf(),
            opened.0@.room == room_id@,
            opened.0@.active,
            opened.0@.user.len() == 36,
            is_ascii_chars(opened.0@.user),
            final(manager)@ == after_join(old(manager)@, room_id@, opened.0@.user),
            same_channel(final(manager).channel(room_id@), opened.0.handle()),
    {
        let user_id = fresh_identifier();
        Session::open(manager, room_id, user_id.as_str())
    }

    /// The room of the session.
    pub fn room_id(&self) -> (id: &str)
        ensures
            id@ == self@.room,
    {
        self.room_id.as_str()
    }

    /// The participant of the session.
    pub fn user_id(&self) -> (id: &str)
        ensures
            id@ == self@.user,
    {
        self.user_id.as_str()
    }

    /// Whether the session is still active.
    pub fn is_active(&self) -> (active: bool)
        ensures
            active == self@.active,
    {
        self.active
    }

    /// Decides what to do on `event`. Nothing is published or changed yet.
    pub fn plan(&self, manager: &RoomManager, event: Event) -> (plan: Plan)
        ensures
            plan@ == plan_for(self@, manager@, event@),
    {
        let idle = Plan { publish: None, rename: None, close: false, action: Action::Proceed };
        if !self.active {
            return Plan { publish: None, rename: None, close: false, action: Action::Stop };
        }
        match event {
            Event::Message(msg) => {
                match msg {
                    ClientMessage::SyncRequest => {
                        let users = manager.get_room_users(self.room_id.as_str());
                        Plan {
                            publish: Some(ServerMessage::RoomState { users }),
                            rename: None,
                            close: false,
                            action: Action::Proceed,
                        }
                    },
                    ClientMessage::UpdateName { name } => {
                        let chosen = name.clone();
                        let renamed = ClientMessage::UpdateName { name };
                        Plan {
                            publish: Some(
                                ServerMessage::from_client_message(renamed, self.user_id.as_str()),
                            ),
                            rename: Some(chosen),
                            close: false,
                            action: Action::Proceed,
                        }
                    },
                    other => Plan {
                        publish: Some(
                            ServerMessage::from_client_message(other, self.user_id.as_str()),
                        ),
                        rename: None,
                        close: false,
                        action: Action::Proceed,
                    },
                }
            },
            Event::Binary(data) => Plan {
                publish: Some(ServerMessage::YjsSync { user_id: self.user_id.clone(), data }),
                rename: None,
                close: false,
                action: Action::Proceed,
            },
            Event::Ping(data) => Plan {
                publish: None,
                rename: None,
                close: false,
                action: Action::Pong(data),
            },
            Event::Broadcast(msg) => {
                if speaks_for(&msg, self.user_id.as_str()) {
                    idle
                } else {
                    Plan { publish: None, rename: None, close: false, action: Action::Deliver(msg) }
                }
            },
            Event::Malformed => idle,
            Event::Ignored => idle,
            Event::Lagged => idle,
            Event::Close => Plan { publish: None, rename: None, close: true, action: Action::Stop },
            Event::SocketLost => Plan {
                publish: None,
                rename: None,
                close: true,
                action: Action::Stop,
            },
            Event::ChannelClosed => Plan {
                publish: None,
                rename: None,
                close: true,
                action: Action::Stop,
            },
        }
    }

    /// Ends the session: the participant leaves the room, once. Returns
    /// whether this call did so; on a closed session nothing happens.
    pub fn close(&mut self, manager: &mut RoomManager) -> (left: bool)
        requires
            old(manager).wf(),
        ensures
            final(manager).wf(),
            left == old(self)@.active,
            final(self)@ == (SessionView { active: false, ..old(self)@ }),
            final(self).handle() == old(self).handle(),
            final(manager)@ == (if old(self)@.active {
                after_leave(old(manager)@, old(self)@.room, old(self)@.user)
            } else {
                old(manager)@
            }),
    {
        if self.active {
            manager.leave_room(self.room_id.as_str(), self.user_id.as_str());
            self.active = false;
            true
        } else {
            false
        }
    }

    /// Handles one event: decides as [`Session::plan`] does, records a new
    /// name in the registry, publishes to the room, leaves the room where
    /// the session ends, and returns what the caller is to do.
    pub fn step(&mut self, manager: &mut RoomManager, event: Event) -> (action: Action)
        requires
            old(manager).wf(),
        ensures
            final(manager).wf(),
            action@ == plan_for(old(self)@, old(manager)@, event@).action,
            final(self)@ == session_after(
                old(self)@,
                plan_for(old(self)@, old(manager)@, event@),
            ),
            final(self).handle() == old(self).handle(),
            final(manager)@ == registry_after(
                old(self)@,
                old(manager)@,
                plan_for(old(self)@, old(manager)@, event@),
            ),
    {
        let plan = self.plan(manager, event);
        let Plan { publish: outgoing, rename, close, action } = plan;
        if let Some(name) = rename {
            manager.update_name(self.room_id.as_str(), self.user_id.as_str(), name.as_str());
        }
        if let Some(msg) = outgoing {
            publish(&self.tx, msg);
        }
        if close {
            self.close(manager);
        }
        action
    }
}

/// The session and the registry after a sequence of events, first to last.
pub open spec fn state_after(s: SessionView, reg: Registry, events: Seq<EventView>) -> (
    SessionView,
    Registry,
)
    decreases events.len(),
{
    if events.len() == 0 {
        (s, reg)
    } else {
        let (then, then_reg) = state_after(s, reg, events.drop_last());
        let plan = plan_for(then, then_reg, events.last());
        (session_after(then, plan), registry_after(then, then_reg, plan))
    }
}

/// Number of times that the session leaves its room over a sequence of
/// events.
pub open spec fn departures(s: SessionView, reg: Registry, events: Seq<EventView>) -> nat
    decreases events.len(),
{
    if events.len() == 0 {
        0
    } else {
        let (then, then_reg) = state_after(s, reg, events.drop_last());
        departures(s, reg, events.drop_last()) + (if plan_for(
            then,
            then_reg,
            events.last(),
        ).close {
            1nat
        } else {
            0nat
        })
    }
}

/// A closed session stays closed: whatever happens, it tells the caller to
/// stop, publishes nothing and leaves the registry alone.
pub proof fn lemma_closed_is_final(s: SessionView, reg: Registry, event: EventView)
    requires
        !s.active,
    ensures
        plan_for(s, reg, event).action == ActionView::Stop,
        plan_for(s, reg, event).publish.is_none(),
        session_after(s, plan_for(s, reg, event)) == s,
        registry_after(s, reg, plan_for(s, reg, event)) == reg,
{
}

/// A frame that cannot be read, a frame of another kind and a lagging
/// subscription change nothing: the session stays as it is, nothing is
/// published, and the registry is left alone.
pub proof fn lemma_unreadable_is_harmless(s: SessionView, reg: Registry, event: EventView)
    requires
        s.active,
        event is Malformed || event is Ignored || event is Lagged,
    ensures
        plan_for(s, reg, event).action == ActionView::Proceed,
        plan_for(s, reg, event).publish.is_none(),
        session_after(s, plan_for(s, reg, event)) == s,
        registry_after(s, reg, plan_for(s, reg, event)) == reg,
{
}

/// Over any sequence of events a session leaves its room at most once: an
/// active session is closed afterwards exactly when it left once, which is
/// exactly when one of the events ends a session; a closed one never
/// leaves again. Room and participant stay the same throughout.
pub proof fn lemma_leaves_once(s: SessionView, reg: Registry, events: Seq<EventView>)
    ensures
        departures(s, reg, events) <= 1,
        !s.active ==> departures(s, reg, events) == 0,
        state_after(s, reg, events).0.active <==> s.active && departures(s, reg, events) == 0,
        s.active ==> (departures(s, reg, events) == 1 <==> exists|i: int|
            0 <= i < events.len() && ends(#[trigger] events[i])),
        state_after(s, reg, events).0.room == s.room,
        state_after(s, reg, events).0.user == s.user,
    decreases events.len(),
{
    if events.len() > 0 {
        let earlier = events.drop_last();
        lemma_leaves_once(s, reg, earlier);
        if s.active {
            if exists|i: int| 0 <= i < events.len() && ends(#[trigger] events[i]) {
                let i = choose|i: int| 0 <= i < events.len() && ends(#[trigger] events[i]);
                if i < earlier.len() {
                    assert(ends(earlier[i]));
                }
            }
            if exists|i: int| 0 <= i < earlier.len() && ends(#[trigger] earlier[i]) {
                let i = choose|i: int| 0 <= i < earlier.len() && ends(#[trigger] earlier[i]);
                assert(ends(events[i]));
            }
            if ends(events.last()) {
                assert(ends(events[events.len() - 1]));
            }
        }
    }
}

/// The messages that the session hands to its socket over a sequence of
/// events, in the order in which it does so.
pub open spec fn deliveries(s: SessionView, reg: Registry, events: Seq<EventView>) -> Seq<
    ServerMessageView,
>
    decreases events.len(),
{
    if events.len() == 0 {
        Seq::empty()
    } else {
        let (then, then_reg) = state_after(s, reg, events.drop_last());
        let earlier = deliveries(s, reg, events.drop_last());
        match plan_for(then, then_reg, events.last()).action {
            ActionView::Deliver(msg) => earlier.push(msg),
            _ => earlier,
        }
    }
}

/// The broadcasts among `events` that do not speak for `user`, in the order
/// in which they came.
pub open spec fn broadcasts_of_others(user: Seq<char>, events: Seq<EventView>) -> Seq<
    ServerMessageView,
>
    decreases events.len(),
{
    if events.len() == 0 {
        Seq::empty()
    } else {
        let earlier = broadcasts_of_others(user, events.drop_last());
        match events.last() {
            EventView::Broadcast(msg) => if origin(msg) == Some(user) {
                earlier
            } else {
                earlier.push(msg)
            },
            _ => earlier,
        }
    }
}

/// While nothing ends it, an active session hands to its socket exactly the
/// broadcasts that its subscription yields for other participants and for
/// nobody: each once, none of its own, and in the order in which they came.
pub proof fn lemma_delivers_in_order(s: SessionView, reg: Registry, events: Seq<EventView>)
    requires
        s.active,
        forall|i: int| 0 <= i < events.len() ==> !ends(#[trigger] events[i]),
    ensures
        state_after(s, reg, events).0 == s,
        deliveries(s, reg, events) == broadcasts_of_others(s.user, events),
    decreases events.len(),
{
    if events.len() > 0 {
        let earlier = events.drop_last();
        assert forall|i: int| 0 <= i < earlier.len() implies !ends(#[trigger] earlier[i]) by {
            assert(earlier[i] == events[i]);
        }
        lemma_delivers_in_order(s, reg, earlier);
        assert(!ends(events[events.len() - 1]));
    }
}

} // verus!
