//! The messages that clients send and that the relay broadcasts, and the
//! broadcast that each client message gives rise to.

use vstd::prelude::*;
use crate::color::{color_of, generate_user_color};

verus! {

/// A double-precision number of the wire format, carried as its IEEE 754
/// bit pattern. The relay hands coordinates and widths on untouched and
/// never computes with them.
#[derive(Clone, Copy, Debug, PartialEq, Eq, Structural)]
pub struct Number {
    pub bits: u64,
}

/// Information about a connected user.
#[derive(Debug, PartialEq, Eq)]
pub struct UserInfo {
    pub id: String,
    pub name: String,
    pub color: String,
}

/// What a [`UserInfo`] holds.
pub struct UserInfoView {
    pub id: Seq<char>,
    pub name: Seq<char>,
    pub color: Seq<char>,
}

impl View for UserInfo {
    type V = UserInfoView;

    open spec fn view(&self) -> UserInfoView {
        UserInfoView { id: self.id@, name: self.name@, color: self.color@ }
    }
}

impl Clone for UserInfo {
    fn clone(&self) -> (copy: Self)
        ensures
            copy == *self,
    {
        UserInfo { id: self.id.clone(), name: self.name.clone(), color: self.color.clone() }
    }
}

/// The views of a list of users, in the same order.
pub open spec fn user_views(users: Seq<UserInfo>) -> Seq<UserInfoView> {
    Seq::new(users.len(), |i: int| users[i]@)
}

/// Cursor position of a user.
#[derive(Clone, Copy, Debug, PartialEq, Eq, Structural)]
pub struct CursorPosition {
    pub x: Number,
    pub y: Number,
}

/// Kinds of shapes that can be drawn.
#[derive(Clone, Copy, Debug, PartialEq, Eq, Structural)]
pub enum ShapeType {
    Rectangle,
    Ellipse,
    Line,
    Arrow,
}

/// Drawing operations on the canvas. The relay passes them through and
/// never looks at what they describe.
#[derive(Clone, Debug, PartialEq, Eq)]
pub enum DrawOperation {
    /// Start a new path.
    PathStart { id: String, x: Number, y: Number, color: String, stroke_width: Number },
    /// Add a point to the current path.
    PathPoint { id: String, x: Number, y: Number },
    /// Complete a path.
    PathEnd { id: String },
    /// Add a shape.
    Shape {
        id: String,
        shape_type: ShapeType,
        x: Number,
        y: Number,
        width: Number,
        height: Number,
        color: String,
        stroke_width: Number,
    },
    /// Erase an object.
    Erase { id: String },
    /// Clear the entire canvas.
    Clear,
}

/// What a [`DrawOperation`] holds.
pub enum DrawOperationView {
    PathStart { id: Seq<char>, x: Number, y: Number, color: Seq<char>, stroke_width: Number },
    PathPoint { id: Seq<char>, x: Number, y: Number },
    PathEnd { id: Seq<char> },
    Shape {
        id: Seq<char>,
        shape_type: ShapeType,
        x: Number,
        y: Number,
        width: Number,
        height: Number,
        color: Seq<char>,
        stroke_width: Number,
    },
    Erase { id: Seq<char> },
    Clear,
}

impl View for DrawOperation {
    type V = DrawOperationView;

    open spec fn view(&self) -> DrawOperationView {
        match *self {
            DrawOperation::PathStart { id, x, y, color, stroke_width } => {
                DrawOperationView::PathStart { id: id@, x, y, color: color@, stroke_width }
            },
            DrawOperation::PathPoint { id, x, y } => DrawOperationView::PathPoint { id: id@, x, y },
            DrawOperation::PathEnd { id } => DrawOperationView::PathEnd { id: id@ },
            DrawOperation::Shape { id, shape_type, x, y, width, height, color, stroke_width } => {
                DrawOperationView::Shape {
                    id: id@,
                    shape_type,
                    x,
                    y,
                    width,
                    height,
                    color: color@,
                    stroke_width,
                }
            },
            DrawOperation::Erase { id } => DrawOperationView::Erase { id: id@ },
            DrawOperation::Clear => DrawOperationView::Clear,
        }
    }
}

/// Messages sent from a client to the relay. They carry no participant
/// identity: it is that of the connection they arrive on.
#[derive(Clone, Debug, PartialEq, Eq)]
pub enum ClientMessage {
    /// Update the cursor position.
    CursorMove { x: Number, y: Number },
    /// A drawing operation.
    Draw { operation: DrawOperation },
    /// Request the current room state.
    SyncRequest,
    /// The user changed their name.
    UpdateName { name: String },
}

/// What a [`ClientMessage`] holds.
pub enum ClientMessageView {
    CursorMove { x: Number, y: Number },
    Draw { operation: DrawOperationView },
    SyncRequest,
    UpdateName { name: Seq<char> },
}

impl View for ClientMessage {
    type V = ClientMessageView;

    open spec fn view(&self) -> ClientMessageView {
        match *self {
            ClientMessage::CursorMove { x, y } => ClientMessageView::CursorMove { x, y },
            ClientMessage::Draw { operation } => ClientMessageView::Draw { operation: operation@ },
            ClientMessage::SyncRequest => ClientMessageView::SyncRequest,
            ClientMessage::UpdateName { name } => ClientMessageView::UpdateName { name: name@ },
        }
    }
}

/// Messages sent from the relay to clients.
#[derive(Clone, Debug, PartialEq, Eq)]
pub enum ServerMessage {
    /// A user joined the room, or announced a new name.
    UserJoined { user: UserInfo },
    /// A user left the room.
    UserLeft { user_id: String },
    /// Cursor position of another user.
    CursorUpdate { user_id: String, x: Number, y: Number },
    /// Drawing operation of another user.
    DrawUpdate { user_id: String, operation: DrawOperation },
    /// The users of the room.
    RoomState { users: Vec<UserInfo> },
    /// Binary synchronisation data, relayed as it came.
    YjsSync { user_id: String, data: Vec<u8> },
    /// Error message.
    Error { message: String },
}

/// What a [`ServerMessage`] holds.
pub enum ServerMessageView {
    UserJoined { user: UserInfoView },
    UserLeft { user_id: Seq<char> },
    CursorUpdate { user_id: Seq<char>, x: Number, y: Number },
    DrawUpdate { user_id: Seq<char>, operation: DrawOperationView },
    RoomState { users: Seq<UserInfoView> },
    YjsSync { user_id: Seq<char>, data: Seq<u8> },
    Error { message: Seq<char> },
}

impl View for ServerMessage {
    type V = ServerMessageView;

    open spec fn view(&self) -> ServerMessageView {
        match *self {
            ServerMessage::UserJoined { user } => ServerMessageView::UserJoined { user: user@ },
            ServerMessage::UserLeft { user_id } => ServerMessageView::UserLeft { user_id: user_id@ },
            ServerMessage::CursorUpdate { user_id, x, y } => {
                ServerMessageView::CursorUpdate { user_id: user_id@, x, y }
            },
            ServerMessage::DrawUpdate { user_id, operation } => {
                ServerMessageView::DrawUpdate { user_id: user_id@, operation: operation@ }
            },
            ServerMessage::RoomState { users } => {
                ServerMessageView::RoomState { users: user_views(users@) }
            },
            ServerMessage::YjsSync { user_id, data } => {
                ServerMessageView::YjsSync { user_id: user_id@, data: data@ }
            },
            ServerMessage::Error { message } => ServerMessageView::Error { message: message@ },
        }
    }
}

/// The broadcast that a client message of the participant `user_id` turns
/// into. A request for the room state becomes a snapshot without users: the
/// mapping does not know the room, and the session fills the list in. A
/// new name is announced with the colour that belongs to the identifier.
pub open spec fn translate(msg: ClientMessageView, user_id: Seq<char>) -> ServerMessageView {
    match msg {
        ClientMessageView::CursorMove { x, y } => ServerMessageView::CursorUpdate { user_id, x, y },
        ClientMessageView::Draw { operation } => ServerMessageView::DrawUpdate {
            user_id,
            operation,
        },
        ClientMessageView::SyncRequest => ServerMessageView::RoomState { users: Seq::empty() },
        ClientMessageView::UpdateName { name } => ServerMessageView::UserJoined {
            user: UserInfoView { id: user_id, name, color: color_of(user_id) },
        },
    }
}

impl ServerMessage {
    /// Converts a client message into the message that is broadcast for it,
    /// stamped with the identity of the sender.
    pub fn from_client_message(msg: ClientMessage, user_id: &str) -> (out: Self)
        ensures
            out@ == translate(msg@, user_id@),
    {
        match msg {
            ClientMessage::CursorMove { x, y } => ServerMessage::CursorUpdate {
                user_id: user_id.to_owned(),
                x,
                y,
            },
            ClientMessage::Draw { operation } => ServerMessage::DrawUpdate {
                user_id: user_id.to_owned(),
                operation,
            },
            ClientMessage::SyncRequest => {
                let users: Vec<UserInfo> = Vec::new();
                assert(user_views(users@) =~= Seq::empty());
                ServerMessage::RoomState { users }
            },
            ClientMessage::UpdateName { name } => ServerMessage::UserJoined {
                user: UserInfo {
                    id: user_id.to_owned(),
                    name,
                    color: generate_user_color(user_id),
                },
            },
        }
    }
}

} // verus!
