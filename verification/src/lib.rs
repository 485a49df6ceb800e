//! Room registry and message relay for shared whiteboard sessions: rooms,
//! their participants, and what each connection does with what it receives.

pub mod channel;
pub mod color;
pub mod membership;
pub mod protocol;
pub mod room;
pub mod session;
pub mod text;
