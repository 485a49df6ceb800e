use synapse_server::protocol::{ClientMessage, DrawOperation, Number, ServerMessage, UserInfo};
use synapse_server::room::{RoomManager, ROOM_CAPACITY};
use synapse_server::session::{Action, Event, Plan, Session};
use tokio::sync::broadcast::error::TryRecvError;

const ONE: &str = "conn-one-0001";
const TWO: &str = "conn-two-0002";

fn num(value: f64) -> Number {
    Number { bits: value.to_bits() }
}

fn idle() -> Plan {
    Plan { publish: None, rename: None, close: false, action: Action::Proceed }
}

// 99+111+110+110 = 430, 45, 111+110+101 = 322, 45, 48*3+49 = 193: 1035
fn one() -> UserInfo {
    UserInfo {
        id: ONE.to_string(),
        name: "User conn-one".to_string(),
        color: "#DDA0DD".to_string(),
    }
}

// 430, 45, 116+119+111 = 346, 45, 48*3+50 = 194: 1060
fn two() -> UserInfo {
    UserInfo {
        id: TWO.to_string(),
        name: "User conn-two".to_string(),
        color: "#FF6B6B".to_string(),
    }
}

#[test]
fn open_joins_the_room_and_is_active() {
    let mut rooms = RoomManager::new();
    let (session, mut rx) = Session::open(&mut rooms, "r1", ONE);
    assert_eq!(session.room_id(), "r1");
    assert_eq!(session.user_id(), ONE);
    assert!(session.is_active());
    assert_eq!(rooms.get_room_users("r1"), vec![one()]);
    assert_eq!(rx.try_recv(), Err(TryRecvError::Empty));
}

#[test]
fn connect_assigns_a_fresh_identifier() {
    let mut rooms = RoomManager::new();
    let (first, _rx1) = Session::connect(&mut rooms, "r1");
    let (second, _rx2) = Session::connect(&mut rooms, "r1");
    for session in [&first, &second] {
        let id = session.user_id();
        assert_eq!(id.len(), 36);
        assert!(id.is_ascii());
        assert_eq!(id.chars().filter(|c| *c == '-').count(), 4);
        assert!(session.is_active());
        assert_eq!(session.room_id(), "r1");
    }
    assert_ne!(first.user_id(), second.user_id());
    let users = rooms.get_room_users("r1");
    assert_eq!(users.len(), 2);
    assert_eq!(users[0].id, first.user_id());
    assert_eq!(users[0].name, format!("User {}", &first.user_id()[..8]));
    assert_eq!(users[1].id, second.user_id());
}

#[test]
fn cursor_move_reaches_the_other_connection_once() {
    let mut rooms = RoomManager::new();
    let (mut c1, mut rx1) = Session::open(&mut rooms, "r1", ONE);
    let (mut c2, mut rx2) = Session::open(&mut rooms, "r1", TWO);
    assert_eq!(rx1.try_recv(), Ok(ServerMessage::UserJoined { user: two() }));

    let sent = Event::Message(ClientMessage::CursorMove { x: num(10.0), y: num(20.0) });
    assert_eq!(c1.step(&mut rooms, sent), Action::Proceed);

    let update =
        ServerMessage::CursorUpdate { user_id: ONE.to_string(), x: num(10.0), y: num(20.0) };
    let received = rx2.try_recv().unwrap();
    assert_eq!(received, update);
    assert_eq!(rx2.try_recv(), Err(TryRecvError::Empty));
    assert_eq!(c2.step(&mut rooms, Event::Broadcast(received)), Action::Deliver(update.clone()));

    // the sender's subscription holds the message too; its session keeps it
    // from the socket
    let own = rx1.try_recv().unwrap();
    assert_eq!(own, update);
    assert_eq!(c1.step(&mut rooms, Event::Broadcast(own)), Action::Proceed);
    assert_eq!(rx1.try_recv(), Err(TryRecvError::Empty));
}

#[test]
fn abrupt_disconnect_removes_the_room() {
    let mut rooms = RoomManager::new();
    let (mut c1, _rx1) = Session::open(&mut rooms, "r2", ONE);
    assert!(rooms.has_room("r2"));
    assert_eq!(c1.step(&mut rooms, Event::SocketLost), Action::Stop);
    assert!(!c1.is_active());
    assert!(!rooms.has_room("r2"));
    assert!(rooms.get_room_users("r2").is_empty());

    let (_c2, mut rx2) = Session::open(&mut rooms, "r2", TWO);
    assert_eq!(rooms.get_room_users("r2"), vec![two()]);
    assert_eq!(rx2.try_recv(), Err(TryRecvError::Empty));
}

#[test]
fn malformed_frame_leaves_the_connection_open() {
    let mut rooms = RoomManager::new();
    let (mut c1, mut rx1) = Session::open(&mut rooms, "r1", ONE);
    let (_c2, mut rx2) = Session::open(&mut rooms, "r1", TWO);
    assert_eq!(rx1.try_recv(), Ok(ServerMessage::UserJoined { user: two() }));

    assert_eq!(c1.step(&mut rooms, Event::Malformed), Action::Proceed);
    assert!(c1.is_active());
    assert_eq!(rx1.try_recv(), Err(TryRecvError::Empty));
    assert_eq!(rx2.try_recv(), Err(TryRecvError::Empty));
    assert_eq!(rooms.get_room_users("r1"), vec![one(), two()]);

    let sent = Event::Message(ClientMessage::CursorMove { x: num(1.0), y: num(2.0) });
    assert_eq!(c1.step(&mut rooms, sent), Action::Proceed);
    assert_eq!(
        rx2.try_recv(),
        Ok(ServerMessage::CursorUpdate { user_id: ONE.to_string(), x: num(1.0), y: num(2.0) })
    );
}

#[test]
fn plan_for_each_client_message() {
    let mut rooms = RoomManager::new();
    let (c1, _rx1) = Session::open(&mut rooms, "r1", ONE);
    let (_c2, _rx2) = Session::open(&mut rooms, "r1", TWO);

    let plan = c1.plan(
        &rooms,
        Event::Message(ClientMessage::CursorMove { x: num(3.0), y: num(4.0) }),
    );
    assert_eq!(
        plan,
        Plan {
            publish: Some(ServerMessage::CursorUpdate {
                user_id: ONE.to_string(),
                x: num(3.0),
                y: num(4.0),
            }),
            ..idle()
        }
    );

    let operation = DrawOperation::Erase { id: "shape".to_string() };
    let plan = c1.plan(
        &rooms,
        Event::Message(ClientMessage::Draw { operation: operation.clone() }),
    );
    assert_eq!(
        plan,
        Plan {
            publish: Some(ServerMessage::DrawUpdate { user_id: ONE.to_string(), operation }),
            ..idle()
        }
    );

    let plan = c1.plan(&rooms, Event::Message(ClientMessage::SyncRequest));
    assert_eq!(
        plan,
        Plan { publish: Some(ServerMessage::RoomState { users: vec![one(), two()] }), ..idle() }
    );

    let plan = c1.plan(
        &rooms,
        Event::Message(ClientMessage::UpdateName { name: "Ada".to_string() }),
    );
    assert_eq!(
        plan,
        Plan {
            publish: Some(ServerMessage::UserJoined {
                user: UserInfo { name: "Ada".to_string(), ..one() },
            }),
            rename: Some("Ada".to_string()),
            ..idle()
        }
    );
}

#[test]
fn plan_for_the_other_events() {
    let mut rooms = RoomManager::new();
    let (c1, _rx1) = Session::open(&mut rooms, "r1", ONE);

    assert_eq!(c1.plan(&rooms, Event::Malformed), idle());
    assert_eq!(c1.plan(&rooms, Event::Ignored), idle());
    assert_eq!(c1.plan(&rooms, Event::Lagged), idle());
    assert_eq!(
        c1.plan(&rooms, Event::Binary(vec![1, 2, 3])),
        Plan {
            publish: Some(ServerMessage::YjsSync { user_id: ONE.to_string(), data: vec![1, 2, 3] }),
            ..idle()
        }
    );
    assert_eq!(
        c1.plan(&rooms, Event::Ping(vec![9, 8])),
        Plan { action: Action::Pong(vec![9, 8]), ..idle() }
    );
    for event in [Event::Close, Event::SocketLost, Event::ChannelClosed] {
        assert_eq!(c1.plan(&rooms, event), Plan { close: true, action: Action::Stop, ..idle() });
    }
    // deciding changes nothing
    assert!(c1.is_active());
    assert_eq!(rooms.get_room_users("r1"), vec![one()]);
}

#[test]
fn broadcasts_of_others_and_of_nobody_are_delivered() {
    let mut rooms = RoomManager::new();
    let (c1, _rx1) = Session::open(&mut rooms, "r1", ONE);
    let foreign = vec![
        ServerMessage::UserJoined { user: two() },
        ServerMessage::UserLeft { user_id: TWO.to_string() },
        ServerMessage::CursorUpdate { user_id: TWO.to_string(), x: num(0.0), y: num(0.0) },
        ServerMessage::DrawUpdate { user_id: TWO.to_string(), operation: DrawOperation::Clear },
        ServerMessage::YjsSync { user_id: TWO.to_string(), data: vec![7] },
        ServerMessage::RoomState { users: vec![one()] },
        ServerMessage::RoomState { users: vec![] },
        ServerMessage::Error { message: ONE.to_string() },
    ];
    for msg in foreign {
        assert_eq!(
            c1.plan(&rooms, Event::Broadcast(msg.clone())),
            Plan { action: Action::Deliver(msg), ..idle() }
        );
    }
}

#[test]
fn own_broadcasts_are_kept_from_the_socket() {
    let mut rooms = RoomManager::new();
    let (c1, _rx1) = Session::open(&mut rooms, "r1", ONE);
    let own = vec![
        ServerMessage::UserJoined { user: one() },
        ServerMessage::UserLeft { user_id: ONE.to_string() },
        ServerMessage::CursorUpdate { user_id: ONE.to_string(), x: num(0.0), y: num(0.0) },
        ServerMessage::DrawUpdate { user_id: ONE.to_string(), operation: DrawOperation::Clear },
        ServerMessage::YjsSync { user_id: ONE.to_string(), data: vec![7] },
    ];
    for msg in own {
        assert_eq!(c1.plan(&rooms, Event::Broadcast(msg)), idle());
    }
}

#[test]
fn binary_frame_is_relayed_unread() {
    let mut rooms = RoomManager::new();
    let (mut c1, _rx1) = Session::open(&mut rooms, "r1", ONE);
    let (_c2, mut rx2) = Session::open(&mut rooms, "r1", TWO);
    let data = vec![0u8, 255, 123, b'{', 0];
    assert_eq!(c1.step(&mut rooms, Event::Binary(data.clone())), Action::Proceed);
    assert_eq!(rx2.try_recv(), Ok(ServerMessage::YjsSync { user_id: ONE.to_string(), data }));
    assert_eq!(c1.step(&mut rooms, Event::Binary(vec![])), Action::Proceed);
    assert_eq!(
        rx2.try_recv(),
        Ok(ServerMessage::YjsSync { user_id: ONE.to_string(), data: vec![] })
    );
}

#[test]
fn ping_is_answered_with_its_payload() {
    let mut rooms = RoomManager::new();
    let (mut c1, mut rx1) = Session::open(&mut rooms, "r1", ONE);
    assert_eq!(c1.step(&mut rooms, Event::Ping(vec![1, 2])), Action::Pong(vec![1, 2]));
    assert_eq!(c1.step(&mut rooms, Event::Ping(vec![])), Action::Pong(vec![]));
    assert!(c1.is_active());
    assert_eq!(rx1.try_recv(), Err(TryRecvError::Empty));
}

#[test]
fn sync_request_publishes_the_users_of_the_room() {
    let mut rooms = RoomManager::new();
    let (mut c1, mut rx1) = Session::open(&mut rooms, "r1", ONE);
    let (_c2, mut rx2) = Session::open(&mut rooms, "r1", TWO);
    let (_c3, _rx3) = Session::open(&mut rooms, "other", "conn-003-0003");
    assert_eq!(rx1.try_recv(), Ok(ServerMessage::UserJoined { user: two() }));

    assert_eq!(c1.step(&mut rooms, Event::Message(ClientMessage::SyncRequest)), Action::Proceed);
    let state = ServerMessage::RoomState { users: vec![one(), two()] };
    assert_eq!(rx2.try_recv(), Ok(state.clone()));
    // the snapshot speaks for nobody, so the one who asked gets it too
    let answer = rx1.try_recv().unwrap();
    assert_eq!(answer, state);
    assert_eq!(c1.step(&mut rooms, Event::Broadcast(answer)), Action::Deliver(state));
}

#[test]
fn update_name_is_recorded_and_announced() {
    let mut rooms = RoomManager::new();
    let (mut c1, _rx1) = Session::open(&mut rooms, "r1", ONE);
    let (_c2, mut rx2) = Session::open(&mut rooms, "r1", TWO);
    let renamed = UserInfo { name: "Ada".to_string(), ..one() };
    let event = Event::Message(ClientMessage::UpdateName { name: "Ada".to_string() });
    assert_eq!(c1.step(&mut rooms, event), Action::Proceed);
    assert_eq!(rx2.try_recv(), Ok(ServerMessage::UserJoined { user: renamed.clone() }));
    assert_eq!(rooms.get_room_users("r1"), vec![renamed, two()]);
}

#[test]
fn close_frame_ends_the_session_and_announces_the_departure() {
    let mut rooms = RoomManager::new();
    let (mut c1, _rx1) = Session::open(&mut rooms, "r1", ONE);
    let (_c2, mut rx2) = Session::open(&mut rooms, "r1", TWO);
    assert_eq!(c1.step(&mut rooms, Event::Close), Action::Stop);
    assert!(!c1.is_active());
    assert_eq!(rooms.get_room_users("r1"), vec![two()]);
    assert_eq!(rx2.try_recv(), Ok(ServerMessage::UserLeft { user_id: ONE.to_string() }));
    assert_eq!(rx2.try_recv(), Err(TryRecvError::Empty));
}

#[test]
fn closed_channel_ends_the_session() {
    let mut rooms = RoomManager::new();
    let (mut c1, _rx1) = Session::open(&mut rooms, "r1", ONE);
    assert_eq!(c1.step(&mut rooms, Event::ChannelClosed), Action::Stop);
    assert!(!c1.is_active());
    assert!(!rooms.has_room("r1"));
}

#[test]
fn lagging_does_not_end_the_session() {
    let mut rooms = RoomManager::new();
    let (mut c1, _rx1) = Session::open(&mut rooms, "r1", ONE);
    assert_eq!(c1.step(&mut rooms, Event::Lagged), Action::Proceed);
    assert_eq!(c1.step(&mut rooms, Event::Ignored), Action::Proceed);
    assert!(c1.is_active());
    assert_eq!(rooms.get_room_users("r1"), vec![one()]);
}

#[test]
fn session_leaves_exactly_once() {
    let mut rooms = RoomManager::new();
    let (mut c1, _rx1) = Session::open(&mut rooms, "r1", ONE);
    let (_c2, mut rx2) = Session::open(&mut rooms, "r1", TWO);
    assert!(c1.close(&mut rooms));
    assert!(!c1.is_active());
    assert_eq!(rx2.try_recv(), Ok(ServerMessage::UserLeft { user_id: ONE.to_string() }));

    // somebody else takes the identifier; the closed session must not
    // remove them
    let (_c3, _rx3) = Session::open(&mut rooms, "r1", ONE);
    assert_eq!(rx2.try_recv(), Ok(ServerMessage::UserJoined { user: one() }));
    assert!(!c1.close(&mut rooms));
    assert_eq!(c1.step(&mut rooms, Event::SocketLost), Action::Stop);
    assert_eq!(c1.step(&mut rooms, Event::Close), Action::Stop);
    assert_eq!(rooms.get_room_users("r1"), vec![two(), one()]);
    assert_eq!(rx2.try_recv(), Err(TryRecvError::Empty));
}

#[test]
fn closed_session_does_nothing() {
    let mut rooms = RoomManager::new();
    let (mut c1, _rx1) = Session::open(&mut rooms, "r1", ONE);
    let (_c2, mut rx2) = Session::open(&mut rooms, "r1", TWO);
    assert_eq!(c1.step(&mut rooms, Event::SocketLost), Action::Stop);
    assert_eq!(rx2.try_recv(), Ok(ServerMessage::UserLeft { user_id: ONE.to_string() }));

    let stopped = Plan { action: Action::Stop, ..idle() };
    let events = vec![
        Event::Message(ClientMessage::CursorMove { x: num(1.0), y: num(1.0) }),
        Event::Message(ClientMessage::UpdateName { name: "Ghost".to_string() }),
        Event::Message(ClientMessage::SyncRequest),
        Event::Binary(vec![1]),
        Event::Ping(vec![1]),
        Event::Malformed,
        Event::Broadcast(ServerMessage::Error { message: "late".to_string() }),
        Event::Lagged,
    ];
    for event in events {
        assert_eq!(c1.plan(&rooms, event.clone()), stopped);
        assert_eq!(c1.step(&mut rooms, event), Action::Stop);
    }
    assert_eq!(rx2.try_recv(), Err(TryRecvError::Empty));
    assert_eq!(rooms.get_room_users("r1"), vec![two()]);
}

#[test]
fn messages_arrive_in_the_order_published() {
    let mut rooms = RoomManager::new();
    let (mut c1, _rx1) = Session::open(&mut rooms, "r1", ONE);
    let (_c2, mut rx2) = Session::open(&mut rooms, "r1", TWO);
    for i in 0..ROOM_CAPACITY {
        let event =
            Event::Message(ClientMessage::CursorMove { x: num(i as f64), y: num(0.0) });
        assert_eq!(c1.step(&mut rooms, event), Action::Proceed);
    }
    for i in 0..ROOM_CAPACITY {
        assert_eq!(
            rx2.try_recv(),
            Ok(ServerMessage::CursorUpdate {
                user_id: ONE.to_string(),
                x: num(i as f64),
                y: num(0.0),
            })
        );
    }
    assert_eq!(rx2.try_recv(), Err(TryRecvError::Empty));
}

#[test]
fn slow_subscriber_loses_the_oldest_and_stalls_nobody() {
    let mut rooms = RoomManager::new();
    let (mut c1, _rx1) = Session::open(&mut rooms, "r1", ONE);
    let (mut c2, mut rx2) = Session::open(&mut rooms, "r1", TWO);
    let total = 3 * ROOM_CAPACITY;
    for i in 0..total {
        let event =
            Event::Message(ClientMessage::CursorMove { x: num(i as f64), y: num(0.0) });
        assert_eq!(c1.step(&mut rooms, event), Action::Proceed);
    }
    let missed = match rx2.try_recv() {
        Err(TryRecvError::Lagged(n)) => n as usize,
        other => panic!("expected a lagging subscription, got {:?}", other),
    };
    assert!(missed > 0 && missed <= total - ROOM_CAPACITY);
    assert_eq!(c2.step(&mut rooms, Event::Lagged), Action::Proceed);
    for i in missed..total {
        assert_eq!(
            rx2.try_recv(),
            Ok(ServerMessage::CursorUpdate {
                user_id: ONE.to_string(),
                x: num(i as f64),
                y: num(0.0),
            })
        );
    }
    assert_eq!(rx2.try_recv(), Err(TryRecvError::Empty));
}

#[test]
fn session_with_a_short_identifier() {
    let mut rooms = RoomManager::new();
    let (mut session, _rx) = Session::open(&mut rooms, "r1", "u1");
    assert_eq!(session.user_id(), "u1");
    assert_eq!(
        rooms.get_room_users("r1"),
        vec![UserInfo {
            id: "u1".to_string(),
            name: "User u1".to_string(),
            color: "#98D8C8".to_string(),
        }]
    );
    assert_eq!(session.step(&mut rooms, Event::Close), Action::Stop);
    assert!(!rooms.has_room("r1"));
}
