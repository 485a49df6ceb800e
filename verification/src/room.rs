//! Rooms and the registry that owns them.

use vstd::prelude::*;
use tokio::sync::broadcast::{Receiver, Sender};
use crate::channel::{
    backlog_limit, open_channel, publish, same_channel, share, shares_channel, subscribe,
};
use crate::color::generate_user_color;
use crate::membership::{
    after_join, after_leave, after_rename, consistent, dismiss, distinct_members, enroll,
    first_index, is_member, join_announcement, leave_announcement, lemma_dismiss, lemma_enroll, lemma_first_index, lemma_first_index_is,
    lemma_first_index_push, lemma_first_index_remove,
    lemma_rename, member_ids, members_of, newcomer, position, rename, Registry,
};
use crate::protocol::{user_views, ServerMessage, ServerMessageView, UserInfo, UserInfoView};
use crate::text::{default_display_name, same_text};

verus! {

/// Capacity that is asked of the channel of a room: a subscriber may fall
/// this many messages behind before it loses the oldest. The channel rounds
/// the capacity up to a power of two, so it may keep a few more.
pub const ROOM_CAPACITY: usize = 1000;

/// The participant that a join registers for `user_id`: the identifier
/// with its default name and its colour.
pub fn newcomer_info(user_id: &str) -> (user: UserInfo)
    ensures
        user@ == newcomer(user_id@),
{
    UserInfo {
        id: user_id.to_owned(),
        name: default_display_name(user_id),
        color: generate_user_color(user_id),
    }
}

/// The message that announces the participant `user` to its room.
pub fn join_notice(user: UserInfo) -> (notice: ServerMessage)
    ensures
        notice@ == (ServerMessageView::UserJoined { user: user@ }),
{
    ServerMessage::UserJoined { user }
}

/// The message that announces a departure: none for somebody who was not in
/// the room.
pub fn leave_notice(was_member: bool, user_id: &str) -> (notice: Option<ServerMessage>)
    ensures
        notice.is_some() == was_member,
        was_member ==> notice.unwrap()@ == (ServerMessageView::UserLeft { user_id: user_id@ }),
{
    if was_member {
        Some(ServerMessage::UserLeft { user_id: user_id.to_owned() })
    } else {
        None
    }
}

/// A single collaborative room.
struct Room {
    /// Identifier under which the registry keeps the room.
    id: String,
    /// Channel that sends messages to all participants of the room.
    tx: Sender<ServerMessage>,
    /// Connected users, oldest first.
    users: Vec<UserInfo>,
}

impl Room {
    /// The participants of the room.
    spec fn members(&self) -> Seq<UserInfoView> {
        user_views(self.users@)
    }

    /// A room without participants, with a channel of its own.
    fn new(id: String) -> (room: Self)
        ensures
            room.id == id,
            room.users@.len() == 0,
            backlog_limit(room.tx) == ROOM_CAPACITY,
    {
        Room { id, tx: open_channel(ROOM_CAPACITY), users: Vec::new() }
    }

    /// Position of the participant `user_id`, or the number of participants
    /// where it is not among them.
    fn find(&self, user_id: &str) -> (p: usize)
        ensures
            p == position(self.members(), user_id@),
            p <= self.users.len(),
    {
        let ghost ids = member_ids(self.members());
        let mut i: usize = 0;
        while i < self.users.len()
            invariant
                0 <= i <= self.users.len(),
                ids == member_ids(self.members()),
                forall|j: int| 0 <= j < i ==> ids[j] != user_id@,
            decreases self.users.len() - i,
        {
            if same_text(self.users[i].id.as_str(), user_id) {
                proof {
                    lemma_first_index_is(ids, user_id@, i as int);
                }
                return i;
            }
            i = i + 1;
        }
        proof {
            lemma_first_index_is(ids, user_id@, i as int);
        }
        i
    }

    /// Registers `user`, in place of a participant with the same identifier
    /// where there is one.
    fn enroll(&mut self, user: UserInfo)
        ensures
            final(self).members() == enroll(old(self).members(), user@),
            final(self).id == old(self).id,
            final(self).tx == old(self).tx,
    {
        let p = self.find(user.id.as_str());
        if p < self.users.len() {
            self.users[p] = user;
        } else {
            self.users.push(user);
        }
        assert(self.members() =~= enroll(old(self).members(), user@));
    }

    /// Removes the participant `user_id` where it is there, and says
    /// whether it was.
    fn dismiss(&mut self, user_id: &str) -> (was_member: bool)
        ensures
            was_member == is_member(old(self).members(), user_id@),
            final(self).members() == dismiss(old(self).members(), user_id@),
            final(self).id == old(self).id,
            final(self).tx == old(self).tx,
    {
        let p = self.find(user_id);
        let was_member = p < self.users.len();
        if was_member {
            let _gone = self.users.remove(p);
        }
        assert(self.members() =~= dismiss(old(self).members(), user_id@));
        was_member
    }

    /// Gives the participant `user_id` the name `name` where it is there.
    fn rename(&mut self, user_id: &str, name: &str)
        ensures
            final(self).members() == rename(old(self).members(), user_id@, name@),
            final(self).id == old(self).id,
            final(self).tx == old(self).tx,
    {
        let p = self.find(user_id);
        if p < self.users.len() {
            self.users[p].name = name.to_owned();
        }
        assert(self.members() =~= rename(old(self).members(), user_id@, name@));
    }

    /// A copy of the participants, oldest first.
    fn snapshot(&self) -> (users: Vec<UserInfo>)
        ensures
            user_views(users@) == self.members(),
    {
        let mut users: Vec<UserInfo> = Vec::new();
        let mut i: usize = 0;
        while i < self.users.len()
            invariant
                0 <= i <= self.users.len(),
                users@.len() == i,
                forall|j: int| 0 <= j < i ==> users@[j]@ == self.users@[j]@,
            decreases self.users.len() - i,
        {
            users.push(self.users[i].clone());
            i = i + 1;
        }
        assert(user_views(users@) =~= self.members());
        users
    }
}

/// The identifiers of a list of rooms, in the same order.
spec fn room_ids(rooms: Seq<Room>) -> Seq<Seq<char>> {
    Seq::new(rooms.len(), |i: int| rooms[i].id@)
}

/// Manages all active rooms and their participants.
pub struct RoomManager {
    rooms: Vec<Room>,
}

impl View for RoomManager {
    type V = Registry;

    /// The rooms with the participants of each, oldest first.
    closed spec fn view(&self) -> Registry {
        Map::new(
            |room: Seq<char>| first_index(room_ids(self.rooms@), room) < self.rooms.len(),
            |room: Seq<char>| self.rooms[first_index(room_ids(self.rooms@), room)].members(),
        )
    }
}

impl RoomManager {
    /// The invariant of the registry: no room is kept twice, every room has
    /// a participant and a channel of `ROOM_CAPACITY`, and no room lists a
    /// participant twice.
    pub closed spec fn wf(&self) -> bool {
        &&& room_ids(self.rooms@).no_duplicates()
        &&& forall|i: int|
            0 <= i < self.rooms.len() ==> (#[trigger] self.rooms[i]).users.len() > 0
                && distinct_members(self.rooms[i].members()) && backlog_limit(self.rooms[i].tx)
                == ROOM_CAPACITY
    }

    /// The publish handle that the registry keeps for `room`. It has a
    /// meaning only while the room exists.
    pub closed spec fn channel(&self, room: Seq<char>) -> Sender<ServerMessage> {
        self.rooms[first_index(room_ids(self.rooms@), room)].tx
    }

    /// A well-formed registry is consistent: a room is in it exactly when it
    /// has participants.
    pub proof fn lemma_consistent(&self)
        requires
            self.wf(),
        ensures
            consistent(self@),
    {
        assert forall|room: Seq<char>| #[trigger] self@.dom().contains(room) implies self@[room].len()
            > 0 && distinct_members(self@[room]) by {
            let i = first_index(room_ids(self.rooms@), room);
            lemma_first_index(room_ids(self.rooms@), room);
            assert(self.rooms[i].users.len() > 0);
        }
    }

    /// A registry without rooms.
    pub fn new() -> (manager: Self)
        ensures
            manager.wf(),
            manager@ == Map::<Seq<char>, Seq<UserInfoView>>::empty(),
    {
        let manager = RoomManager { rooms: Vec::new() };
        assert(manager@ =~= Map::<Seq<char>, Seq<UserInfoView>>::empty());
        manager
    }

    /// Position of the room `room_id`, or the number of rooms where there is
    /// none.
    fn find_room(&self, room_id: &str) -> (p: usize)
        ensures
            p == first_index(room_ids(self.rooms@), room_id@),
            p <= self.rooms.len(),
            p < self.rooms.len() <==> self@.dom().contains(room_id@),
    {
        let ghost ids = room_ids(self.rooms@);
        let mut i: usize = 0;
        while i < self.rooms.len()
            invariant
                0 <= i <= self.rooms.len(),
                ids == room_ids(self.rooms@),
                forall|j: int| 0 <= j < i ==> ids[j] != room_id@,
            decreases self.rooms.len() - i,
        {
            if same_text(self.rooms[i].id.as_str(), room_id) {
                proof {
                    lemma_first_index_is(ids, room_id@, i as int);
                }
                return i;
            }
            i = i + 1;
        }
        proof {
            lemma_first_index_is(ids, room_id@, i as int);
        }
        i
    }

    /// Join a room, creating it if it doesn't exist. Registers the
    /// participant that [`newcomer_info`] gives, publishes the
    /// [`join_notice`] of that participant to those already subscribed, and
    /// returns a publish handle and a new subscription of the room's
    /// channel. The newcomer's subscription starts after the announcement.
    pub fn join_room(&mut self, room_id: &str, user_id: &str) -> (handles: (
        Sender<ServerMessage>,
        Receiver<ServerMessage>,
    ))
        requires
            old(self).wf(),
        ensures
            final(self).wf(),
            final(self)@ == after_join(old(self)@, room_id@, user_id@),
            same_channel(final(self).channel(room_id@), handles.0),
            backlog_limit(handles.0) == ROOM_CAPACITY,
            forall|room: Seq<char>|
                old(self)@.dom().contains(room) ==> final(self).channel(room) == old(self).channel(
                    room,
                ),
    {
        let i = self.find_room(room_id);
        let ghost before = *self;
        let ghost ids = room_ids(before.rooms@);
        if i == self.rooms.len() {
            self.rooms.push(Room::new(room_id.to_owned()));
        }
        let ghost opened = *self;
        let user_info = newcomer_info(user_id);
        self.rooms[i].enroll(user_info.clone());
        proof {
            let now_ids = room_ids(self.rooms@);
            let found = i < before.rooms.len();
            assert(now_ids =~= if found { ids } else { ids.push(room_id@) });
            assert(opened.rooms[i as int].members() =~= members_of(before@, room_id@));
            assert(distinct_members(opened.rooms[i as int].members())) by {
                if !found {
                    assert(member_ids(opened.rooms[i as int].members()) =~= Seq::empty());
                }
            }
            lemma_enroll(opened.rooms[i as int].members(), user_info@);
            lemma_first_index(ids, room_id@);
            assert(now_ids.no_duplicates()) by {
                if !found {
                    lemma_first_index_push(ids, room_id@, room_id@);
                }
            }
            assert forall|room: Seq<char>|
                {
                    &&& #[trigger] first_index(now_ids, room) == (if first_index(ids, room)
                        < ids.len() {
                        first_index(ids, room)
                    } else if room == room_id@ {
                        i as int
                    } else {
                        now_ids.len() as int
                    })
                    &&& 0 <= first_index(ids, room) <= ids.len()
                    &&& first_index(ids, room) < ids.len() ==> ids[first_index(ids, room)] == room
                } by {
                lemma_first_index(ids, room);
                if !found {
                    lemma_first_index_push(ids, room_id@, room);
                }
            }
            assert(self@ =~= after_join(before@, room_id@, user_id@));
        }
        let notice = join_notice(user_info);
        assert(notice@ == join_announcement(user_id@));
        publish(&self.rooms[i].tx, notice);
        let tx = share(&self.rooms[i].tx);
        let rx = subscribe(&self.rooms[i].tx);
        (tx, rx)
    }

    /// Remove a user from a room. Publishes the [`leave_notice`] to the
    /// room; with its last participant the room leaves the registry.
    /// Nothing happens, and nothing is announced, where the room does not
    /// exist or the participant is not in it.
    pub fn leave_room(&mut self, room_id: &str, user_id: &str)
        requires
            old(self).wf(),
        ensures
            final(self).wf(),
            final(self)@ == after_leave(old(self)@, room_id@, user_id@),
            forall|room: Seq<char>|
                final(self)@.dom().contains(room) ==> final(self).channel(room) == old(
                    self,
                ).channel(room),
    {
        let i = self.find_room(room_id);
        let ghost before = *self;
        let ghost ids = room_ids(before.rooms@);
        if i < self.rooms.len() {
            let was_member = self.rooms[i].dismiss(user_id);
            let notice = leave_notice(was_member, user_id);
            assert(match notice {
                Some(msg) => Some(msg@),
                None => None,
            } == leave_announcement(before@, room_id@, user_id@));
            if let Some(msg) = notice {
                publish(&self.rooms[i].tx, msg);
            }
            let emptied = self.rooms[i].users.len() == 0;
            if emptied {
                let _gone = self.rooms.remove(i);
            }
            proof {
                let now_ids = room_ids(self.rooms@);
                lemma_dismiss(before.rooms[i as int].members(), user_id@);
                lemma_first_index(ids, room_id@);
                assert(now_ids =~= if emptied { ids.remove(i as int) } else { ids });
                if emptied {
                    lemma_first_index_remove(ids, i as int, room_id@);
                }
                assert forall|room: Seq<char>|
                    {
                        &&& #[trigger] first_index(now_ids, room) == (if !emptied || first_index(
                            ids,
                            room,
                        ) < i {
                            first_index(ids, room)
                        } else if first_index(ids, room) == i {
                            now_ids.len() as int
                        } else {
                            first_index(ids, room) - 1
                        })
                        &&& 0 <= first_index(ids, room) <= ids.len()
                        &&& first_index(ids, room) < ids.len() ==> ids[first_index(ids, room)]
                            == room
                    } by {
                    lemma_first_index(ids, room);
                    if emptied {
                        lemma_first_index_remove(ids, i as int, room);
                    }
                }
                assert(self@ =~= after_leave(before@, room_id@, user_id@));
            }
        }
    }

    /// Records the name that a participant chose. Nothing happens where the
    /// room or the participant does not exist.
    pub fn update_name(&mut self, room_id: &str, user_id: &str, name: &str)
        requires
            old(self).wf(),
        ensures
            final(self).wf(),
            final(self)@ == after_rename(old(self)@, room_id@, user_id@, name@),
            forall|room: Seq<char>|
                old(self)@.dom().contains(room) ==> final(self).channel(room) == old(self).channel(
                    room,
                ),
    {
        let i = self.find_room(room_id);
        let ghost before = *self;
        if i < self.rooms.len() {
            self.rooms[i].rename(user_id, name);
            proof {
                lemma_rename(before.rooms[i as int].members(), user_id@, name@);
                let ids = room_ids(before.rooms@);
                assert(room_ids(self.rooms@) =~= ids);
                lemma_first_index(ids, room_id@);
                assert forall|room: Seq<char>|
                    {
                        &&& 0 <= #[trigger] first_index(ids, room) <= ids.len()
                        &&& first_index(ids, room) < ids.len() ==> ids[first_index(ids, room)]
                            == room
                    } by {
                    lemma_first_index(ids, room);
                }
                assert(self@ =~= after_rename(before@, room_id@, user_id@, name@));
            }
        }
    }

    /// Whether `tx` is a handle of the channel that the room `room_id` has
    /// now. A handle of a room that has since been removed is none of the
    /// room that took its name.
    pub fn owns_channel(&self, room_id: &str, tx: &Sender<ServerMessage>) -> (owned: bool)
        ensures
            owned == (self@.dom().contains(room_id@) && same_channel(self.channel(room_id@), *tx)),
    {
        let i = self.find_room(room_id);
        i < self.rooms.len() && shares_channel(&self.rooms[i].tx, tx)
    }

    /// Whether the registry has a room `room_id`.
    pub fn has_room(&self, room_id: &str) -> (present: bool)
        ensures
            present == self@.dom().contains(room_id@),
    {
        self.find_room(room_id) < self.rooms.len()
    }

    /// Get all users in a room, oldest first; none where the room does not
    /// exist.
    pub fn get_room_users(&self, room_id: &str) -> (users: Vec<UserInfo>)
        ensures
            user_views(users@) == members_of(self@, room_id@),
            self.wf() ==> (users@.len() > 0 <==> self@.dom().contains(room_id@)),
    {
        let i = self.find_room(room_id);
        if i < self.rooms.len() {
            self.rooms[i].snapshot()
        } else {
            let users: Vec<UserInfo> = Vec::new();
            assert(user_views(users@) =~= Seq::<UserInfoView>::empty());
            users
        }
    }
}

impl Default for RoomManager {
    fn default() -> (manager: Self)
        ensures
            manager.wf(),
            manager@ == Map::<Seq<char>, Seq<UserInfoView>>::empty(),
    {
        Self::new()
    }
}

} // verus!
