//! The registry as a mathematical object: a map from room identifiers to
//! the participants of each room, and what joining, leaving and renaming do
//! to it.

use vstd::prelude::*;
use vstd::utf8::*;
use crate::color::color_of;
use crate::protocol::{ServerMessageView, UserInfoView};

verus! {

/// Number of leading bytes of an identifier that its default name shows.
pub const SHORT_ID_BYTES: usize = 8;

/// The rooms of a registry with the participants of each, oldest first.
pub type Registry = Map<Seq<char>, Seq<UserInfoView>>;

/// Position of the first occurrence of `key` in `keys`, or the length of
/// `keys` where there is none.
pub open spec fn first_index(keys: Seq<Seq<char>>, key: Seq<char>) -> int
    decreases keys.len(),
{
    if keys.len() == 0 {
        0
    } else if keys[0] == key {
        0
    } else {
        1 + first_index(keys.drop_first(), key)
    }
}

/// `first_index` is within bounds, nothing before it is the key, and the
/// key stands at it unless it is the length.
pub proof fn lemma_first_index(keys: Seq<Seq<char>>, key: Seq<char>)
    ensures
        0 <= first_index(keys, key) <= keys.len(),
        forall|j: int| 0 <= j < first_index(keys, key) ==> keys[j] != key,
        first_index(keys, key) < keys.len() ==> keys[first_index(keys, key)] == key,
    decreases keys.len(),
{
    if keys.len() != 0 && keys[0] != key {
        let rest = keys.drop_first();
        lemma_first_index(rest, key);
        let p = first_index(rest, key);
        assert forall|j: int| 0 <= j < 1 + p implies keys[j] != key by {
            if j > 0 {
                assert(rest[j - 1] == keys[j]);
            }
        }
        if 1 + p < keys.len() {
            assert(rest[p] == keys[p + 1]);
        }
    }
}

/// A position with the properties of `first_index` is `first_index`.
pub proof fn lemma_first_index_is(keys: Seq<Seq<char>>, key: Seq<char>, p: int)
    requires
        0 <= p <= keys.len(),
        forall|j: int| 0 <= j < p ==> keys[j] != key,
        p < keys.len() ==> keys[p] == key,
    ensures
        first_index(keys, key) == p,
{
    lemma_first_index(keys, key);
}

/// Where a key is found after another key was appended.
pub proof fn lemma_first_index_push(keys: Seq<Seq<char>>, added: Seq<char>, key: Seq<char>)
    ensures
        first_index(keys.push(added), key) == (if first_index(keys, key) < keys.len() {
            first_index(keys, key)
        } else if key == added {
            keys.len() as int
        } else {
            keys.len() as int + 1
        }),
{
    let longer = keys.push(added);
    let p = first_index(keys, key);
    lemma_first_index(keys, key);
    let q = if p < keys.len() {
        p
    } else if key == added {
        keys.len() as int
    } else {
        keys.len() as int + 1
    };
    assert forall|j: int| 0 <= j < q implies longer[j] != key by {
        if j < keys.len() {
            assert(longer[j] == keys[j]);
        }
    }
    if q < keys.len() {
        assert(longer[q] == keys[q]);
    }
    lemma_first_index_is(longer, key, q);
}

/// Where a key is found after the key at position `i` was taken out of a
/// list without repetitions.
pub proof fn lemma_first_index_remove(keys: Seq<Seq<char>>, i: int, key: Seq<char>)
    requires
        keys.no_duplicates(),
        0 <= i < keys.len(),
    ensures
        keys.remove(i).no_duplicates(),
        first_index(keys.remove(i), key) == (if first_index(keys, key) < i {
            first_index(keys, key)
        } else if first_index(keys, key) == i {
            keys.len() - 1
        } else {
            first_index(keys, key) - 1
        }),
{
    let shorter = keys.remove(i);
    let p = first_index(keys, key);
    lemma_first_index(keys, key);
    assert forall|a: int, b: int|
        0 <= a < shorter.len() && 0 <= b < shorter.len() && a != b implies shorter[a]
        != shorter[b] by {
        let oa = if a < i { a } else { a + 1 };
        let ob = if b < i { b } else { b + 1 };
        assert(keys[oa] != keys[ob]);
    }
    let q = if p < i {
        p
    } else if p == i {
        keys.len() - 1
    } else {
        p - 1
    };
    assert forall|j: int| 0 <= j < q implies shorter[j] != key by {
        let oj = if j < i { j } else { j + 1 };
        assert(shorter[j] == keys[oj]);
        if p == i {
            assert(keys[oj] != keys[i]);
        }
    }
    if q < shorter.len() {
        let oq = if q < i { q } else { q + 1 };
        assert(shorter[q] == keys[oq]);
    }
    lemma_first_index_is(shorter, key, q);
}

/// The identifiers of a list of participants, in the same order.
pub open spec fn member_ids(members: Seq<UserInfoView>) -> Seq<Seq<char>> {
    Seq::new(members.len(), |i: int| members[i].id)
}

/// Position of the participant `id` in `members`, or their number where it
/// is not among them.
pub open spec fn position(members: Seq<UserInfoView>, id: Seq<char>) -> int {
    first_index(member_ids(members), id)
}

/// Whether the participant `id` is among `members`.
pub open spec fn is_member(members: Seq<UserInfoView>, id: Seq<char>) -> bool {
    position(members, id) < members.len()
}

/// No identifier occurs twice among `members`.
pub open spec fn distinct_members(members: Seq<UserInfoView>) -> bool {
    member_ids(members).no_duplicates()
}

/// The last position at or before `k` at which `bytes` can be cut without
/// splitting a character; position 0 always can.
pub open spec fn cut_at(bytes: Seq<u8>, k: int) -> int
    decreases k,
{
    if k <= 0 {
        0
    } else if is_char_boundary(bytes, k) {
        k
    } else {
        cut_at(bytes, k - 1)
    }
}

/// Length of the longest beginning of `bytes` that has at most
/// `SHORT_ID_BYTES` bytes and ends a character.
pub open spec fn short_cut(bytes: Seq<u8>) -> int {
    cut_at(
        bytes,
        if bytes.len() < SHORT_ID_BYTES {
            bytes.len() as int
        } else {
            SHORT_ID_BYTES as int
        },
    )
}

/// The short form of an identifier: the characters of the longest beginning
/// of its UTF-8 form that has at most `SHORT_ID_BYTES` bytes and ends a
/// character. An identifier of fewer bytes is its own short form.
pub open spec fn short_form(id: Seq<char>) -> Seq<char> {
    decode_utf8(encode_utf8(id).subrange(0, short_cut(encode_utf8(id))))
}

/// `cut_at` is the last character boundary at or before `k`.
pub proof fn lemma_cut_at(bytes: Seq<u8>, k: int)
    requires
        valid_utf8(bytes),
        0 <= k,
    ensures
        0 <= cut_at(bytes, k) <= k,
        is_char_boundary(bytes, cut_at(bytes, k)),
        forall|j: int| cut_at(bytes, k) < j <= k ==> !is_char_boundary(bytes, j),
    decreases k,
{
    if k > 0 && !is_char_boundary(bytes, k) {
        lemma_cut_at(bytes, k - 1);
    }
}

/// Where the UTF-8 form of an identifier can be cut after `SHORT_ID_BYTES`
/// bytes, the short form is what these bytes encode.
pub proof fn lemma_short_form_at_limit(id: Seq<char>)
    requires
        is_char_boundary(encode_utf8(id), SHORT_ID_BYTES as int),
    ensures
        short_cut(encode_utf8(id)) == SHORT_ID_BYTES,
        short_form(id) == decode_utf8(encode_utf8(id).subrange(0, SHORT_ID_BYTES as int)),
{
    encode_utf8_valid_utf8(id);
}

/// The name of a participant who has not chosen one.
pub open spec fn default_name(id: Seq<char>) -> Seq<char> {
    "User "@ + short_form(id)
}

/// The participant that a join registers for the identifier `id`.
pub open spec fn newcomer(id: Seq<char>) -> UserInfoView {
    UserInfoView { id, name: default_name(id), color: color_of(id) }
}

/// `members` after `user` was registered: a participant with the same
/// identifier is replaced where it stands, otherwise `user` comes last.
pub open spec fn enroll(members: Seq<UserInfoView>, user: UserInfoView) -> Seq<UserInfoView> {
    let p = position(members, user.id);
    if p < members.len() {
        members.update(p, user)
    } else {
        members.push(user)
    }
}

/// `members` without the participant `id`.
pub open spec fn dismiss(members: Seq<UserInfoView>, id: Seq<char>) -> Seq<UserInfoView> {
    let p = position(members, id);
    if p < members.len() {
        members.remove(p)
    } else {
        members
    }
}

/// `members` after the participant `id` took the name `name`; unchanged
/// where `id` is not among them.
pub open spec fn rename(members: Seq<UserInfoView>, id: Seq<char>, name: Seq<char>) -> Seq<
    UserInfoView,
> {
    let p = position(members, id);
    if p < members.len() {
        members.update(p, UserInfoView { id: members[p].id, name, color: members[p].color })
    } else {
        members
    }
}

/// The participants of `room`; none where the registry has no such room.
pub open spec fn members_of(reg: Registry, room: Seq<char>) -> Seq<UserInfoView> {
    if reg.dom().contains(room) {
        reg[room]
    } else {
        Seq::empty()
    }
}

/// Number of participants that the registry tracks for `room`.
pub open spec fn head_count(reg: Registry, room: Seq<char>) -> nat {
    members_of(reg, room).len()
}

/// The registry after the participant `id` joined `room`: the room exists
/// afterwards, created empty where it was absent, and holds the newcomer.
pub open spec fn after_join(reg: Registry, room: Seq<char>, id: Seq<char>) -> Registry {
    reg.insert(room, enroll(members_of(reg, room), newcomer(id)))
}

/// The registry after the participant `id` left `room`: the room loses the
/// participant and, with its last participant, its place in the registry.
/// A room or participant that is not there leaves the registry as it was.
pub open spec fn after_leave(reg: Registry, room: Seq<char>, id: Seq<char>) -> Registry {
    if !reg.dom().contains(room) {
        reg
    } else {
        let rest = dismiss(reg[room], id);
        if rest.len() == 0 {
            reg.remove(room)
        } else {
            reg.insert(room, rest)
        }
    }
}

/// The registry after the participant `id` of `room` took the name `name`.
pub open spec fn after_rename(
    reg: Registry,
    room: Seq<char>,
    id: Seq<char>,
    name: Seq<char>,
) -> Registry {
    if !reg.dom().contains(room) {
        reg
    } else {
        reg.insert(room, rename(reg[room], id, name))
    }
}

/// What a join of the participant `id` announces to the room.
pub open spec fn join_announcement(id: Seq<char>) -> ServerMessageView {
    ServerMessageView::UserJoined { user: newcomer(id) }
}

/// What a leave of the participant `id` announces to the room: the
/// departure where the participant was in the room, and nothing otherwise.
pub open spec fn leave_announcement(reg: Registry, room: Seq<char>, id: Seq<char>) -> Option<
    ServerMessageView,
> {
    if is_member(members_of(reg, room), id) {
        Some(ServerMessageView::UserLeft { user_id: id })
    } else {
        None
    }
}

/// What holds of every registry: each room has a participant, and no room
/// lists a participant twice.
pub open spec fn consistent(reg: Registry) -> bool {
    forall|room: Seq<char>| #[trigger]
        reg.dom().contains(room) ==> reg[room].len() > 0 && distinct_members(reg[room])
}

/// Registering a participant keeps the identifiers distinct, and adds one
/// to their number exactly when the identifier is new.
pub proof fn lemma_enroll(members: Seq<UserInfoView>, user: UserInfoView)
    requires
        distinct_members(members),
    ensures
        distinct_members(enroll(members, user)),
        is_member(enroll(members, user), user.id),
        enroll(members, user).len() == members.len() + (if is_member(members, user.id) {
            0int
        } else {
            1int
        }),
{
    let ids = member_ids(members);
    let p = position(members, user.id);
    lemma_first_index(ids, user.id);
    let after = enroll(members, user);
    let after_ids = member_ids(after);
    if p < members.len() {
        assert(after_ids =~= ids);
    } else {
        assert(after_ids =~= ids.push(user.id));
        assert forall|i: int, j: int|
            0 <= i < after_ids.len() && 0 <= j < after_ids.len() && i != j implies after_ids[i]
            != after_ids[j] by {
            if i < ids.len() && j < ids.len() {
                assert(ids[i] != ids[j]);
            }
        }
    }
    lemma_first_index(after_ids, user.id);
    if position(after, user.id) >= after.len() {
        if p < members.len() {
            assert(after_ids[p] == user.id);
        } else {
            assert(after_ids[members.len() as int] == user.id);
        }
    }
}

/// Removing a participant keeps the identifiers distinct, takes the
/// participant away, and takes one from their number exactly when the
/// participant was there.
pub proof fn lemma_dismiss(members: Seq<UserInfoView>, id: Seq<char>)
    requires
        distinct_members(members),
    ensures
        distinct_members(dismiss(members, id)),
        !is_member(dismiss(members, id), id),
        dismiss(members, id).len() == members.len() - (if is_member(members, id) {
            1int
        } else {
            0int
        }),
{
    let ids = member_ids(members);
    let p = position(members, id);
    lemma_first_index(ids, id);
    let after = dismiss(members, id);
    let after_ids = member_ids(after);
    lemma_first_index(after_ids, id);
    if p < members.len() {
        assert(after_ids =~= ids.remove(p));
        assert forall|i: int, j: int|
            0 <= i < after_ids.len() && 0 <= j < after_ids.len() && i != j implies after_ids[i]
            != after_ids[j] by {
            let oi = if i < p { i } else { i + 1 };
            let oj = if j < p { j } else { j + 1 };
            assert(ids[oi] != ids[oj]);
        }
        let q = position(after, id);
        if q < after.len() {
            let oq = if q < p { q } else { q + 1 };
            assert(after_ids[q] == ids[oq]);
            assert(ids[oq] != ids[p]);
        }
    }
}

/// Renaming keeps the identifiers, and so their number and distinctness.
pub proof fn lemma_rename(members: Seq<UserInfoView>, id: Seq<char>, name: Seq<char>)
    ensures
        member_ids(rename(members, id, name)) == member_ids(members),
        rename(members, id, name).len() == members.len(),
{
    lemma_first_index(member_ids(members), id);
    assert(member_ids(rename(members, id, name)) =~= member_ids(members));
}

/// Joining keeps a registry consistent.
pub proof fn lemma_join_consistent(reg: Registry, room: Seq<char>, id: Seq<char>)
    requires
        consistent(reg),
    ensures
        consistent(after_join(reg, room, id)),
{
    assert(distinct_members(Seq::<UserInfoView>::empty()));
    lemma_enroll(members_of(reg, room), newcomer(id));
}

/// Leaving keeps a registry consistent.
pub proof fn lemma_leave_consistent(reg: Registry, room: Seq<char>, id: Seq<char>)
    requires
        consistent(reg),
    ensures
        consistent(after_leave(reg, room, id)),
{
    if reg.dom().contains(room) {
        lemma_dismiss(reg[room], id);
    }
}

/// Renaming keeps a registry consistent.
pub proof fn lemma_rename_consistent(
    reg: Registry,
    room: Seq<char>,
    id: Seq<char>,
    name: Seq<char>,
)
    requires
        consistent(reg),
    ensures
        consistent(after_rename(reg, room, id, name)),
{
    if reg.dom().contains(room) {
        lemma_rename(reg[room], id, name);
    }
}

/// A room is in a consistent registry exactly when the registry tracks a
/// participant for it.
pub proof fn lemma_present_iff_occupied(reg: Registry, room: Seq<char>)
    requires
        consistent(reg),
    ensures
        reg.dom().contains(room) <==> head_count(reg, room) > 0,
{
}

/// A join adds one to the head count of its room when the participant is
/// new to the room and nothing when it is already there; a leave takes one
/// away when the participant is there and nothing otherwise.
pub proof fn lemma_head_count_step(reg: Registry, room: Seq<char>, id: Seq<char>)
    requires
        consistent(reg),
    ensures
        head_count(after_join(reg, room, id), room) == head_count(reg, room) + (if is_member(
            members_of(reg, room),
            id,
        ) {
            0nat
        } else {
            1nat
        }),
        head_count(after_leave(reg, room, id), room) == head_count(reg, room) - (if is_member(
            members_of(reg, room),
            id,
        ) {
            1nat
        } else {
            0nat
        }),
        is_member(members_of(after_join(reg, room, id), room), id),
        !is_member(members_of(after_leave(reg, room, id), room), id),
{
    assert(distinct_members(Seq::<UserInfoView>::empty()));
    lemma_enroll(members_of(reg, room), newcomer(id));
    lemma_dismiss(members_of(reg, room), id);
    lemma_first_index(member_ids(Seq::<UserInfoView>::empty()), id);
}

/// Joins, leaves and new names in one room change nothing in another.
pub proof fn lemma_other_rooms_untouched(
    reg: Registry,
    room: Seq<char>,
    id: Seq<char>,
    name: Seq<char>,
    other: Seq<char>,
)
    requires
        other != room,
    ensures
        members_of(after_join(reg, room, id), other) == members_of(reg, other),
        members_of(after_leave(reg, room, id), other) == members_of(reg, other),
        members_of(after_rename(reg, room, id, name), other) == members_of(reg, other),
{
}

/// One join or leave of a participant.
pub enum Turn {
    Join { id: Seq<char> },
    Leave { id: Seq<char> },
}

/// The registry after one turn on `room`.
pub open spec fn after_turn(reg: Registry, room: Seq<char>, turn: Turn) -> Registry {
    match turn {
        Turn::Join { id } => after_join(reg, room, id),
        Turn::Leave { id } => after_leave(reg, room, id),
    }
}

/// The registry after a sequence of turns on `room`, first to last.
pub open spec fn after_turns(reg: Registry, room: Seq<char>, turns: Seq<Turn>) -> Registry
    decreases turns.len(),
{
    if turns.len() == 0 {
        reg
    } else {
        after_turn(after_turns(reg, room, turns.drop_last()), room, turns.last())
    }
}

/// Number of joins among `turns`.
pub open spec fn joins(turns: Seq<Turn>) -> nat
    decreases turns.len(),
{
    if turns.len() == 0 {
        0
    } else {
        joins(turns.drop_last()) + (if turns.last() is Join {
            1nat
        } else {
            0nat
        })
    }
}

/// Number of leaves among `turns`.
pub open spec fn leaves(turns: Seq<Turn>) -> nat
    decreases turns.len(),
{
    if turns.len() == 0 {
        0
    } else {
        leaves(turns.drop_last()) + (if turns.last() is Leave {
            1nat
        } else {
            0nat
        })
    }
}

/// Whether every turn is taken by a participant entitled to it: nobody
/// joins a room that it is in, and nobody leaves a room that it is not in.
/// Connections keep to this, since each has an identifier of its own, joins
/// once and leaves once.
pub open spec fn orderly(reg: Registry, room: Seq<char>, turns: Seq<Turn>) -> bool
    decreases turns.len(),
{
    turns.len() == 0 || {
        let earlier = turns.drop_last();
        let present = members_of(after_turns(reg, room, earlier), room);
        &&& orderly(reg, room, earlier)
        &&& match turns.last() {
            Turn::Join { id } => !is_member(present, id),
            Turn::Leave { id } => is_member(present, id),
        }
    }
}

/// Every sequence of joins and leaves keeps a registry consistent.
pub proof fn lemma_turns_consistent(reg: Registry, room: Seq<char>, turns: Seq<Turn>)
    requires
        consistent(reg),
    ensures
        consistent(after_turns(reg, room, turns)),
    decreases turns.len(),
{
    if turns.len() > 0 {
        let earlier = after_turns(reg, room, turns.drop_last());
        lemma_turns_consistent(reg, room, turns.drop_last());
        match turns.last() {
            Turn::Join { id } => lemma_join_consistent(earlier, room, id),
            Turn::Leave { id } => lemma_leave_consistent(earlier, room, id),
        }
    }
}

/// After any sequence of joins and leaves the head count of the room lies
/// between the count before less the leaves and the count before plus the
/// joins: no join is counted twice, and the count never falls below zero.
pub proof fn lemma_head_count_bounds(reg: Registry, room: Seq<char>, turns: Seq<Turn>)
    requires
        consistent(reg),
    ensures
        head_count(reg, room) - leaves(turns) <= head_count(after_turns(reg, room, turns), room)
            <= head_count(reg, room) + joins(turns),
    decreases turns.len(),
{
    if turns.len() > 0 {
        let earlier = after_turns(reg, room, turns.drop_last());
        lemma_head_count_bounds(reg, room, turns.drop_last());
        lemma_turns_consistent(reg, room, turns.drop_last());
        match turns.last() {
            Turn::Join { id } => lemma_head_count_step(earlier, room, id),
            Turn::Leave { id } => lemma_head_count_step(earlier, room, id),
        }
    }
}

/// After an orderly sequence of joins and leaves the head count of the room
/// is the count before, plus the joins, less the leaves.
pub proof fn lemma_head_count_is_joins_less_leaves(
    reg: Registry,
    room: Seq<char>,
    turns: Seq<Turn>,
)
    requires
        consistent(reg),
        orderly(reg, room, turns),
    ensures
        head_count(after_turns(reg, room, turns), room) == head_count(reg, room) + joins(turns)
            - leaves(turns),
    decreases turns.len(),
{
    if turns.len() > 0 {
        let earlier = after_turns(reg, room, turns.drop_last());
        lemma_head_count_is_joins_less_leaves(reg, room, turns.drop_last());
        lemma_turns_consistent(reg, room, turns.drop_last());
        match turns.last() {
            Turn::Join { id } => lemma_head_count_step(earlier, room, id),
            Turn::Leave { id } => lemma_head_count_step(earlier, room, id),
        }
    }
}

/// The beginning of an orderly sequence of turns is orderly.
pub proof fn lemma_orderly_prefix(reg: Registry, room: Seq<char>, turns: Seq<Turn>, k: int)
    requires
        orderly(reg, room, turns),
        0 <= k <= turns.len(),
    ensures
        orderly(reg, room, turns.take(k)),
    decreases turns.len(),
{
    if k == turns.len() {
        assert(turns.take(k) =~= turns);
    } else {
        assert(turns.take(k) =~= turns.drop_last().take(k));
        lemma_orderly_prefix(reg, room, turns.drop_last(), k);
    }
}

/// At every point of an orderly sequence of joins and leaves the head count
/// of the room is the count before, plus the joins so far, less the leaves
/// so far.
pub proof fn lemma_head_count_at_every_point(reg: Registry, room: Seq<char>, turns: Seq<Turn>)
    requires
        consistent(reg),
        orderly(reg, room, turns),
    ensures
        forall|k: int|
            0 <= k <= turns.len() ==> head_count(
                after_turns(reg, room, #[trigger] turns.take(k)),
                room,
            ) == head_count(reg, room) + joins(turns.take(k)) - leaves(turns.take(k)),
{
    assert forall|k: int| 0 <= k <= turns.len() implies head_count(
        after_turns(reg, room, #[trigger] turns.take(k)),
        room,
    ) == head_count(reg, room) + joins(turns.take(k)) - leaves(turns.take(k)) by {
        lemma_orderly_prefix(reg, room, turns, k);
        lemma_head_count_is_joins_less_leaves(reg, room, turns.take(k));
    }
}

/// When the only participant of a room leaves, the room leaves the
/// registry, and whoever joins it next finds nobody there: the room then
/// holds the newcomer alone.
pub proof fn lemma_rejoin_starts_afresh(
    reg: Registry,
    room: Seq<char>,
    last: Seq<char>,
    next: Seq<char>,
)
    requires
        consistent(reg),
        head_count(reg, room) == 1,
        is_member(members_of(reg, room), last),
    ensures
        !after_leave(reg, room, last).dom().contains(room),
        members_of(after_leave(reg, room, last), room) == Seq::<UserInfoView>::empty(),
        members_of(after_join(after_leave(reg, room, last), room, next), room) == seq![
            newcomer(next),
        ],
{
    lemma_dismiss(members_of(reg, room), last);
    let gone = after_leave(reg, room, last);
    let nobody = Seq::<UserInfoView>::empty();
    lemma_first_index(member_ids(nobody), next);
    assert(enroll(nobody, newcomer(next)) =~= seq![newcomer(next)]);
}

} // verus!
