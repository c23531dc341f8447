//! What a viewer sees of rooms: their membership and unread counts, the rooms
//! they belong to, the rooms they may discover, and a single room's details.
use vstd::prelude::*;
use crate::http::Status;
use crate::rooms::{authorize_room, room_admits, Room};
use crate::text::str_eq;

verus! {

broadcast use vstd::string::group_string_axioms;

/// Query parameters of the room lists.
pub struct ListQuery {
    pub name: Option<String>,
}

/// A viewer's membership in one room: status and role name.
pub struct MembershipIdentity {
    pub room_id: u128,
    pub status: String,
    pub role: String,
}

/// The viewer's unread count in one room.
pub struct UnreadEntry {
    pub room_id: u128,
    pub unread_count: i64,
}

/// Index of the last identity of room `id`, or -1.
pub open spec fn last_identity(rows: Seq<MembershipIdentity>, id: u128) -> int
    decreases rows.len(),
{
    if rows.len() == 0 {
        -1
    } else if rows.last().room_id == id {
        rows.len() - 1
    } else {
        last_identity(rows.drop_last(), id)
    }
}

/// Index of the last unread entry of room `id`, or -1.
pub open spec fn last_unread(rows: Seq<UnreadEntry>, id: u128) -> int
    decreases rows.len(),
{
    if rows.len() == 0 {
        -1
    } else if rows.last().room_id == id {
        rows.len() - 1
    } else {
        last_unread(rows.drop_last(), id)
    }
}

/// A room as one viewer sees it: the viewer's own status and role (none when the
/// viewer has no membership, whatever the room carried before) and unread count
/// (0 when none is known).
pub open spec fn decorated(before: Room, after: Room, identities: Seq<MembershipIdentity>, unread: Seq<UnreadEntry>) -> bool {
    let k = last_identity(identities, before.id);
    let u = last_unread(unread, before.id);
    &&& after.id == before.id
    &&& after.name == before.name
    &&& after.password_hash == before.password_hash
    &&& after.has_password == before.has_password
    &&& after.creator_user_id == before.creator_user_id
    &&& after.join_policy == before.join_policy
    &&& after.avatar_emoji == before.avatar_emoji
    &&& after.description == before.description
    &&& after.created_at == before.created_at
    &&& if k >= 0 {
        &&& after.membership_status matches Some(s) && s@ == identities[k].status@
        &&& after.membership_role matches Some(r) && r@ == identities[k].role@
    } else {
        after.membership_status is None && after.membership_role is None
    }
    &&& after.unread_count == if u >= 0 {
        unread[u].unread_count
    } else {
        0
    }
}

fn find_identity(rows: &Vec<MembershipIdentity>, id: u128) -> (r: Option<usize>)
    ensures
        match r {
            Some(k) => k == last_identity(rows@, id) && k < rows@.len(),
            None => last_identity(rows@, id) < 0,
        },
{
    let mut k: usize = rows.len();
    assert(rows@.subrange(0, k as int) =~= rows@);
    while k > 0 && rows[k - 1].room_id != id
        invariant
            k <= rows.len(),
            last_identity(rows@, id) == last_identity(rows@.subrange(0, k as int), id),
        decreases k,
    {
        assert(rows@.subrange(0, k as int).drop_last() =~= rows@.subrange(0, k - 1));
        k -= 1;
    }
    if k == 0 {
        assert(rows@.subrange(0, 0).len() == 0);
        None
    } else {
        assert(rows@.subrange(0, k as int).last().room_id == id);
        Some(k - 1)
    }
}

fn find_unread(rows: &Vec<UnreadEntry>, id: u128) -> (r: Option<usize>)
    ensures
        match r {
            Some(k) => k == last_unread(rows@, id) && k < rows@.len(),
            None => last_unread(rows@, id) < 0,
        },
{
    let mut k: usize = rows.len();
    assert(rows@.subrange(0, k as int) =~= rows@);
    while k > 0 && rows[k - 1].room_id != id
        invariant
            k <= rows.len(),
            last_unread(rows@, id) == last_unread(rows@.subrange(0, k as int), id),
        decreases k,
    {
        assert(rows@.subrange(0, k as int).drop_last() =~= rows@.subrange(0, k - 1));
        k -= 1;
    }
    if k == 0 {
        assert(rows@.subrange(0, 0).len() == 0);
        None
    } else {
        assert(rows@.subrange(0, k as int).last().room_id == id);
        Some(k - 1)
    }
}

/// Gives each room the viewer's membership and unread count. Membership fields
/// are always overwritten, so a room that still carries its creator's
/// membership never shows it to anyone else.
pub fn decorate_rooms_for_user(rooms: Vec<Room>, identities: &Vec<MembershipIdentity>, unread: &Vec<UnreadEntry>) -> (r: Vec<Room>)
    ensures
        r@.len() == rooms@.len(),
        forall|i: int| 0 <= i < r@.len() ==> decorated(rooms@[i], #[trigger] r@[i], identities@, unread@),
{
    let ghost all = rooms@;
    let n = rooms.len();
    let mut rest = rooms;
    let mut out: Vec<Room> = Vec::new();
    let mut i: usize = 0;
    while i < n
        invariant
            n == all.len(),
            i <= n,
            rest@ == all.subrange(i as int, n as int),
            out@.len() == i,
            forall|k: int| 0 <= k < i ==> decorated(all[k], #[trigger] out@[k], identities@, unread@),
        decreases n - i,
    {
        let room = rest.remove(0);
        assert(room == all[i as int]);
        let (status, role) = match find_identity(identities, room.id) {
            Some(k) => (Some(identities[k].status.clone()), Some(identities[k].role.clone())),
            None => (None, None),
        };
        let unread_count = match find_unread(unread, room.id) {
            Some(k) => unread[k].unread_count,
            None => 0,
        };
        out.push(
            Room {
                id: room.id,
                name: room.name,
                password_hash: room.password_hash,
                has_password: room.has_password,
                creator_user_id: room.creator_user_id,
                join_policy: room.join_policy,
                avatar_emoji: room.avatar_emoji,
                description: room.description,
                membership_status: status,
                membership_role: role,
                unread_count,
                created_at: room.created_at,
            },
        );
        i += 1;
        assert(rest@ =~= all.subrange(i as int, n as int));
    }
    out
}

/// Whether the viewer is an active member of a (decorated) room.
pub open spec fn active_member(room: Room) -> bool {
    room.membership_status matches Some(s) && s@ == "active"@
}

fn is_active(room: &Room) -> (b: bool)
    ensures
        b == active_member(*room),
{
    match &room.membership_status {
        Some(s) => str_eq(s.as_str(), "active"),
        None => false,
    }
}

fn contains_room(ids: &Vec<u128>, id: u128) -> (b: bool)
    ensures
        b == ids@.contains(id),
{
    let mut i: usize = 0;
    while i < ids.len()
        invariant
            i <= ids.len(),
            forall|k: int| 0 <= k < i ==> ids@[k] != id,
        decreases ids.len() - i,
    {
        if ids[i] == id {
            assert(ids@[i as int] == id);
            return true;
        }
        i += 1;
    }
    false
}

/// The rooms that satisfy `keep`, in order.
pub open spec fn kept_rooms(rooms: Seq<Room>, keep: spec_fn(Room) -> bool) -> Seq<Room>
    decreases rooms.len(),
{
    if rooms.len() == 0 {
        Seq::empty()
    } else {
        let init = kept_rooms(rooms.drop_last(), keep);
        if keep(rooms.last()) {
            init.push(rooms.last())
        } else {
            init
        }
    }
}

/// Rooms other than direct conversations.
pub open spec fn not_direct(direct_ids: Seq<u128>) -> spec_fn(Room) -> bool {
    |r: Room| !direct_ids.contains(r.id)
}

/// Public rooms other than direct conversations.
pub open spec fn discoverable(direct_ids: Seq<u128>) -> spec_fn(Room) -> bool {
    |r: Room| !direct_ids.contains(r.id) && !r.has_password
}

/// Rooms the viewer is an active member of.
pub open spec fn joined() -> spec_fn(Room) -> bool {
    |r: Room| active_member(r)
}

/// Rooms the viewer is not an active member of.
pub open spec fn not_joined() -> spec_fn(Room) -> bool {
    |r: Room| !active_member(r)
}

/// The rooms that are not direct conversations.
pub fn without_direct_rooms(rooms: Vec<Room>, direct_ids: &Vec<u128>) -> (r: Vec<Room>)
    ensures
        r@ == kept_rooms(rooms@, not_direct(direct_ids@)),
{
    let ghost all = rooms@;
    let ghost keep = not_direct(direct_ids@);
    let n = rooms.len();
    let mut rest = rooms;
    let mut out: Vec<Room> = Vec::new();
    let mut i: usize = 0;
    while i < n
        invariant
            n == all.len(),
            i <= n,
            keep == not_direct(direct_ids@),
            rest@ == all.subrange(i as int, n as int),
            out@ == kept_rooms(all.subrange(0, i as int), keep),
        decreases n - i,
    {
        assert(all.subrange(0, i + 1).drop_last() =~= all.subrange(0, i as int));
        let room = rest.remove(0);
        assert(room == all[i as int]);
        if !contains_room(direct_ids, room.id) {
            out.push(room);
        }
        i += 1;
        assert(rest@ =~= all.subrange(i as int, n as int));
    }
    assert(all.subrange(0, n as int) =~= all);
    out
}

/// The public rooms that are not direct conversations.
pub fn discoverable_rooms(rooms: Vec<Room>, direct_ids: &Vec<u128>) -> (r: Vec<Room>)
    ensures
        r@ == kept_rooms(rooms@, discoverable(direct_ids@)),
{
    let ghost all = rooms@;
    let ghost keep = discoverable(direct_ids@);
    let n = rooms.len();
    let mut rest = rooms;
    let mut out: Vec<Room> = Vec::new();
    let mut i: usize = 0;
    while i < n
        invariant
            n == all.len(),
            i <= n,
            keep == discoverable(direct_ids@),
            rest@ == all.subrange(i as int, n as int),
            out@ == kept_rooms(all.subrange(0, i as int), keep),
        decreases n - i,
    {
        assert(all.subrange(0, i + 1).drop_last() =~= all.subrange(0, i as int));
        let room = rest.remove(0);
        assert(room == all[i as int]);
        if !contains_room(direct_ids, room.id) && !room.has_password {
            out.push(room);
        }
        i += 1;
        assert(rest@ =~= all.subrange(i as int, n as int));
    }
    assert(all.subrange(0, n as int) =~= all);
    out
}

/// The rooms listed for a viewer by membership: the joined rooms when
/// `active`, else every room the viewer is not an active member of.
pub open spec fn membership_listing(rooms: Seq<Room>, active: bool) -> Seq<Room> {
    kept_rooms(rooms, if active {
        joined()
    } else {
        not_joined()
    })
}

proof fn lemma_listing_contains(rooms: Seq<Room>, active: bool, r: Room)
    ensures
        membership_listing(rooms, active).contains(r) <==> rooms.contains(r) && ((r.membership_status matches Some(s)
            && s@ == "active"@) == active),
    decreases rooms.len(),
{
    if rooms.len() > 0 {
        lemma_listing_contains(rooms.drop_last(), active, r);
        let init = membership_listing(rooms.drop_last(), active);
        assert(rooms =~= rooms.drop_last().push(rooms.last()));
        if membership_listing(rooms, active).contains(r) {
            let i = choose|i: int| 0 <= i < membership_listing(rooms, active).len() && membership_listing(rooms, active)[i] == r;
            if i < init.len() {
                assert(init[i] == r);
            }
        }
        if rooms.contains(r) && ((r.membership_status matches Some(s) && s@ == "active"@) == active) {
            let j = choose|j: int| 0 <= j < rooms.len() && rooms[j] == r;
            if j < rooms.len() - 1 {
                assert(rooms.drop_last()[j] == r);
                assert(init.contains(r));
                let k = choose|k: int| 0 <= k < init.len() && init[k] == r;
                assert(membership_listing(rooms, active)[k] == r);
            } else {
                assert(membership_listing(rooms, active).last() == r);
            }
        }
    }
}

/// Listing by membership, room by room: nothing is listed from no rooms, and
/// one more room is listed (after the others, in order) exactly when its
/// membership status is `active` for the joined list, or anything but `active`
/// (none, pending, invited, ...) for the discover list. So a room appears in
/// the list exactly when it is one of the rooms and its status agrees.
pub proof fn law_listing_by_membership(rooms: Seq<Room>, x: Room, active: bool)
    ensures
        membership_listing(Seq::empty(), active) == Seq::<Room>::empty(),
        membership_listing(rooms.push(x), active) == if (x.membership_status matches Some(s) && s@ == "active"@)
            == active {
            membership_listing(rooms, active).push(x)
        } else {
            membership_listing(rooms, active)
        },
        forall|r: Room|
            #[trigger] membership_listing(rooms, active).contains(r) <==> rooms.contains(r) && ((r.membership_status matches Some(
                s,
            ) && s@ == "active"@) == active),
{
    assert(rooms.push(x).drop_last() =~= rooms);
    assert forall|r: Room|
        #[trigger] membership_listing(rooms, active).contains(r) <==> rooms.contains(r) && ((r.membership_status matches Some(
            s,
        ) && s@ == "active"@) == active) by {
        lemma_listing_contains(rooms, active, r);
    }
}

/// The (decorated) rooms whose membership is active when `active` holds, or not
/// active when it does not.
pub fn rooms_by_membership(rooms: Vec<Room>, active: bool) -> (r: Vec<Room>)
    ensures
        r@ == kept_rooms(rooms@, if active {
            joined()
        } else {
            not_joined()
        }),
        r@ == membership_listing(rooms@, active),
{
    let ghost all = rooms@;
    let ghost keep = if active {
        joined()
    } else {
        not_joined()
    };
    let n = rooms.len();
    let mut rest = rooms;
    let mut out: Vec<Room> = Vec::new();
    let mut i: usize = 0;
    while i < n
        invariant
            n == all.len(),
            i <= n,
            keep == (if active {
                joined()
            } else {
                not_joined()
            }),
            rest@ == all.subrange(i as int, n as int),
            out@ == kept_rooms(all.subrange(0, i as int), keep),
        decreases n - i,
    {
        assert(all.subrange(0, i + 1).drop_last() =~= all.subrange(0, i as int));
        let room = rest.remove(0);
        assert(room == all[i as int]);
        if is_active(&room) == active {
            out.push(room);
        }
        i += 1;
        assert(rest@ =~= all.subrange(i as int, n as int));
    }
    assert(all.subrange(0, n as int) =~= all);
    out
}

/// The title, avatar and description a direct conversation shows its member.
pub struct ConversationSummary {
    pub title: String,
    pub avatar_emoji: String,
    pub description: String,
}

/// The details of one room for a viewer. A direct conversation is visible only
/// to its active members (anyone else is told it does not exist) and shows the
/// conversation's own title, avatar and description.
pub fn room_detail(
    room: Room,
    membership: Option<(String, String)>,
    direct: bool,
    conversation: Option<ConversationSummary>,
) -> (r: Result<Room, Status>)
    ensures
        direct && !(membership matches Some(m) && m.0@ == "active"@) ==> r == Err::<Room, Status>(
            Status::NotFound,
        ),
        direct && (membership matches Some(m) && m.0@ == "active"@) && conversation is None ==> r
            == Err::<Room, Status>(Status::NotFound),
        r is Ok <==> !direct || ((membership matches Some(m) && m.0@ == "active"@)
            && conversation is Some),
        r matches Ok(v) ==> {
            &&& v.id == room.id
            &&& v.password_hash == room.password_hash
            &&& v.has_password == room.has_password
            &&& v.creator_user_id == room.creator_user_id
            &&& v.join_policy == room.join_policy
            &&& v.unread_count == room.unread_count
            &&& v.created_at == room.created_at
            &&& match membership {
                Some(m) => (v.membership_status matches Some(s) && s@ == m.0@) && (
                v.membership_role matches Some(x) && x@ == m.1@),
                None => v.membership_status is None && v.membership_role is None,
            }
            &&& if direct {
                let c = conversation->0;
                v.name@ == c.title@ && v.avatar_emoji@ == c.avatar_emoji@ && v.description@
                    == c.description@
            } else {
                v.name@ == room.name@ && v.avatar_emoji@ == room.avatar_emoji@ && v.description@
                    == room.description@
            }
        },
{
    let (status, role) = match membership {
        Some((s, x)) => (Some(s), Some(x)),
        None => (None, None),
    };
    let active = match &status {
        Some(s) => str_eq(s.as_str(), "active"),
        None => false,
    };
    let (name, avatar_emoji, description) = if direct {
        if !active {
            return Err(Status::NotFound);
        }
        match conversation {
            Some(c) => (c.title, c.avatar_emoji, c.description),
            None => {
                return Err(Status::NotFound);
            },
        }
    } else {
        (room.name, room.avatar_emoji, room.description)
    };
    Ok(
        Room {
            id: room.id,
            name,
            password_hash: room.password_hash,
            has_password: room.has_password,
            creator_user_id: room.creator_user_id,
            join_policy: room.join_policy,
            avatar_emoji,
            description,
            membership_status: status,
            membership_role: role,
            unread_count: room.unread_count,
            created_at: room.created_at,
        },
    )
}

/// Query parameters of a room's message history.
pub struct MessageHistoryQuery {
    pub before: Option<u128>,
    pub limit: Option<i64>,
}

/// Who may read a room's history: a member who may post there, and for a
/// private room only with the room's password.
pub fn history_access(room: &Room, may_post: bool, supplied: Option<&str>) -> (r: Result<(), Status>)
    ensures
        !may_post ==> r == Err::<(), Status>(Status::Forbidden),
        may_post ==> (r is Ok <==> room_admits(
            room.has_password,
            room.password_hash@,
            match supplied {
                Some(p) => Some(p@),
                None => None,
            },
        )),
        may_post && r is Err ==> r == Err::<(), Status>(Status::Unauthorized),
{
    if !may_post {
        return Err(Status::Forbidden);
    }
    if authorize_room(room, supplied) {
        Ok(())
    } else {
        Err(Status::Unauthorized)
    }
}

} // verus!
