//! Room roles, permissions and the membership lifecycle: joining, invitations,
//! governance actions, leaving and the WebSocket membership gate.
use vstd::prelude::*;
use crate::http::Status;
use crate::interop::{id_digits, uuid_simple_string, uuid_text, uuid_string, Timestamp};
use crate::rooms::{room_admits, authorize_room, no_control, Room};
use crate::text::{any_control, copy_str, str_eq, to_chars, trim, trim_str};

verus! {

broadcast use vstd::string::group_string_axioms;

pub const MAX_NICKNAME_CHARS: usize = 48;

/// Permissions of the `member` role.
pub open spec fn member_permissions() -> Seq<Seq<char>> {
    seq!["message.send"@, "message.edit_own"@, "message.recall_own"@]
}

/// Permissions of the `admin` role.
pub open spec fn admin_permissions() -> Seq<Seq<char>> {
    seq![
        "message.send"@,
        "message.edit_own"@,
        "message.recall_own"@,
        "message.pin"@,
        "room.settings"@,
        "members.review"@,
        "members.invite"@,
        "members.remove"@,
    ]
}

/// Permissions of the `owner` role.
pub open spec fn owner_permissions() -> Seq<Seq<char>> {
    seq![
        "message.send"@,
        "message.edit_own"@,
        "message.recall_own"@,
        "message.pin"@,
        "room.settings"@,
        "room.delete"@,
        "members.review"@,
        "members.invite"@,
        "members.remove"@,
        "members.roles"@,
    ]
}

/// The permissions a built-in role grants; other role names grant none.
pub open spec fn role_permission_list(role: Seq<char>) -> Option<Seq<Seq<char>>> {
    if role == "owner"@ {
        Some(owner_permissions())
    } else if role == "admin"@ {
        Some(admin_permissions())
    } else if role == "member"@ {
        Some(member_permissions())
    } else {
        None
    }
}

/// Whether a built-in role grants a permission.
pub open spec fn role_grants(role: Seq<char>, permission: Seq<char>) -> bool {
    match role_permission_list(role) {
        Some(list) => list.contains(permission),
        None => false,
    }
}

/// The permission keys of a built-in role (`owner`, `admin` or `member`), in the
/// order in which they are stored for a new room.
pub fn role_permissions(role: &str) -> (r: Option<Vec<&'static str>>)
    ensures
        match r {
            Some(v) => role_permission_list(role@) == Some(v@.map_values(|s: &'static str| s@)),
            None => role_permission_list(role@) is None,
        },
{
    if str_eq(role, "owner") {
        let v = vec![
            "message.send",
            "message.edit_own",
            "message.recall_own",
            "message.pin",
            "room.settings",
            "room.delete",
            "members.review",
            "members.invite",
            "members.remove",
            "members.roles",
        ];
        assert(v@.map_values(|s: &'static str| s@) =~= owner_permissions());
        Some(v)
    } else if str_eq(role, "admin") {
        let v = vec![
            "message.send",
            "message.edit_own",
            "message.recall_own",
            "message.pin",
            "room.settings",
            "members.review",
            "members.invite",
            "members.remove",
        ];
        assert(v@.map_values(|s: &'static str| s@) =~= admin_permissions());
        Some(v)
    } else if str_eq(role, "member") {
        let v = vec!["message.send", "message.edit_own", "message.recall_own"];
        assert(v@.map_values(|s: &'static str| s@) =~= member_permissions());
        Some(v)
    } else {
        None
    }
}

proof fn lemma_texts_differ(a: Seq<char>, b: Seq<char>, k: int)
    requires
        a.len() != b.len() || (0 <= k < a.len() && 0 <= k < b.len() && a[k] != b[k]),
    ensures
        a != b,
{
}

proof fn lemma_role_names_differ()
    ensures
        "owner"@ != "admin"@,
        "owner"@ != "member"@,
        "admin"@ != "member"@,
{
    reveal_strlit("owner");
    reveal_strlit("admin");
    reveal_strlit("member");
    lemma_texts_differ("owner"@, "admin"@, 0);
    lemma_texts_differ("owner"@, "member"@, 0);
    lemma_texts_differ("admin"@, "member"@, 0);
}

/// Every permission of a member is also an admin's, and every permission of an
/// admin is also the owner's; deleting the room and changing roles are the owner's
/// alone.
pub proof fn law_roles_are_nested(permission: Seq<char>)
    ensures
        role_grants("member"@, permission) ==> role_grants("admin"@, permission),
        role_grants("admin"@, permission) ==> role_grants("owner"@, permission),
        role_grants("owner"@, "room.delete"@),
        role_grants("owner"@, "members.roles"@),
        !role_grants("admin"@, "room.delete"@),
        !role_grants("admin"@, "members.roles"@),
        !role_grants("member"@, "room.delete"@),
        !role_grants("member"@, "members.roles"@),
{
    lemma_role_names_differ();
    let m = member_permissions();
    let a = admin_permissions();
    let o = owner_permissions();
    assert(role_permission_list("member"@) == Some(m));
    assert(role_permission_list("admin"@) == Some(a));
    assert(role_permission_list("owner"@) == Some(o));
    if m.contains(permission) {
        let i = choose|i: int| 0 <= i < m.len() && m[i] == permission;
        assert(a[i] == permission);
    }
    if a.contains(permission) {
        let i = choose|i: int| 0 <= i < a.len() && a[i] == permission;
        if i < 5 {
            assert(o[i] == permission);
        } else {
            assert(o[i + 1] == permission);
        }
    }
    assert(o[5] == "room.delete"@);
    assert(o[9] == "members.roles"@);
    reveal_strlit("message.send");
    reveal_strlit("message.edit_own");
    reveal_strlit("message.recall_own");
    reveal_strlit("message.pin");
    reveal_strlit("room.settings");
    reveal_strlit("room.delete");
    reveal_strlit("members.review");
    reveal_strlit("members.invite");
    reveal_strlit("members.remove");
    reveal_strlit("members.roles");
    let d = "room.delete"@;
    let r = "members.roles"@;
    lemma_texts_differ(a[0], d, 0);
    lemma_texts_differ(a[1], d, 0);
    lemma_texts_differ(a[2], d, 0);
    lemma_texts_differ(a[3], d, 0);
    lemma_texts_differ(a[4], d, 5);
    lemma_texts_differ(a[5], d, 0);
    lemma_texts_differ(a[6], d, 0);
    lemma_texts_differ(a[7], d, 0);
    lemma_texts_differ(a[0], r, 5);
    lemma_texts_differ(a[1], r, 5);
    lemma_texts_differ(a[2], r, 5);
    lemma_texts_differ(a[3], r, 5);
    lemma_texts_differ(a[4], r, 0);
    lemma_texts_differ(a[5], r, 8);
    lemma_texts_differ(a[6], r, 8);
    lemma_texts_differ(a[7], r, 9);
    assert(!a.contains(d));
    assert(!a.contains(r));
    assert(!m.contains(d));
    assert(!m.contains(r));
}

/// One built-in role to store for a new room.
pub struct RoleSeed {
    /// `<room id without hyphens>:<role name>`.
    pub role_id: String,
    pub name: &'static str,
    pub permissions: Vec<&'static str>,
}

pub open spec fn role_id_text(room_id: u128, name: Seq<char>) -> Seq<char> {
    id_digits(room_id) + seq![':'] + name
}

/// The role name that `role_seeds` puts at each position.
pub open spec fn seed_role_name(i: int) -> Seq<char> {
    if i == 0 {
        "owner"@
    } else if i == 1 {
        "admin"@
    } else {
        "member"@
    }
}

fn role_seed(room_id: u128, name: &'static str) -> (s: RoleSeed)
    requires
        role_permission_list(name@) is Some,
    ensures
        s.name == name,
        s.role_id@ == role_id_text(room_id, name@),
        Some(s.permissions@.map_values(|p: &'static str| p@)) == role_permission_list(name@),
{
    let mut role_id = uuid_simple_string(room_id);
    role_id.append(":");
    role_id.append(name);
    proof {
        reveal_strlit(":");
        assert(role_id@ =~= role_id_text(room_id, name@));
    }
    let permissions = match role_permissions(name) {
        Some(p) => p,
        None => Vec::new(),
    };
    RoleSeed { role_id, name, permissions }
}

/// The three built-in roles a new room starts with (owner, admin, member), each
/// with its role id and permissions; the creator joins with the first.
pub fn role_seeds(room_id: u128) -> (r: Vec<RoleSeed>)
    ensures
        r.len() == 3,
        forall|i: int|
            0 <= i < 3 ==> {
                &&& (#[trigger] r@[i]).name@ == seed_role_name(i)
                &&& r@[i].role_id@ == role_id_text(room_id, seed_role_name(i))
                &&& Some(r@[i].permissions@.map_values(|p: &'static str| p@)) == role_permission_list(
                    seed_role_name(i),
                )
            },
{
    proof {
        reveal_strlit("owner");
        reveal_strlit("admin");
        reveal_strlit("member");
    }
    let owner = role_seed(room_id, "owner");
    let admin = role_seed(room_id, "admin");
    let member = role_seed(room_id, "member");
    vec![owner, admin, member]
}

/// Whether a role may be given with `set_role`: only `admin` and `member`.
pub fn assignable_role(role: &str) -> (b: bool)
    ensures
        b == (role@ == "admin"@ || role@ == "member"@),
{
    str_eq(role, "admin") || str_eq(role, "member")
}

/// Whether a membership may be deleted: the owner's only when that is allowed.
pub fn membership_removable(role: &str, allow_owner: bool) -> (b: bool)
    ensures
        b == (role@ != "owner"@ || allow_owner),
{
    !str_eq(role, "owner") || allow_owner
}

/// The governance actions of `update_member`.
pub open spec fn member_action_permission_text(action: Seq<char>) -> Option<Seq<char>> {
    if action == "approve"@ || action == "reject"@ {
        Some("members.review"@)
    } else if action == "remove"@ || action == "ban"@ || action == "unban"@ {
        Some("members.remove"@)
    } else if action == "set_role"@ {
        Some("members.roles"@)
    } else {
        None
    }
}

/// The permission a governance action requires; an unknown action answers 400.
pub fn member_action_permission(action: &str) -> (r: Result<&'static str, Status>)
    ensures
        match r {
            Ok(p) => member_action_permission_text(action@) == Some(p@),
            Err(e) => member_action_permission_text(action@) is None && e == Status::BadRequest,
        },
{
    if str_eq(action, "approve") || str_eq(action, "reject") {
        Ok("members.review")
    } else if str_eq(action, "remove") || str_eq(action, "ban") || str_eq(action, "unban") {
        Ok("members.remove")
    } else if str_eq(action, "set_role") {
        Ok("members.roles")
    } else {
        Err(Status::BadRequest)
    }
}

pub open spec fn governance_event_text(action: Seq<char>) -> Option<Seq<char>> {
    if action == "approve"@ {
        Some("room.member.approve_requested"@)
    } else if action == "reject"@ {
        Some("room.member.reject_requested"@)
    } else if action == "remove"@ {
        Some("room.member.remove_requested"@)
    } else if action == "set_role"@ {
        Some("room.member.role_change_requested"@)
    } else if action == "ban"@ {
        Some("room.member.ban_requested"@)
    } else if action == "unban"@ {
        Some("room.member.unban_requested"@)
    } else {
        None
    }
}

/// The audit event type recorded for a governance action; unknown actions answer 400.
pub fn event_type(action: &str) -> (r: Result<&'static str, Status>)
    ensures
        match r {
            Ok(t) => governance_event_text(action@) == Some(t@),
            Err(e) => governance_event_text(action@) is None && e == Status::BadRequest,
        },
{
    if str_eq(action, "approve") {
        Ok("room.member.approve_requested")
    } else if str_eq(action, "reject") {
        Ok("room.member.reject_requested")
    } else if str_eq(action, "remove") {
        Ok("room.member.remove_requested")
    } else if str_eq(action, "set_role") {
        Ok("room.member.role_change_requested")
    } else if str_eq(action, "ban") {
        Ok("room.member.ban_requested")
    } else if str_eq(action, "unban") {
        Ok("room.member.unban_requested")
    } else {
        Err(Status::BadRequest)
    }
}

pub open spec fn member_update_conflicts(
    previous_role: Seq<char>,
    action: Seq<char>,
    actor_id: u128,
    target_id: u128,
) -> bool {
    previous_role == "owner"@ || ((action == "remove"@ || action == "ban"@) && actor_id == target_id)
}

/// A governance action on the owner, or an actor removing or banning themselves,
/// answers 409.
pub fn member_update_conflict(previous_role: &str, action: &str, actor_id: u128, target_id: u128) -> (b:
    bool)
    ensures
        b == member_update_conflicts(previous_role@, action@, actor_id, target_id),
{
    str_eq(previous_role, "owner") || ((str_eq(action, "remove") || str_eq(action, "ban"))
        && actor_id == target_id)
}

/// How governance actions conflict: banning and removing behave alike; an actor
/// who removes or bans themselves always conflicts, whatever their role; the
/// owner can never be the target; and any other action, or an action on
/// someone else, conflicts exactly when the target is the owner.
pub proof fn law_self_removal_and_owner_conflict(previous_role: Seq<char>, action: Seq<char>, actor_id: u128, target_id: u128)
    ensures
        member_update_conflicts(previous_role, "ban"@, actor_id, target_id) == member_update_conflicts(
            previous_role,
            "remove"@,
            actor_id,
            target_id,
        ),
        member_update_conflicts(previous_role, "ban"@, actor_id, actor_id),
        member_update_conflicts(previous_role, "remove"@, actor_id, actor_id),
        member_update_conflicts("owner"@, action, actor_id, target_id),
        (actor_id != target_id || (action != "remove"@ && action != "ban"@)) ==> (member_update_conflicts(
            previous_role,
            action,
            actor_id,
            target_id,
        ) <==> previous_role == "owner"@),
{
}

/// The store change a governance action performs.
pub enum MemberMutation {
    /// Activate a pending or invited membership.
    Activate,
    /// Give an active non-owner member another role.
    SetRole(String),
    /// Delete the membership (never the owner's).
    Remove,
    /// Ban the member from the room.
    Ban,
    /// Lift a ban.
    Unban,
}

/// Which mutation an action asks for: 0 activate, 1 set a role, 2 remove,
/// 3 ban, 4 unban, -1 none.
pub open spec fn mutation_kind(action: Seq<char>) -> int {
    if action == "approve"@ {
        0
    } else if action == "set_role"@ {
        1
    } else if action == "reject"@ || action == "remove"@ {
        2
    } else if action == "ban"@ {
        3
    } else if action == "unban"@ {
        4
    } else {
        -1
    }
}

/// A member's standing in a room, as governance actions answer with it.
pub struct RoomMembership {
    pub user_id: u128,
    pub username: String,
    pub avatar_emoji: String,
    pub role: String,
    pub status: String,
    pub requested_at: Timestamp,
    pub joined_at: Option<Timestamp>,
}

/// A request to join a room, with the room password when it has one.
pub struct JoinRoomRequest {
    pub password: Option<String>,
}

/// A request to invite an account into a room.
pub struct InviteMemberRequest {
    pub username: String,
}

/// A governance action on a member: `approve`, `set_role` (with a role),
/// `reject`, `remove`, `ban` or `unban`.
pub struct UpdateMembershipRequest {
    pub action: String,
    pub role: Option<String>,
}

/// The mutation for a governance action; `set_role` without a role and unknown
/// actions answer 400.
pub fn mutate(request: &UpdateMembershipRequest) -> (r: Result<MemberMutation, Status>)
    ensures
        mutation_kind(request.action@) == 0 ==> r matches Ok(MemberMutation::Activate),
        mutation_kind(request.action@) == 1 ==> match request.role {
            Some(x) => r matches Ok(MemberMutation::SetRole(s)) && s@ == x@,
            None => r == Err::<MemberMutation, Status>(Status::BadRequest),
        },
        mutation_kind(request.action@) == 2 ==> r matches Ok(MemberMutation::Remove),
        mutation_kind(request.action@) == 3 ==> r matches Ok(MemberMutation::Ban),
        mutation_kind(request.action@) == 4 ==> r matches Ok(MemberMutation::Unban),
        mutation_kind(request.action@) == -1 ==> r == Err::<MemberMutation, Status>(Status::BadRequest),
{
    let action = request.action.as_str();
    let role = match &request.role {
        Some(r) => Some(r.as_str()),
        None => None,
    };
    if str_eq(action, "approve") {
        Ok(MemberMutation::Activate)
    } else if str_eq(action, "set_role") {
        match role {
            Some(role) => Ok(MemberMutation::SetRole(copy_str(role))),
            None => Err(Status::BadRequest),
        }
    } else if str_eq(action, "reject") || str_eq(action, "remove") {
        Ok(MemberMutation::Remove)
    } else if str_eq(action, "ban") {
        Ok(MemberMutation::Ban)
    } else if str_eq(action, "unban") {
        Ok(MemberMutation::Unban)
    } else {
        Err(Status::BadRequest)
    }
}

/// The broadcast and disconnect reason after a member was removed or banned.
pub struct RemovalNotice {
    pub content: String,
    pub reason: &'static str,
}

pub open spec fn removal_text(username: Seq<char>, banned: bool) -> Seq<char> {
    username + " was "@ + (if banned {
        "banned"@
    } else {
        "removed"@
    }) + " from the room"@
}

/// The room notice for a removal (`remove`) or a ban (`ban`); other actions send none.
pub fn disconnect_removed(username: &str, action: &str) -> (r: Option<RemovalNotice>)
    ensures
        (action@ == "remove"@ || action@ == "ban"@) <==> r is Some,
        r matches Some(n) ==> {
            &&& n.content@ == removal_text(username@, action@ == "ban"@)
            &&& n.reason@ == (if action@ == "ban"@ {
                "membership banned"@
            } else {
                "membership removed"@
            })
        },
{
    let banned = str_eq(action, "ban");
    if !banned && !str_eq(action, "remove") {
        return None;
    }
    let mut content = copy_str(username);
    content.append(" was ");
    content.append(if banned { "banned" } else { "removed" });
    content.append(" from the room");
    Some(RemovalNotice { content, reason: if banned { "membership banned" } else { "membership removed" } })
}

/// Joining is refused to banned accounts (403) and to a private room without its
/// password (401). On success, whether the membership activates at once: only in
/// rooms with the `open` join policy.
pub fn request_join(room: &Room, banned: bool, request: &JoinRoomRequest) -> (r: Result<bool, Status>)
    ensures
        banned ==> r == Err::<bool, Status>(Status::Forbidden),
        !banned && !room_admits(
            room.has_password,
            room.password_hash@,
            match request.password {
                Some(p) => Some(p@),
                None => None,
            },
        ) ==> r == Err::<bool, Status>(Status::Unauthorized),
        r matches Ok(auto) ==> auto == (room.join_policy@ == "open"@),
        r is Ok <==> !banned && room_admits(
            room.has_password,
            room.password_hash@,
            match request.password {
                Some(p) => Some(p@),
                None => None,
            },
        ),
{
    if banned {
        return Err(Status::Forbidden);
    }
    let password = match &request.password {
        Some(p) => Some(p.as_str()),
        None => None,
    };
    if !authorize_room(room, password) {
        return Err(Status::Unauthorized);
    }
    Ok(str_eq(room.join_policy.as_str(), "open"))
}

/// How a join request is answered once the membership is stored.
pub struct JoinResponse {
    /// Announce the join to the room: the membership just became active.
    pub announce: bool,
    /// 200 for an active membership, 202 for one awaiting approval.
    pub status: Status,
}

pub fn join_response(previous_status: Option<&str>, status: &str) -> (r: JoinResponse)
    ensures
        r.announce == (status@ == "active"@ && match previous_status {
            Some(p) => p@ != "active"@,
            None => true,
        }),
        r.status == if status@ == "active"@ {
            Status::Success
        } else {
            Status::Accepted
        },
{
    let active = str_eq(status, "active");
    let was_active = match previous_status {
        Some(p) => str_eq(p, "active"),
        None => false,
    };
    JoinResponse {
        announce: active && !was_active,
        status: if active {
            Status::Success
        } else {
            Status::Accepted
        },
    }
}

/// A requester's membership row as it stood before the request.
pub struct PriorMembership {
    pub status: String,
    pub role: String,
    pub joined_at: Option<Timestamp>,
}

/// Why a membership request is refused.
#[derive(Clone, Copy, Debug, PartialEq, Eq, Structural)]
pub enum MembershipRequestError {
    /// The requester is banned from the room; nothing is written.
    Banned,
}

/// The membership row a request leaves behind.
pub struct MembershipOutcome {
    pub status: &'static str,
    pub role: String,
    pub became_owner: bool,
    pub requested_at: Timestamp,
    pub joined_at: Option<Timestamp>,
}

/// A prior status that stays active on a new request.
pub open spec fn keeps_active(status: Seq<char>) -> bool {
    status == "active"@ || status == "invited"@
}

/// Whether a request leaves the membership active: it is auto-activated, the
/// requester takes over a room with no active member, or an active or invited
/// member asks again.
pub open spec fn request_activates(prior: Option<PriorMembership>, auto_activate: bool, has_active_member: bool) -> bool {
    auto_activate || !has_active_member || match prior {
        Some(p) => keeps_active(p.status@),
        None => false,
    }
}

/// Records a membership request. A banned requester is refused. Otherwise the
/// first account in a room with no active member becomes its owner; the row is
/// active when `request_activates`, else pending; a repeated request keeps the
/// old role unless ownership passes, and keeps the old join time (a new active
/// membership joins now); the request time is always `now`.
pub fn request_room_membership(
    banned: bool,
    prior: &Option<PriorMembership>,
    auto_activate: bool,
    has_active_member: bool,
    now: Timestamp,
) -> (r: Result<MembershipOutcome, MembershipRequestError>)
    ensures
        banned <==> r == Err::<MembershipOutcome, MembershipRequestError>(MembershipRequestError::Banned),
        r matches Ok(o) ==> {
            let active = request_activates(*prior, auto_activate, has_active_member);
            &&& o.became_owner == !has_active_member
            &&& o.status@ == (if active {
                "active"@
            } else {
                "pending"@
            })
            &&& o.role@ == (if !has_active_member {
                "owner"@
            } else {
                match *prior {
                    Some(p) => p.role@,
                    None => "member"@,
                }
            })
            &&& o.requested_at == now
            &&& o.joined_at == match *prior {
                Some(p) => if active && p.joined_at is None {
                    Some(now)
                } else {
                    p.joined_at
                },
                None => if active {
                    Some(now)
                } else {
                    None::<Timestamp>
                },
            }
        },
{
    if banned {
        return Err(MembershipRequestError::Banned);
    }
    let became_owner = !has_active_member;
    let kept = match prior {
        Some(p) => str_eq(p.status.as_str(), "active") || str_eq(p.status.as_str(), "invited"),
        None => false,
    };
    let active = auto_activate || became_owner || kept;
    let role = if became_owner {
        copy_str("owner")
    } else {
        match prior {
            Some(p) => p.role.clone(),
            None => copy_str("member"),
        }
    };
    let joined_at = match prior {
        Some(p) => if active && p.joined_at.is_none() {
            Some(now)
        } else {
            p.joined_at
        },
        None => if active {
            Some(now)
        } else {
            None
        },
    };
    Ok(MembershipOutcome {
        status: if active {
            "active"
        } else {
            "pending"
        },
        role,
        became_owner,
        requested_at: now,
        joined_at,
    })
}

/// A trimmed invitee name; an empty one answers 400.
pub fn invite_member(request: &InviteMemberRequest) -> (r: Result<String, Status>)
    ensures
        r is Ok <==> trim(request.username@).len() > 0,
        r matches Ok(name) ==> name@ == trim(request.username@),
        r matches Err(e) ==> e == Status::BadRequest,
{
    let name = trim_str(request.username.as_str());
    if name.as_str().unicode_len() == 0 {
        Err(Status::BadRequest)
    } else {
        Ok(name)
    }
}

/// A trimmed room nickname of at most 48 characters with no control character;
/// anything else answers 400.
pub fn update_own_nickname(nickname: &str) -> (r: Result<String, Status>)
    ensures
        r is Ok <==> (trim(nickname@).len() <= MAX_NICKNAME_CHARS && no_control(trim(nickname@))),
        r matches Ok(name) ==> name@ == trim(nickname@),
        r matches Err(e) ==> e == Status::BadRequest,
{
    let name = trim_str(nickname);
    let v = to_chars(name.as_str());
    if v.len() > MAX_NICKNAME_CHARS || any_control(&v) {
        Err(Status::BadRequest)
    } else {
        Ok(name)
    }
}

pub open spec fn display_name_text(nickname: Option<Seq<char>>, display_name: Seq<char>, username: Seq<char>) -> Seq<char> {
    match nickname {
        Some(n) => if n.len() > 0 {
            n
        } else if display_name.len() > 0 {
            display_name
        } else {
            username
        },
        None => if display_name.len() > 0 {
            display_name
        } else {
            username
        },
    }
}

/// The sender name frozen into a message: the room nickname, else the account's
/// display name, else its username.
pub fn resolve_display_name(nickname: Option<&str>, display_name: &str, username: &str) -> (r: String)
    ensures
        r@ == display_name_text(
            match nickname {
                Some(n) => Some(n@),
                None => None,
            },
            display_name@,
            username@,
        ),
{
    match nickname {
        Some(n) => {
            if n.unicode_len() > 0 {
                return copy_str(n);
            }
        },
        None => {},
    }
    if display_name.unicode_len() > 0 {
        copy_str(display_name)
    } else {
        copy_str(username)
    }
}

/// Leaving answers 204; only a remaining owner membership that could not be
/// removed answers 409.
pub fn leave_room(removed: bool, remaining_role: Option<&str>) -> (r: Status)
    ensures
        r == if !removed && match remaining_role {
            Some(role) => role@ == "owner"@,
            None => false,
        } {
            Status::Conflict
        } else {
            Status::NoContent
        },
{
    if !removed {
        match remaining_role {
            Some(role) => {
                if str_eq(role, "owner") {
                    return Status::Conflict;
                }
            },
            None => {},
        }
    }
    Status::NoContent
}

/// What a WebSocket connection may do after authenticating.
pub enum SocketAdmission {
    /// Already an active member.
    Member,
    /// Not yet active in an open room: activate the membership, then announce the join.
    AutoJoin,
    /// Refused with this reason.
    Refused(&'static str),
}

/// Active members connect; others join open rooms automatically; a pending
/// request is refused as "membership pending" and anything else as
/// "membership required".
pub fn socket_admission(membership_status: Option<&str>, join_policy: &str) -> (r: SocketAdmission)
    ensures
        membership_status matches Some(s) && s@ == "active"@ ==> r matches SocketAdmission::Member,
        !(membership_status matches Some(s) && s@ == "active"@) && join_policy@ == "open"@
            ==> r matches SocketAdmission::AutoJoin,
        !(membership_status matches Some(s) && s@ == "active"@) && join_policy@ != "open"@ ==> (
        r matches SocketAdmission::Refused(reason) && reason@ == if membership_status matches Some(
            s,
        ) && s@ == "pending"@ {
            "membership pending"@
        } else {
            "membership required"@
        }),
{
    let status_is = |expected: &str| -> (b: bool)
        ensures
            b == (membership_status matches Some(s) && s@ == expected@),
        {
            match membership_status {
                Some(s) => str_eq(s, expected),
                None => false,
            }
        };
    if status_is("active") {
        SocketAdmission::Member
    } else if str_eq(join_policy, "open") {
        SocketAdmission::AutoJoin
    } else if status_is("pending") {
        SocketAdmission::Refused("membership pending")
    } else {
        SocketAdmission::Refused("membership required")
    }
}

} // verus!
