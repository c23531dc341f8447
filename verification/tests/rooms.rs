use chat_room::http::Status;
use chat_room::interop::Timestamp;
use chat_room::membership::{
    MembershipRequestError, PriorMembership,
    assignable_role, disconnect_removed, event_type, invite_member, join_response, leave_room,
    member_action_permission, member_update_conflict, membership_removable, mutate,
    request_join, request_room_membership, resolve_display_name, role_permissions, role_seeds,
    socket_admission, update_own_nickname, InviteMemberRequest, JoinRoomRequest, MemberMutation,
    SocketAdmission, UpdateMembershipRequest,
};
use chat_room::room_listing::{
    decorate_rooms_for_user, discoverable_rooms, history_access, room_detail, rooms_by_membership,
    without_direct_rooms, ConversationSummary, MembershipIdentity, UnreadEntry,
};
use chat_room::rooms::{
    authorize_room, create_room, delete_room, hash_password, update_room, update_room_has_changes,
    valid_join_policy, valid_room_avatar, valid_room_description, valid_room_name,
    CreateRoomRequest, Room, UpdateRoomRequest,
};

const AT: Timestamp = Timestamp { secs: 1_787_652_000, nanos: 0 };
const SECRET_HASH: &str = "2bb80d537b1da3e38bd30361aa855686bde0eacd7162fef6a25fe97bf527a25b";

fn room(id: u128, password: Option<&str>) -> Room {
    Room {
        id,
        name: "Lab".into(),
        password_hash: password.map(hash_password).unwrap_or_default(),
        has_password: password.is_some(),
        creator_user_id: Some(1),
        join_policy: "open".into(),
        avatar_emoji: String::new(),
        description: String::new(),
        membership_status: Some("active".into()),
        membership_role: Some("owner".into()),
        unread_count: 0,
        created_at: AT,
    }
}

#[test]
fn passwords_are_stored_as_sha256_hex() {
    assert_eq!(hash_password("secret"), SECRET_HASH);
    assert_eq!(
        hash_password("pässwörd"),
        "46970bef70aced8123f0d5d094717e2a5cd412041e03b26376049fe65b2834a4"
    );
}

#[test]
fn a_room_opens_with_its_own_password_only() {
    let private = room(1, Some("secret"));
    assert!(authorize_room(&private, Some("secret")));
    assert!(!authorize_room(&private, Some("Secret")));
    assert!(!authorize_room(&private, None));
    let public = room(2, None);
    assert!(authorize_room(&public, None));
    assert!(authorize_room(&public, Some("anything")));
}

#[test]
fn room_fields_are_validated() {
    assert!(valid_room_name("Lab"));
    assert!(!valid_room_name(""));
    assert!(valid_room_name(&"n".repeat(80)));
    assert!(!valid_room_name(&"n".repeat(81)));
    assert!(valid_room_avatar("🦀"));
    assert!(!valid_room_avatar(&"a".repeat(9)));
    assert!(!valid_room_avatar("a\u{7}"));
    assert!(valid_room_description(&"d".repeat(300)));
    assert!(!valid_room_description(&"d".repeat(301)));
    assert!(!valid_room_description("line\nbreak"));
    assert!(valid_join_policy("open"));
    assert!(valid_join_policy("approval"));
    assert!(!valid_join_policy("invite"));
}

fn create(name: &str, password: Option<&str>, policy: Option<&str>) -> CreateRoomRequest {
    CreateRoomRequest {
        name: name.into(),
        password: password.map(str::to_owned),
        join_policy: policy.map(str::to_owned),
        avatar_emoji: Some(" * ".into()),
        description: None,
    }
}

#[test]
fn created_rooms_are_owned_by_their_creator() {
    let r = create_room(&create("  Lab  ", Some("secret"), None), 9, 1, AT).ok().unwrap();
    assert_eq!(r.id, 9);
    assert_eq!(r.name, "Lab");
    assert_eq!(r.password_hash, SECRET_HASH);
    assert!(r.has_password);
    assert_eq!(r.join_policy, "open");
    assert_eq!(r.avatar_emoji, "*");
    assert_eq!(r.membership_status.as_deref(), Some("active"));
    assert_eq!(r.membership_role.as_deref(), Some("owner"));
    let open = create_room(&create("Open", Some(""), Some("approval")), 9, 1, AT).ok().unwrap();
    assert!(!open.has_password);
    assert_eq!(open.password_hash, "");
    assert_eq!(open.join_policy, "approval");
    assert_eq!(create_room(&create("  ", None, None), 9, 1, AT).err(), Some(Status::BadRequest));
    assert_eq!(create_room(&create("x", None, Some("closed")), 9, 1, AT).err(), Some(Status::BadRequest));
    let too_long = "p".repeat(257);
    assert_eq!(create_room(&create("x", Some(&too_long), None), 9, 1, AT).err(), Some(Status::BadRequest));
}

fn update(name: Option<&str>, current: Option<&str>, new_password: Option<&str>) -> UpdateRoomRequest {
    UpdateRoomRequest {
        name: name.map(str::to_owned),
        current_password: current.map(str::to_owned),
        new_password: new_password.map(str::to_owned),
        join_policy: None,
        avatar_emoji: None,
        description: None,
    }
}

#[test]
fn private_room_updates_need_the_current_password() {
    let previous = room(1, Some("secret"));
    assert_eq!(update_room(&previous, &update(Some("New"), None, None), None).err(), Some(Status::Unauthorized));
    assert_eq!(
        update_room(&previous, &update(Some("New"), Some("wrong"), None), None).err(),
        Some(Status::Unauthorized)
    );
    let plan = update_room(&previous, &update(Some(" New "), Some("secret"), None), Some("owner".into()))
        .ok()
        .unwrap();
    assert_eq!(plan.room.name, "New");
    assert!(!plan.password_changed);
    assert_eq!(plan.rename_notice.as_deref(), Some("room renamed to New"));
    let plan = update_room(&previous, &update(None, Some("secret"), Some("")), None).ok().unwrap();
    assert!(plan.password_changed);
    assert!(!plan.room.has_password);
    assert_eq!(plan.rename_notice, None);
    assert_eq!(update_room(&previous, &update(Some(""), Some("secret"), None), None).err(), Some(Status::BadRequest));
    assert!(update_room_has_changes(&update(Some("x"), None, None)));
    assert!(!update_room_has_changes(&update(None, Some("secret"), None)));
    assert_eq!(update_room(&previous, &update(None, None, None), None).err(), Some(Status::BadRequest));
    assert_eq!(update_room(&room(2, None), &update(None, None, None), None).err(), Some(Status::BadRequest));
}

#[test]
fn private_rooms_are_deleted_with_their_password() {
    assert_eq!(delete_room(&room(1, Some("secret")), Some("secret")), Ok(()));
    assert_eq!(delete_room(&room(1, Some("secret")), None), Err(Status::Unauthorized));
    assert_eq!(delete_room(&room(1, None), None), Ok(()));
}

#[test]
fn roles_and_their_permissions() {
    let owner = role_permissions("owner").unwrap();
    let admin = role_permissions("admin").unwrap();
    let member = role_permissions("member").unwrap();
    assert_eq!(owner.len(), 10);
    assert!(member.iter().all(|p| admin.contains(p)));
    assert!(admin.iter().all(|p| owner.contains(p)));
    assert!(member.contains(&"message.send"));
    assert!(role_permissions("guest").is_none());
    let seeds = role_seeds(0x0123_4567_89ab_cdef_0123_4567_89ab_cdef);
    assert_eq!(seeds.len(), 3);
    assert_eq!(seeds[0].name, "owner");
    assert_eq!(seeds[1].role_id, "0123456789abcdef0123456789abcdef:admin");
    assert_eq!(seeds[2].permissions, member);
    assert!(assignable_role("admin") && assignable_role("member") && !assignable_role("owner"));
    assert!(!membership_removable("owner", false));
    assert!(membership_removable("owner", true));
    assert!(membership_removable("member", false));
}

#[test]
fn governance_actions() {
    assert_eq!(member_action_permission("approve"), Ok("members.review"));
    assert_eq!(member_action_permission("ban"), Ok("members.remove"));
    assert_eq!(member_action_permission("set_role"), Ok("members.roles"));
    assert_eq!(member_action_permission("promote"), Err(Status::BadRequest));
    assert_eq!(event_type("unban"), Ok("room.member.unban_requested"));
    assert_eq!(event_type("set_role"), Ok("room.member.role_change_requested"));
    assert_eq!(event_type("kick"), Err(Status::BadRequest));
    assert!(member_update_conflict("owner", "approve", 1, 2));
    assert!(member_update_conflict("member", "remove", 3, 3));
    assert!(!member_update_conflict("member", "approve", 3, 3));
    let req = |action: &str, role: Option<&str>| UpdateMembershipRequest {
        action: action.into(),
        role: role.map(str::to_owned),
    };
    assert!(matches!(mutate(&req("approve", None)), Ok(MemberMutation::Activate)));
    assert!(matches!(mutate(&req("set_role", Some("admin"))), Ok(MemberMutation::SetRole(r)) if r == "admin"));
    assert!(matches!(mutate(&req("set_role", None)), Err(Status::BadRequest)));
    assert!(matches!(mutate(&req("reject", None)), Ok(MemberMutation::Remove)));
    assert!(matches!(mutate(&req("ban", None)), Ok(MemberMutation::Ban)));
    assert!(matches!(mutate(&req("unban", None)), Ok(MemberMutation::Unban)));
    assert!(matches!(mutate(&req("kick", None)), Err(Status::BadRequest)));
    let notice = disconnect_removed("ada", "ban").unwrap();
    assert_eq!(notice.content, "ada was banned from the room");
    assert_eq!(notice.reason, "membership banned");
    assert_eq!(disconnect_removed("ada", "remove").unwrap().content, "ada was removed from the room");
    assert!(disconnect_removed("ada", "approve").is_none());
}

#[test]
fn joining_rooms() {
    let private = room(1, Some("secret"));
    let with = |p: Option<&str>| JoinRoomRequest { password: p.map(str::to_owned) };
    assert_eq!(request_join(&private, true, &with(Some("secret"))), Err(Status::Forbidden));
    assert_eq!(request_join(&private, false, &with(None)), Err(Status::Unauthorized));
    assert_eq!(request_join(&private, false, &with(Some("secret"))), Ok(true));
    let mut approval = room(2, None);
    approval.join_policy = "approval".into();
    assert_eq!(request_join(&approval, false, &with(None)), Ok(false));
    let r = join_response(None, "active");
    assert!(r.announce);
    assert_eq!(r.status, Status::Success);
    let r = join_response(Some("active"), "active");
    assert!(!r.announce);
    assert_eq!(join_response(None, "pending").status, Status::Accepted);
    let at = Timestamp { secs: 1, nanos: 0 };
    let b = request_room_membership(false, &None, false, false, at).ok().unwrap();
    assert!(b.became_owner);
    assert_eq!((b.status, b.role.as_str()), ("active", "owner"));
    let b = request_room_membership(false, &None, false, true, at).ok().unwrap();
    assert_eq!((b.status, b.role.as_str(), b.became_owner), ("pending", "member", false));
    let b = request_room_membership(false, &None, true, true, at).ok().unwrap();
    assert_eq!((b.status, b.role.as_str()), ("active", "member"));
}

#[test]
fn member_names() {
    assert_eq!(invite_member(&InviteMemberRequest { username: "  ada ".into() }), Ok("ada".to_string()));
    assert_eq!(invite_member(&InviteMemberRequest { username: " ".into() }), Err(Status::BadRequest));
    assert_eq!(update_own_nickname(" Ada "), Ok("Ada".to_string()));
    assert_eq!(update_own_nickname(""), Ok(String::new()));
    assert_eq!(update_own_nickname(&"n".repeat(49)), Err(Status::BadRequest));
    assert_eq!(update_own_nickname("a\u{0}b"), Err(Status::BadRequest));
    assert_eq!(resolve_display_name(Some("Nick"), "Display", "user"), "Nick");
    assert_eq!(resolve_display_name(Some(""), "Display", "user"), "Display");
    assert_eq!(resolve_display_name(None, "", "user"), "user");
    assert_eq!(leave_room(true, None), Status::NoContent);
    assert_eq!(leave_room(false, Some("owner")), Status::Conflict);
    assert_eq!(leave_room(false, Some("member")), Status::NoContent);
}

#[test]
fn socket_admission_follows_membership_and_policy() {
    assert!(matches!(socket_admission(Some("active"), "approval"), SocketAdmission::Member));
    assert!(matches!(socket_admission(None, "open"), SocketAdmission::AutoJoin));
    assert!(matches!(socket_admission(Some("pending"), "approval"), SocketAdmission::Refused("membership pending")));
    assert!(matches!(socket_admission(None, "approval"), SocketAdmission::Refused("membership required")));
}

#[test]
fn rooms_are_decorated_for_their_viewer() {
    let rooms = vec![room(1, None), room(2, Some("secret")), room(3, None)];
    let identities = vec![
        MembershipIdentity { room_id: 1, status: "pending".into(), role: "member".into() },
        MembershipIdentity { room_id: 1, status: "active".into(), role: "admin".into() },
    ];
    let unread = vec![UnreadEntry { room_id: 1, unread_count: 4 }];
    let decorated = decorate_rooms_for_user(rooms, &identities, &unread);
    assert_eq!(decorated[0].membership_status.as_deref(), Some("active"));
    assert_eq!(decorated[0].membership_role.as_deref(), Some("admin"));
    assert_eq!(decorated[0].unread_count, 4);
    assert_eq!(decorated[1].membership_status, None);
    assert_eq!(decorated[1].membership_role, None);
    assert_eq!(decorated[1].unread_count, 0);
    let joined = rooms_by_membership(decorated, true);
    assert_eq!(joined.len(), 1);
    assert_eq!(joined[0].id, 1);
}

#[test]
fn room_lists_leave_out_direct_and_private_rooms() {
    let rooms = vec![room(1, None), room(2, Some("secret")), room(3, None)];
    let listed = without_direct_rooms(rooms, &vec![3]);
    assert_eq!(listed.iter().map(|r| r.id).collect::<Vec<_>>(), vec![1, 2]);
    let rooms = vec![room(1, None), room(2, Some("secret")), room(3, None)];
    let public = discoverable_rooms(rooms, &vec![3]);
    assert_eq!(public.iter().map(|r| r.id).collect::<Vec<_>>(), vec![1]);
    let not_joined = rooms_by_membership(vec![room(4, None)], false);
    assert!(not_joined.is_empty());
}

#[test]
fn direct_conversations_are_shown_only_to_members() {
    let conversation = || ConversationSummary {
        title: "Grace".into(),
        avatar_emoji: "G".into(),
        description: "direct".into(),
    };
    let shown = room_detail(room(1, None), Some(("active".into(), "member".into())), true, Some(conversation()))
        .ok()
        .unwrap();
    assert_eq!(shown.name, "Grace");
    assert_eq!(shown.membership_role.as_deref(), Some("member"));
    assert_eq!(room_detail(room(1, None), None, true, Some(conversation())).err(), Some(Status::NotFound));
    assert_eq!(
        room_detail(room(1, None), Some(("active".into(), "member".into())), true, None).err(),
        Some(Status::NotFound)
    );
    let plain = room_detail(room(2, None), None, false, None).ok().unwrap();
    assert_eq!(plain.name, "Lab");
    assert_eq!(plain.membership_status, None);
}

#[test]
fn history_needs_posting_rights_and_the_password() {
    let private = room(1, Some("secret"));
    assert_eq!(history_access(&private, false, Some("secret")), Err(Status::Forbidden));
    assert_eq!(history_access(&private, true, None), Err(Status::Unauthorized));
    assert_eq!(history_access(&private, true, Some("secret")), Ok(()));
    assert_eq!(history_access(&room(2, None), true, None), Ok(()));
}

#[test]
fn repeated_membership_requests_keep_standing_and_bans_refuse() {
    let at = Timestamp { secs: 50, nanos: 0 };
    let earlier = Timestamp { secs: 10, nanos: 0 };
    let prior = |status: &str, joined: Option<Timestamp>| Some(PriorMembership {
        status: status.into(),
        role: "admin".into(),
        joined_at: joined,
    });
    assert_eq!(request_room_membership(true, &None, true, true, at).err(), Some(MembershipRequestError::Banned));
    let first = request_room_membership(false, &None, false, false, at).ok().unwrap();
    assert_eq!((first.status, first.role.as_str(), first.became_owner, first.joined_at), ("active", "owner", true, Some(at)));
    let pending = request_room_membership(false, &None, false, true, at).ok().unwrap();
    assert_eq!((pending.status, pending.role.as_str(), pending.joined_at), ("pending", "member", None));
    let again = request_room_membership(false, &prior("active", Some(earlier)), false, true, at).ok().unwrap();
    assert_eq!((again.status, again.role.as_str(), again.joined_at), ("active", "admin", Some(earlier)));
    let invited = request_room_membership(false, &prior("invited", None), false, true, at).ok().unwrap();
    assert_eq!((invited.status, invited.joined_at), ("active", Some(at)));
    let still = request_room_membership(false, &prior("pending", None), false, true, at).ok().unwrap();
    assert_eq!((still.status, still.joined_at, still.requested_at), ("pending", None, at));
}
