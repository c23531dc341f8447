//! Room settings: validation, password protection, creation and update plans,
//! and the permissions that each built-in room role grants.
use vstd::prelude::*;
use crate::http::Status;
use crate::interop::{Timestamp, hex_encode, hex_lower, sha256, sha256_digest, uuid_string, uuid_text};
use crate::text::{any_control, copy_str, is_control, push_char, str_eq, to_chars, trim, trim_str};

verus! {

broadcast use vstd::string::group_string_axioms;

pub const MAX_ROOM_NAME_CHARS: usize = 80;

pub const MAX_PASSWORD_CHARS: usize = 256;

pub const MAX_ROOM_AVATAR_CHARS: usize = 8;

pub const MAX_ROOM_DESCRIPTION_CHARS: usize = 300;

/// A chat room as the API presents it to one viewer.
pub struct Room {
    pub id: u128,
    pub name: String,
    /// Lower-case hex SHA-256 of the room password; empty for a public room.
    pub password_hash: String,
    pub has_password: bool,
    pub creator_user_id: Option<u128>,
    pub join_policy: String,
    pub avatar_emoji: String,
    pub description: String,
    pub membership_status: Option<String>,
    pub membership_role: Option<String>,
    pub unread_count: i64,
    pub created_at: Timestamp,
}

/// Payload for creating a room.
pub struct CreateRoomRequest {
    pub name: String,
    pub password: Option<String>,
    pub join_policy: Option<String>,
    pub avatar_emoji: Option<String>,
    pub description: Option<String>,
}

/// Payload for changing a room; missing fields stay as they are.
pub struct UpdateRoomRequest {
    pub name: Option<String>,
    pub current_password: Option<String>,
    pub new_password: Option<String>,
    pub join_policy: Option<String>,
    pub avatar_emoji: Option<String>,
    pub description: Option<String>,
}

pub open spec fn opt_view(o: Option<String>) -> Option<Seq<char>> {
    match o {
        Some(s) => Some(s@),
        None => None,
    }
}

pub open spec fn no_control(s: Seq<char>) -> bool {
    forall|i: int| 0 <= i < s.len() ==> !is_control(#[trigger] s[i])
}

pub open spec fn room_name_ok(s: Seq<char>) -> bool {
    0 < s.len() <= MAX_ROOM_NAME_CHARS
}

pub open spec fn room_avatar_ok(s: Seq<char>) -> bool {
    s.len() <= MAX_ROOM_AVATAR_CHARS && no_control(s)
}

pub open spec fn room_description_ok(s: Seq<char>) -> bool {
    s.len() <= MAX_ROOM_DESCRIPTION_CHARS && no_control(s)
}

pub open spec fn join_policy_ok(p: Seq<char>) -> bool {
    p == "open"@ || p == "approval"@
}

pub open spec fn password_too_long(p: Option<String>) -> bool {
    match p {
        Some(p) => p@.len() > MAX_PASSWORD_CHARS,
        None => false,
    }
}

/// The stored form of a room password: lower-case hex of the SHA-256 of its UTF-8 bytes.
pub open spec fn password_digest(p: Seq<char>) -> Seq<char> {
    hex_lower(sha256(vstd::utf8::encode_utf8(p)))
}

/// Whether a supplied password opens a room: public rooms open without one.
pub open spec fn room_admits(has_password: bool, hash: Seq<char>, supplied: Option<Seq<char>>) -> bool {
    !has_password || match supplied {
        Some(p) => password_digest(p) == hash,
        None => false,
    }
}

/// A room name is non-empty and at most 80 characters.
pub fn valid_room_name(name: &str) -> (b: bool)
    ensures
        b == room_name_ok(name@),
{
    let n = name.unicode_len();
    n > 0 && n <= MAX_ROOM_NAME_CHARS
}

/// A room avatar is at most 8 characters with no control character.
pub fn valid_room_avatar(value: &str) -> (b: bool)
    ensures
        b == room_avatar_ok(value@),
{
    let v = to_chars(value);
    v.len() <= MAX_ROOM_AVATAR_CHARS && !any_control(&v)
}

/// A room description is at most 300 characters with no control character.
pub fn valid_room_description(value: &str) -> (b: bool)
    ensures
        b == room_description_ok(value@),
{
    let v = to_chars(value);
    v.len() <= MAX_ROOM_DESCRIPTION_CHARS && !any_control(&v)
}

/// Whether a join policy is one of `open` and `approval`.
pub fn valid_join_policy(policy: &str) -> (b: bool)
    ensures
        b == join_policy_ok(policy@),
{
    str_eq(policy, "open") || str_eq(policy, "approval")
}

/// The stored digest of a room password.
pub fn hash_password(password: &str) -> (r: String)
    ensures
        r@ == password_digest(password@),
{
    let bytes = password.as_bytes();
    let digest = sha256_digest(bytes);
    hex_encode(digest.as_slice())
}

/// Whether `supplied` opens `room`.
pub fn authorize_room(room: &Room, supplied: Option<&str>) -> (b: bool)
    ensures
        b == room_admits(
            room.has_password,
            room.password_hash@,
            match supplied {
                Some(p) => Some(p@),
                None => None,
            },
        ),
{
    if !room.has_password {
        return true;
    }
    match supplied {
        Some(password) => {
            let digest = hash_password(password);
            str_eq(digest.as_str(), room.password_hash.as_str())
        },
        None => false,
    }
}

fn password_exceeds_limit(p: &Option<String>) -> (b: bool)
    ensures
        b == password_too_long(*p),
{
    match p {
        Some(p) => p.as_str().unicode_len() > MAX_PASSWORD_CHARS,
        None => false,
    }
}

fn opt_copy(o: &Option<String>) -> (r: Option<String>)
    ensures
        opt_view(r) == opt_view(*o),
{
    match o {
        Some(s) => Some(s.clone()),
        None => None,
    }
}

pub open spec fn or_empty(o: Option<String>) -> Seq<char> {
    match o {
        Some(s) => s@,
        None => Seq::empty(),
    }
}

pub open spec fn requested_policy(o: Option<String>) -> Seq<char> {
    match o {
        Some(s) => s@,
        None => "open"@,
    }
}

/// Whether a creation request passes every check of `create_room`.
pub open spec fn create_request_ok(req: CreateRoomRequest) -> bool {
    &&& room_name_ok(trim(req.name@))
    &&& !password_too_long(req.password)
    &&& join_policy_ok(requested_policy(req.join_policy))
    &&& room_avatar_ok(trim(or_empty(req.avatar_emoji)))
    &&& room_description_ok(trim(or_empty(req.description)))
}

/// The stored hash for a password field: empty unless a non-empty password is set.
pub open spec fn hash_for(p: Option<String>) -> Seq<char> {
    match p {
        Some(p) => if p@.len() > 0 {
            password_digest(p@)
        } else {
            Seq::empty()
        },
        None => Seq::empty(),
    }
}

pub open spec fn sets_password(p: Option<String>) -> bool {
    match p {
        Some(p) => p@.len() > 0,
        None => false,
    }
}

/// A room created with a password opens with that password and stays shut
/// without one; a room created without a password opens for anyone.
pub proof fn law_created_room_opens_with_its_password(password: Option<String>, supplied: Option<Seq<char>>)
    ensures
        sets_password(password) ==> room_admits(true, hash_for(password), Some(password->0@)),
        sets_password(password) ==> !room_admits(true, hash_for(password), None),
        !sets_password(password) ==> room_admits(false, hash_for(password), supplied),
{
}

fn text_or_default(o: &Option<String>, default: &str) -> (r: String)
    ensures
        r@ == match o {
            Some(s) => s@,
            None => default@,
        },
{
    match o {
        Some(s) => s.clone(),
        None => copy_str(default),
    }
}

fn hash_of_password_field(p: &Option<String>) -> (r: (String, bool))
    ensures
        r.0@ == hash_for(*p),
        r.1 == sets_password(*p),
{
    match p {
        Some(p) => {
            if p.as_str().unicode_len() > 0 {
                (hash_password(p.as_str()), true)
            } else {
                (String::new(), false)
            }
        },
        None => (String::new(), false),
    }
}

/// Validates a creation request and builds the new room, owned and joined by its
/// creator. Every rejected request answers 400.
pub fn create_room(req: &CreateRoomRequest, id: u128, creator_id: u128, created_at: Timestamp) -> (r:
    Result<Room, Status>)
    ensures
        r is Ok <==> create_request_ok(*req),
        r matches Err(e) ==> e == Status::BadRequest,
        r matches Ok(room) ==> {
            &&& room.id == id
            &&& room.name@ == trim(req.name@)
            &&& room.password_hash@ == hash_for(req.password)
            &&& room.has_password == sets_password(req.password)
            &&& room.creator_user_id == Some(creator_id)
            &&& room.join_policy@ == requested_policy(req.join_policy)
            &&& room.avatar_emoji@ == trim(or_empty(req.avatar_emoji))
            &&& room.description@ == trim(or_empty(req.description))
            &&& opt_view(room.membership_status) == Some("active"@)
            &&& opt_view(room.membership_role) == Some("owner"@)
            &&& room.unread_count == 0
            &&& room.created_at == created_at
        },
{
    let name = trim_str(req.name.as_str());
    if !valid_room_name(name.as_str()) {
        return Err(Status::BadRequest);
    }
    if password_exceeds_limit(&req.password) {
        return Err(Status::BadRequest);
    }
    let join_policy = text_or_default(&req.join_policy, "open");
    if !valid_join_policy(join_policy.as_str()) {
        return Err(Status::BadRequest);
    }
    let avatar_raw = text_or_default(&req.avatar_emoji, "");
    let description_raw = text_or_default(&req.description, "");
    let avatar_emoji = trim_str(avatar_raw.as_str());
    let description = trim_str(description_raw.as_str());
    proof {
        assert(""@ =~= Seq::<char>::empty()) by {
            reveal_strlit("");
        }
    }
    if !valid_room_avatar(avatar_emoji.as_str()) || !valid_room_description(description.as_str()) {
        return Err(Status::BadRequest);
    }
    let (password_hash, has_password) = hash_of_password_field(&req.password);
    Ok(
        Room {
            id,
            name,
            password_hash,
            has_password,
            creator_user_id: Some(creator_id),
            join_policy,
            avatar_emoji,
            description,
            membership_status: Some(copy_str("active")),
            membership_role: Some(copy_str("owner")),
            unread_count: 0,
            created_at,
        },
    )
}

/// An update names at least one of the name, new password and join policy.
pub open spec fn update_changes_something(req: UpdateRoomRequest) -> bool {
    req.name is Some || req.new_password is Some || req.join_policy is Some
}

/// Whether an update names at least one of the name, password and join policy;
/// a request that changes none of them is refused before anything else.
pub fn update_room_has_changes(req: &UpdateRoomRequest) -> (b: bool)
    ensures
        b == update_changes_something(*req),
{
    req.name.is_some() || req.new_password.is_some() || req.join_policy.is_some()
}

/// What an accepted room update writes and announces.
pub struct RoomUpdatePlan {
    pub room: Room,
    /// The password changed, so live connections must authenticate again.
    pub password_changed: bool,
    /// The system notice to broadcast when only the name changed.
    pub rename_notice: Option<String>,
}

pub open spec fn trimmed_or(o: Option<String>, previous: Seq<char>) -> Seq<char> {
    match o {
        Some(s) => trim(s@),
        None => previous,
    }
}

pub open spec fn value_or(o: Option<String>, previous: Seq<char>) -> Seq<char> {
    match o {
        Some(s) => s@,
        None => previous,
    }
}

pub open spec fn updated_hash(previous: Room, req: UpdateRoomRequest) -> Seq<char> {
    match req.new_password {
        Some(p) => hash_for(Some(p)),
        None => previous.password_hash@,
    }
}

pub open spec fn updated_has_password(previous: Room, req: UpdateRoomRequest) -> bool {
    match req.new_password {
        Some(p) => p@.len() > 0,
        None => previous.has_password,
    }
}

/// Whether an update request passes every check of `update_room` after the
/// current password was accepted.
pub open spec fn update_request_ok(previous: Room, req: UpdateRoomRequest) -> bool {
    &&& room_name_ok(trimmed_or(req.name, previous.name@))
    &&& !password_too_long(req.new_password)
    &&& join_policy_ok(value_or(req.join_policy, previous.join_policy@))
    &&& room_avatar_ok(trimmed_or(req.avatar_emoji, previous.avatar_emoji@))
    &&& room_description_ok(trimmed_or(req.description, previous.description@))
}

pub open spec fn rename_text(name: Seq<char>) -> Seq<char> {
    "room renamed to "@ + name
}

fn trimmed_or_previous(o: &Option<String>, previous: &String) -> (r: String)
    ensures
        r@ == trimmed_or(*o, previous@),
{
    match o {
        Some(s) => trim_str(s.as_str()),
        None => previous.clone(),
    }
}

/// Plans an update of `previous` by a member allowed to change room settings.
/// A request naming none of the name, new password and join policy answers 400
/// before anything else. A private room requires its current password (401); an invalid name, password,
/// join policy, avatar or description answers 400. The planned room keeps every
/// field the request leaves out, and reports the viewer's `membership_role`.
pub fn update_room(previous: &Room, req: &UpdateRoomRequest, membership_role: Option<String>) -> (r:
    Result<RoomUpdatePlan, Status>)
    ensures
        !update_changes_something(*req) ==> r == Err::<RoomUpdatePlan, Status>(Status::BadRequest),
        update_changes_something(*req) && !room_admits(previous.has_password, previous.password_hash@, opt_view(req.current_password))
            ==> r == Err::<RoomUpdatePlan, Status>(Status::Unauthorized),
        update_changes_something(*req) && room_admits(previous.has_password, previous.password_hash@, opt_view(req.current_password))
            ==> (r is Ok <==> update_request_ok(*previous, *req)),
        update_changes_something(*req) && room_admits(previous.has_password, previous.password_hash@, opt_view(req.current_password))
            && !update_request_ok(*previous, *req) ==> r == Err::<RoomUpdatePlan, Status>(
            Status::BadRequest,
        ),
        r matches Ok(plan) ==> {
            &&& plan.room.id == previous.id
            &&& plan.room.name@ == trimmed_or(req.name, previous.name@)
            &&& plan.room.password_hash@ == updated_hash(*previous, *req)
            &&& plan.room.has_password == updated_has_password(*previous, *req)
            &&& plan.room.creator_user_id == previous.creator_user_id
            &&& plan.room.join_policy@ == value_or(req.join_policy, previous.join_policy@)
            &&& plan.room.avatar_emoji@ == trimmed_or(req.avatar_emoji, previous.avatar_emoji@)
            &&& plan.room.description@ == trimmed_or(req.description, previous.description@)
            &&& opt_view(plan.room.membership_status) == Some("active"@)
            &&& opt_view(plan.room.membership_role) == opt_view(membership_role)
            &&& plan.room.unread_count == previous.unread_count
            &&& plan.room.created_at == previous.created_at
            &&& plan.password_changed == (updated_hash(*previous, *req) != previous.password_hash@)
            &&& opt_view(plan.rename_notice) == if !plan.password_changed && plan.room.name@
                != previous.name@ {
                Some(rename_text(plan.room.name@))
            } else {
                None::<Seq<char>>
            }
        },
{
    if !update_room_has_changes(req) {
        return Err(Status::BadRequest);
    }
    let current = match &req.current_password {
        Some(p) => Some(p.as_str()),
        None => None,
    };
    if !authorize_room(previous, current) {
        return Err(Status::Unauthorized);
    }
    let name = trimmed_or_previous(&req.name, &previous.name);
    if !valid_room_name(name.as_str()) || password_exceeds_limit(&req.new_password) {
        return Err(Status::BadRequest);
    }
    let join_policy = match &req.join_policy {
        Some(p) => p.clone(),
        None => previous.join_policy.clone(),
    };
    if !valid_join_policy(join_policy.as_str()) {
        return Err(Status::BadRequest);
    }
    let avatar_emoji = trimmed_or_previous(&req.avatar_emoji, &previous.avatar_emoji);
    let description = trimmed_or_previous(&req.description, &previous.description);
    if !valid_room_avatar(avatar_emoji.as_str()) || !valid_room_description(description.as_str()) {
        return Err(Status::BadRequest);
    }
    let (password_hash, has_password) = match &req.new_password {
        Some(_) => hash_of_password_field(&req.new_password),
        None => (previous.password_hash.clone(), previous.has_password),
    };
    let password_changed = !str_eq(password_hash.as_str(), previous.password_hash.as_str());
    let renamed = !str_eq(name.as_str(), previous.name.as_str());
    let rename_notice = if !password_changed && renamed {
        let mut notice = copy_str("room renamed to ");
        notice.append(name.as_str());
        Some(notice)
    } else {
        None
    };
    let room = Room {
        id: previous.id,
        name,
        password_hash,
        has_password,
        creator_user_id: previous.creator_user_id,
        join_policy,
        avatar_emoji,
        description,
        membership_status: Some(copy_str("active")),
        membership_role: opt_copy(&membership_role),
        unread_count: previous.unread_count,
        created_at: previous.created_at,
    };
    Ok(RoomUpdatePlan { room, password_changed, rename_notice })
}

/// Deleting a private room requires its password (401 otherwise).
pub fn delete_room(room: &Room, supplied_password: Option<&str>) -> (r: Result<(), Status>)
    ensures
        r is Ok <==> room_admits(
            room.has_password,
            room.password_hash@,
            match supplied_password {
                Some(p) => Some(p@),
                None => None,
            },
        ),
        r matches Err(e) ==> e == Status::Unauthorized,
{
    if authorize_room(room, supplied_password) {
        Ok(())
    } else {
        Err(Status::Unauthorized)
    }
}

} // verus!
