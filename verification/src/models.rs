use vstd::prelude::*;

verus! {

// ---------------------------------------------------------------------------
// The records the storage gateway keeps. The gateway itself lives outside
// the core; these are the values handed to it and read back from it, with
// text as bytes and times as seconds since the epoch.
// ---------------------------------------------------------------------------

/// Relies on uuid::Uuid::new_v4 and its hyphenated display form: a freshly
/// drawn random identifier, 36 bytes long; which one it is, is not promised.
#[verifier::external_body]
fn fresh_uuid() -> (r: Vec<u8>)
    ensures
        r@.len() == 36,
{
    uuid::Uuid::new_v4().to_string().into_bytes()
}

/// Relies on chrono::Local::now: the local wall-clock time as seconds since
/// the epoch. Nothing is promised of the value.
#[verifier::external_body]
fn now_seconds() -> (t: i64) {
    chrono::Local::now().naive_local().and_utc().timestamp()
}

/// Seconds in a day: message records are stamped one day ahead of now.
pub const DAY_SECONDS: i64 = 86400;

/// The permission level that allows removing other users' accounts.
pub open spec fn elevated_permission(permission_id: i32) -> bool {
    permission_id == 1
}

/// Whether this permission level allows removing other users' accounts.
pub fn is_elevated(permission_id: i32) -> (r: bool)
    ensures
        r == elevated_permission(permission_id),
{
    permission_id == 1
}

/// A user account record.
pub struct User {
    pub uuid: Vec<u8>,
    pub name: Vec<u8>,
    pub password: Vec<u8>,
    pub permission_id: i32,
}

impl User {
    /// A new account: a fresh random identifier, the given name and stored
    /// password hash, and the default permission level.
    pub fn from_details(user: Vec<u8>, pass: Vec<u8>) -> (u: User)
        ensures
            u.name@ == user@,
            u.password@ == pass@,
            u.permission_id == 1,
            u.uuid@.len() == 36,
    {
        User { uuid: fresh_uuid(), name: user, password: pass, permission_id: 1 }
    }
}

/// A chat room record as the storage gateway keeps it.
pub struct Room {
    pub id: i32,
    pub rname: Vec<u8>,
}

impl Room {
    /// Builds the record for a room that is not stored yet: the storage
    /// gateway assigns the real id on insertion, so it is left at zero here.
    pub fn from_details(rname: Vec<u8>) -> (r: Room)
        ensures
            r.rname@ == rname@,
            r.id == 0,
    {
        Room { rname, id: 0 }
    }
}

/// A stored chat message record.
pub struct Mess {
    pub uuid: Vec<u8>,
    /// Seconds since the epoch; stamped one day ahead of the local time at
    /// creation.
    pub time: i64,
    pub content: Vec<u8>,
    pub sender_id: Vec<u8>,
    pub room_id: i32,
}

impl Mess {
    /// A new message record: a fresh random identifier, a timestamp a day
    /// ahead of now (saturating at the largest representable time), and the
    /// given sender, content and room.
    pub fn from_details(sender: Vec<u8>, cont: Vec<u8>, room: i32) -> (m: Mess)
        ensures
            m.sender_id@ == sender@,
            m.content@ == cont@,
            m.room_id == room,
            m.uuid@.len() == 36,
    {
        let t = now_seconds();
        let time: i64 = if t <= i64::MAX - DAY_SECONDS {
            t + DAY_SECONDS
        } else {
            i64::MAX
        };
        Mess { uuid: fresh_uuid(), time, content: cont, sender_id: sender, room_id: room }
    }
}

/// What a login form carries.
pub struct LoginInfo {
    pub username: Vec<u8>,
    pub password: Vec<u8>,
}

/// What a registration form carries.
pub struct RigisterInfo {
    pub username: Vec<u8>,
    pub password: Vec<u8>,
}

} // verus!
