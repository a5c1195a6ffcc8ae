use chat_core::auth::{hash_password, verify_password};
use chat_core::models::{is_elevated, Mess, Room, User};

fn b(s: &str) -> Vec<u8> {
    s.as_bytes().to_vec()
}

const ABC_DIGEST: &str = "ba7816bf8f01cfea414140de5dae2223b00361a396177a9cb410ff61f20015ad";

#[test]
fn password_hash_is_the_hex_digest() {
    assert_eq!(hash_password(b"abc"), b(ABC_DIGEST));
}

#[test]
fn password_verification_accepts_exactly_the_right_password() {
    let stored = hash_password(b"abc");
    assert!(verify_password(&stored, b"abc"));
    assert!(!verify_password(&stored, b"abd"));
    assert!(!verify_password(&stored, b""));
    assert!(!verify_password(b"abc", b"abc"));
}

#[test]
fn new_user_carries_name_hash_and_default_permission() {
    let u = User::from_details(b("carol"), hash_password(b"s3cret"));
    assert_eq!(u.name, b("carol"));
    assert_eq!(u.password, hash_password(b"s3cret"));
    assert_eq!(u.permission_id, 1);
    assert_eq!(u.uuid.len(), 36);
}

#[test]
fn room_record_starts_with_zero_id() {
    let r = Room::from_details(b("lobby"));
    assert_eq!(r.rname, b("lobby"));
    assert_eq!(r.id, 0);
}

#[test]
fn message_record_carries_sender_content_and_room() {
    let m = Mess::from_details(b("some-uuid"), b("hello"), 7);
    assert_eq!(m.sender_id, b("some-uuid"));
    assert_eq!(m.content, b("hello"));
    assert_eq!(m.room_id, 7);
    assert_eq!(m.uuid.len(), 36);
}

#[test]
fn only_permission_one_is_elevated() {
    assert!(is_elevated(1));
    assert!(!is_elevated(0));
    assert!(!is_elevated(2));
    assert!(!is_elevated(-1));
}
