use chat_core::hub::Hub;
use chat_core::session::{
    history_replies, Action, FrameEvent, HistoryEntry, Session, SessionState, CLIENT_TIMEOUT,
    HEARTBEAT_INTERVAL,
};

fn b(s: &str) -> Vec<u8> {
    s.as_bytes().to_vec()
}

fn text(s: &str) -> FrameEvent {
    FrameEvent::Text(b(s))
}

fn active_session(id: u64) -> Session {
    let mut s = Session::new(id, 0);
    s.start();
    s
}

/// Feeds a frame to the session and applies the hub actions it asks for.
fn drive(s: &mut Session, hub: &mut Hub, frame: &str, now: u64) -> Vec<Action> {
    let actions = s.handle_frame(text(frame), now);
    let mut rest = Vec::new();
    for a in actions {
        match a {
            Action::HubJoin(room) => hub.join(s.id, room),
            Action::HubDisconnect => hub.disconnect(s.id),
            other => rest.push(other),
        }
    }
    rest
}

#[test]
fn new_session_starts_in_main() {
    let s = Session::new(5, 3);
    assert_eq!(s.state, SessionState::Starting);
    assert_eq!(s.room, b("main"));
    assert!(s.name.is_none());
    assert_eq!(s.last_heartbeat, 3);
    assert_eq!(s.id, 5);
}

#[test]
fn start_registers_and_joins_main() {
    let mut s = Session::new(5, 0);
    let acts = s.start();
    assert_eq!(s.state, SessionState::Active);
    assert_eq!(acts.len(), 3);
    assert!(matches!(&acts[0], Action::EnsureRoom(r) if *r == b("main")));
    assert!(matches!(&acts[1], Action::HubConnect));
    assert!(matches!(&acts[2], Action::HubJoin(r) if *r == b("main")));
}

#[test]
fn join_command_moves_membership_and_replies_joined() {
    let mut hub = Hub::new();
    let mut s = active_session(1);
    hub.connect(1);
    hub.join(1, b("main"));
    let rest = drive(&mut s, &mut hub, "/join lobby", 1);
    assert_eq!(s.room, b("lobby"));
    assert!(matches!(&rest[0], Action::EnsureRoom(r) if *r == b("lobby")));
    assert!(matches!(&rest[1], Action::Reply(t) if *t == b("joined")));
    let deliveries = hub.broadcast(&b("lobby"), &b("hi"));
    assert_eq!(deliveries.len(), 1);
    assert_eq!(deliveries[0].to, 1);
    assert_eq!(hub.broadcast(&b("main"), &b("hi")).len(), 0);
}

#[test]
fn join_without_argument_is_an_error_and_changes_nothing() {
    let mut hub = Hub::new();
    let mut s = active_session(1);
    hub.connect(1);
    hub.join(1, b("main"));
    let rest = drive(&mut s, &mut hub, "/join", 1);
    assert_eq!(s.room, b("main"));
    assert_eq!(rest.len(), 1);
    assert!(matches!(&rest[0], Action::Reply(t) if *t == b("!!! room name is required")));
    assert_eq!(hub.broadcast(&b("main"), &b("hi")).len(), 1);
}

#[test]
fn named_message_is_persisted_then_broadcast_with_prefix() {
    let mut s = active_session(1);
    let none = s.handle_frame(text("/name alice"), 1);
    assert_eq!(none.len(), 0);
    assert_eq!(s.name, Some(b("alice")));

    let acts = s.handle_frame(text("hello"), 2);
    assert_eq!(acts.len(), 1);
    let (room, msg) = match &acts[0] {
        Action::PersistMessage { room, text } => (room.clone(), text.clone()),
        other => panic!("expected PersistMessage, got {:?}", std::mem::discriminant(other)),
    };
    assert_eq!(room, b("main"));
    assert_eq!(msg, b("alice: hello"));

    let after = s.message_persisted(room, msg, true);
    assert_eq!(after.len(), 1);
    assert!(matches!(&after[0],
        Action::HubBroadcast { room, text } if *room == b("main") && *text == b("alice: hello")));
}

#[test]
fn unnamed_message_is_sent_bare() {
    let mut s = active_session(1);
    let acts = s.handle_frame(text("  hello there  "), 1);
    assert!(matches!(&acts[0],
        Action::PersistMessage { room, text } if *room == b("main") && *text == b("hello there")));
}

#[test]
fn failed_persist_reports_and_does_not_broadcast() {
    let mut s = active_session(1);
    let acts = s.message_persisted(b("main"), b("hello"), false);
    assert_eq!(acts.len(), 1);
    assert!(matches!(&acts[0], Action::Reply(t) if *t == b("!!! could not deliver message")));
}

#[test]
fn name_without_argument_is_an_error() {
    let mut s = active_session(1);
    let acts = s.handle_frame(text("/name"), 1);
    assert!(matches!(&acts[0], Action::Reply(t) if *t == b("!!! name is required")));
    assert!(s.name.is_none());
}

#[test]
fn list_and_history_and_rm_commands() {
    let mut s = active_session(1);
    let acts = s.handle_frame(text("/list"), 1);
    assert!(matches!(&acts[0], Action::HubListRooms));
    let acts = s.handle_frame(text("/history"), 2);
    assert!(matches!(&acts[0], Action::FetchHistory(r) if *r == b("main")));
    let acts = s.handle_frame(text("/rm bob"), 3);
    assert!(matches!(&acts[0], Action::QueryPermission { target } if *target == b("bob")));
    let acts = s.handle_frame(text("/rm"), 4);
    assert!(matches!(&acts[0], Action::Reply(t) if *t == b("!!! name is required")));
}

#[test]
fn unknown_command_names_the_input() {
    let mut s = active_session(1);
    let acts = s.handle_frame(text("/frobnicate now"), 1);
    assert!(matches!(&acts[0], Action::Reply(t) if *t == b("!!! unknown command: /frobnicate now")));
}

#[test]
fn empty_frames_are_ignored() {
    let mut s = active_session(1);
    assert_eq!(s.handle_frame(text("   "), 1).len(), 0);
    assert_eq!(s.handle_frame(FrameEvent::Nop, 2).len(), 0);
    assert_eq!(s.state, SessionState::Active);
}

#[test]
fn ping_and_pong_update_liveness() {
    let mut s = active_session(1);
    let acts = s.handle_frame(FrameEvent::Ping, 42);
    assert_eq!(s.last_heartbeat, 42);
    assert!(matches!(&acts[0], Action::SendPong));
    let acts = s.handle_frame(FrameEvent::Pong, 50);
    assert_eq!(s.last_heartbeat, 50);
    assert_eq!(acts.len(), 0);
}

#[test]
fn binary_and_malformed_frames_close_the_connection() {
    for ev in [FrameEvent::Binary, FrameEvent::Malformed, FrameEvent::Close] {
        let mut s = active_session(1);
        let acts = s.handle_frame(ev, 1);
        assert_eq!(s.state, SessionState::Closing);
        assert!(matches!(&acts[0], Action::HubDisconnect));
        assert!(matches!(&acts[1], Action::CloseConnection));
    }
}

#[test]
fn heartbeat_timeout_disconnects_and_removes_membership() {
    let mut hub = Hub::new();
    let mut s = active_session(1);
    hub.connect(1);
    hub.join(1, b("main"));
    // still alive at the threshold
    let acts = s.heartbeat_tick(CLIENT_TIMEOUT);
    assert!(matches!(&acts[0], Action::SendPing));
    assert_eq!(s.state, SessionState::Active);
    // one tick interval later the silence exceeds the threshold
    let acts = s.heartbeat_tick(CLIENT_TIMEOUT + HEARTBEAT_INTERVAL);
    assert_eq!(s.state, SessionState::Closing);
    assert!(matches!(&acts[0], Action::HubDisconnect));
    assert!(matches!(&acts[1], Action::CloseConnection));
    hub.disconnect(s.id);
    assert_eq!(hub.broadcast(&b("main"), &b("hi")).len(), 0);
}

#[test]
fn frames_after_closing_do_nothing() {
    let mut s = active_session(1);
    s.handle_frame(FrameEvent::Close, 1);
    assert_eq!(s.handle_frame(text("/join lobby"), 2).len(), 0);
    assert_eq!(s.room, b("main"));
    assert_eq!(s.heartbeat_tick(100).len(), 0);
    assert_eq!(s.hub_delivery(b("hi")).len(), 0);
}

#[test]
fn hub_delivery_is_written_verbatim() {
    let mut s = active_session(1);
    let acts = s.hub_delivery(b("bob: hello"));
    assert_eq!(acts.len(), 1);
    assert!(matches!(&acts[0], Action::Reply(t) if *t == b("bob: hello")));
}

#[test]
fn rm_requires_the_elevated_permission() {
    let mut s = active_session(1);
    let acts = s.permission_checked(b("bob"), true);
    assert!(matches!(&acts[0], Action::DeleteUser { target } if *target == b("bob")));
    let acts = s.permission_checked(b("bob"), false);
    assert!(matches!(&acts[0], Action::Reply(t) if *t == b("!!! permission denied")));
}

#[test]
fn stopped_terminates_and_tells_the_hub_once_more() {
    let mut s = active_session(1);
    let acts = s.stopped();
    assert_eq!(s.state, SessionState::Terminated);
    assert_eq!(acts.len(), 1);
    assert!(matches!(&acts[0], Action::HubDisconnect));
}

#[test]
fn history_lines_carry_name_and_content() {
    let entries = vec![
        HistoryEntry { sender: b("alice"), content: b("hi") },
        HistoryEntry { sender: b("bob"), content: b("yo") },
    ];
    let lines = history_replies(&entries);
    assert_eq!(lines, vec![b("alice: hi"), b("bob: yo")]);
}

#[test]
fn list_rooms_after_two_joins_names_all_three_rooms() {
    let mut hub = Hub::new();
    let mut s1 = active_session(1);
    let mut s2 = active_session(2);
    hub.connect(1);
    hub.join(1, b("main"));
    hub.connect(2);
    hub.join(2, b("main"));
    drive(&mut s1, &mut hub, "/join lobby", 1);
    drive(&mut s2, &mut hub, "/join general", 2);
    let mut rooms = hub.list_rooms();
    rooms.sort();
    assert_eq!(rooms, vec![b("general"), b("lobby"), b("main")]);
}
