use chat_core::hub::Hub;

fn bytes(s: &str) -> Vec<u8> {
    s.as_bytes().to_vec()
}

fn recipients(hub: &Hub, room: &str) -> Vec<u64> {
    hub.broadcast(&bytes(room), &bytes("probe")).into_iter().map(|d| d.to).collect()
}

#[test]
fn empty_hub_has_no_rooms_and_no_recipients() {
    let hub = Hub::new();
    assert_eq!(hub.list_rooms().len(), 0);
    assert_eq!(recipients(&hub, "main").len(), 0);
}

#[test]
fn join_moves_membership_between_rooms() {
    let mut hub = Hub::new();
    hub.connect(1);
    hub.join(1, bytes("main"));
    assert_eq!(recipients(&hub, "main"), vec![1]);
    hub.join(1, bytes("lobby"));
    assert_eq!(recipients(&hub, "lobby"), vec![1]);
    // membership is exclusive: the id left "main" when it joined "lobby"
    assert_eq!(recipients(&hub, "main").len(), 0);
    // the old room's entry persists
    let rooms = hub.list_rooms();
    assert_eq!(rooms, vec![bytes("main"), bytes("lobby")]);
}

#[test]
fn join_for_unknown_id_changes_nothing() {
    let mut hub = Hub::new();
    hub.join(7, bytes("lobby"));
    assert_eq!(hub.list_rooms().len(), 0);
    assert_eq!(recipients(&hub, "lobby").len(), 0);
}

#[test]
fn join_twice_equals_join_once() {
    let mut once = Hub::new();
    once.connect(1);
    once.join(1, bytes("main"));
    once.join(1, bytes("lobby"));

    let mut twice = Hub::new();
    twice.connect(1);
    twice.join(1, bytes("main"));
    twice.join(1, bytes("lobby"));
    twice.join(1, bytes("lobby"));

    assert_eq!(once.list_rooms(), twice.list_rooms());
    assert_eq!(recipients(&once, "lobby"), recipients(&twice, "lobby"));
    assert_eq!(recipients(&once, "main"), recipients(&twice, "main"));
}

#[test]
fn broadcast_reaches_exactly_the_rooms_members() {
    let mut hub = Hub::new();
    for id in [1, 2, 3] {
        hub.connect(id);
    }
    hub.join(1, bytes("x"));
    hub.join(2, bytes("x"));
    hub.join(3, bytes("y"));
    let to_x = hub.broadcast(&bytes("x"), &bytes("hello x"));
    let ids: Vec<u64> = to_x.iter().map(|d| d.to).collect();
    assert!(ids.contains(&1));
    assert!(ids.contains(&2));
    assert!(!ids.contains(&3));
    assert_eq!(ids.len(), 2);
    for d in &to_x {
        assert_eq!(d.text, bytes("hello x"));
    }
}

#[test]
fn broadcast_to_unknown_room_delivers_nothing() {
    let mut hub = Hub::new();
    hub.connect(1);
    hub.join(1, bytes("main"));
    assert_eq!(recipients(&hub, "nowhere").len(), 0);
}

#[test]
fn disconnect_removes_id_from_its_room() {
    let mut hub = Hub::new();
    hub.connect(1);
    hub.connect(2);
    hub.join(1, bytes("main"));
    hub.join(2, bytes("main"));
    hub.disconnect(1);
    assert_eq!(recipients(&hub, "main"), vec![2]);
}

#[test]
fn disconnect_twice_equals_disconnect_once() {
    let mut once = Hub::new();
    once.connect(1);
    once.connect(2);
    once.join(1, bytes("main"));
    once.join(2, bytes("main"));
    once.disconnect(1);

    let mut twice = Hub::new();
    twice.connect(1);
    twice.connect(2);
    twice.join(1, bytes("main"));
    twice.join(2, bytes("main"));
    twice.disconnect(1);
    twice.disconnect(1);

    assert_eq!(once.list_rooms(), twice.list_rooms());
    assert_eq!(recipients(&once, "main"), recipients(&twice, "main"));
}

#[test]
fn disconnect_of_unknown_id_is_a_no_op() {
    let mut hub = Hub::new();
    hub.connect(1);
    hub.join(1, bytes("main"));
    hub.disconnect(9);
    assert_eq!(recipients(&hub, "main"), vec![1]);
}

#[test]
fn connect_is_idempotent_by_id() {
    let mut hub = Hub::new();
    hub.connect(1);
    hub.connect(1);
    hub.join(1, bytes("main"));
    assert_eq!(recipients(&hub, "main"), vec![1]);
}
