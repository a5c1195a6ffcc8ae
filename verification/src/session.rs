use vstd::prelude::*;

use crate::hub::{spec_disconnect, absent_everywhere, HubV};
use crate::protocol::{append_bytes, copy_bytes, parse_frame, parse_frame_spec, Command, CommandV};
use crate::texts::{
    default_room_name, delivery_failed_text, denied_text, joined_text, name_required_text,
    name_sep, name_sep_text, reply_delivery_failed, reply_denied, reply_joined,
    reply_name_required, reply_room_required, reply_unknown_prefix, room_main,
    room_required_text, unknown_prefix_text,
};

verus! {

// ---------------------------------------------------------------------------
// The per-connection session: a state machine that turns inbound frames and
// timer ticks into actions. The owner of the connection performs each action
// in order: replies and probes go down the connection, hub actions go to the
// hub, storage actions go to the storage gateway, whose outcomes come back
// as further calls on the session.
// ---------------------------------------------------------------------------

/// How often the liveness timer fires, in time units.
pub const HEARTBEAT_INTERVAL: u64 = 5;

/// How long a client may stay silent before its session is closed, in time
/// units.
pub const CLIENT_TIMEOUT: u64 = 10;

/// The lifecycle of a session.
#[derive(Clone, Copy, Debug, PartialEq, Eq, Structural)]
pub enum SessionState {
    /// Created, not yet registered with the hub.
    Starting,
    /// Registered; processing frames and ticks.
    Active,
    /// A terminating event happened; the hub is told to forget the session
    /// and the connection is released.
    Closing,
    /// Final; nothing is processed any more.
    Terminated,
}

/// One inbound event on the connection.
pub enum FrameEvent {
    /// A text frame.
    Text(Vec<u8>),
    /// A liveness probe from the client; answered and counted as liveness.
    Ping,
    /// The client's answer to a probe; counted as liveness.
    Pong,
    /// An orderly close from the client.
    Close,
    /// A binary frame: a protocol violation, which closes the connection.
    Binary,
    /// An empty or no-op frame; ignored.
    Nop,
    /// A malformed transport frame, which closes the connection.
    Malformed,
}

/// Specification-level image of an inbound event.
pub enum FrameEventV {
    Text(Seq<u8>),
    Ping,
    Pong,
    Close,
    Binary,
    Nop,
    Malformed,
}

impl View for FrameEvent {
    type V = FrameEventV;

    open spec fn view(&self) -> FrameEventV {
        match self {
            FrameEvent::Text(f) => FrameEventV::Text(f@),
            FrameEvent::Ping => FrameEventV::Ping,
            FrameEvent::Pong => FrameEventV::Pong,
            FrameEvent::Close => FrameEventV::Close,
            FrameEvent::Binary => FrameEventV::Binary,
            FrameEvent::Nop => FrameEventV::Nop,
            FrameEvent::Malformed => FrameEventV::Malformed,
        }
    }
}

/// One action the session asks its owner to perform.
pub enum Action {
    /// Write this text to the client.
    Reply(Vec<u8>),
    /// Answer a ping.
    SendPong,
    /// Probe the client for liveness.
    SendPing,
    /// Register this session's id and delivery channel with the hub.
    HubConnect,
    /// Move this session into the named room at the hub.
    HubJoin(Vec<u8>),
    /// Tell the hub to forget this session.
    HubDisconnect,
    /// Ask the hub for the room names and reply with one line per name.
    HubListRooms,
    /// Ask the hub to fan this text out to the room's members.
    HubBroadcast { room: Vec<u8>, text: Vec<u8> },
    /// Create the named room in storage if it is absent.
    EnsureRoom(Vec<u8>),
    /// Append this text to the named room's stored messages; the outcome
    /// comes back through `message_persisted`.
    PersistMessage { room: Vec<u8>, text: Vec<u8> },
    /// Read the named room's stored messages and reply with the lines that
    /// `history_replies` builds from them.
    FetchHistory(Vec<u8>),
    /// Look up the caller's permission; the answer comes back through
    /// `permission_checked` with this target.
    QueryPermission { target: Vec<u8> },
    /// Delete this user's account and messages through the storage gateway.
    DeleteUser { target: Vec<u8> },
    /// Release the connection.
    CloseConnection,
}

/// Specification-level image of an action.
pub enum ActionV {
    Reply(Seq<u8>),
    SendPong,
    SendPing,
    HubConnect,
    HubJoin(Seq<u8>),
    HubDisconnect,
    HubListRooms,
    HubBroadcast { room: Seq<u8>, text: Seq<u8> },
    EnsureRoom(Seq<u8>),
    PersistMessage { room: Seq<u8>, text: Seq<u8> },
    FetchHistory(Seq<u8>),
    QueryPermission { target: Seq<u8> },
    DeleteUser { target: Seq<u8> },
    CloseConnection,
}

impl View for Action {
    type V = ActionV;

    open spec fn view(&self) -> ActionV {
        match self {
            Action::Reply(t) => ActionV::Reply(t@),
            Action::SendPong => ActionV::SendPong,
            Action::SendPing => ActionV::SendPing,
            Action::HubConnect => ActionV::HubConnect,
            Action::HubJoin(r) => ActionV::HubJoin(r@),
            Action::HubDisconnect => ActionV::HubDisconnect,
            Action::HubListRooms => ActionV::HubListRooms,
            Action::HubBroadcast { room, text } => ActionV::HubBroadcast {
                room: room@,
                text: text@,
            },
            Action::EnsureRoom(r) => ActionV::EnsureRoom(r@),
            Action::PersistMessage { room, text } => ActionV::PersistMessage {
                room: room@,
                text: text@,
            },
            Action::FetchHistory(r) => ActionV::FetchHistory(r@),
            Action::QueryPermission { target } => ActionV::QueryPermission { target: target@ },
            Action::DeleteUser { target } => ActionV::DeleteUser { target: target@ },
            Action::CloseConnection => ActionV::CloseConnection,
        }
    }
}

/// The views of a list of actions.
pub open spec fn acts(s: Seq<Action>) -> Seq<ActionV> {
    s.map_values(|a: Action| a@)
}

/// The state a session keeps for one client connection.
pub struct Session {
    /// The authenticated identity, stable for the connection's lifetime.
    pub id: u64,
    pub state: SessionState,
    /// The room the session is currently in; `"main"` from the start.
    pub room: Vec<u8>,
    /// The client-settable label put before broadcast messages.
    pub name: Option<Vec<u8>>,
    /// When the client last showed liveness.
    pub last_heartbeat: u64,
}

/// Specification-level image of a session.
#[verifier::ext_equal]
pub struct SessionV {
    pub id: u64,
    pub state: SessionState,
    pub room: Seq<u8>,
    pub name: Option<Seq<u8>>,
    pub last_heartbeat: u64,
}

impl View for Session {
    type V = SessionV;

    open spec fn view(&self) -> SessionV {
        SessionV {
            id: self.id,
            state: self.state,
            room: self.room@,
            name: match self.name {
                Some(n) => Some(n@),
                None => None,
            },
            last_heartbeat: self.last_heartbeat,
        }
    }
}

/// The client has been silent for longer than the timeout.
pub open spec fn hb_expired(last: u64, now: u64) -> bool {
    now > last && now - last > CLIENT_TIMEOUT
}

/// A chat line as it is shown: the display name and `": "` before the text,
/// or the bare text when no name is set.
pub open spec fn display_line(name: Option<Seq<u8>>, text: Seq<u8>) -> Seq<u8> {
    match name {
        Some(n) => n + name_sep_text() + text,
        None => text,
    }
}

/// What an active session does with one parsed command.
pub open spec fn step_command(s: SessionV, c: CommandV) -> (SessionV, Seq<ActionV>) {
    match c {
        CommandV::List => (s, seq![ActionV::HubListRooms]),
        CommandV::Join(room) => (
            SessionV { room: room, ..s },
            seq![
                ActionV::EnsureRoom(room),
                ActionV::HubJoin(room),
                ActionV::Reply(joined_text()),
            ],
        ),
        CommandV::MissingRoomArg => (s, seq![ActionV::Reply(room_required_text())]),
        CommandV::Name(n) => (SessionV { name: Some(n), ..s }, seq![]),
        CommandV::MissingNameArg => (s, seq![ActionV::Reply(name_required_text())]),
        CommandV::History => (s, seq![ActionV::FetchHistory(s.room)]),
        CommandV::Remove(t) => (s, seq![ActionV::QueryPermission { target: t }]),
        CommandV::MissingUserArg => (s, seq![ActionV::Reply(name_required_text())]),
        CommandV::Unknown(t) => (s, seq![ActionV::Reply(unknown_prefix_text() + t)]),
        CommandV::Message(m) => (
            s,
            seq![ActionV::PersistMessage { room: s.room, text: display_line(s.name, m) }],
        ),
        CommandV::Empty => (s, seq![]),
    }
}

/// What a session does with one inbound event: nothing unless it is active;
/// liveness updates for pings and pongs; close on a terminating event; and
/// `step_command` for a text frame.
pub open spec fn step_frame(s: SessionV, ev: FrameEventV, now: u64) -> (SessionV, Seq<ActionV>) {
    if s.state != SessionState::Active {
        (s, seq![])
    } else {
        match ev {
            FrameEventV::Text(f) => step_command(s, parse_frame_spec(f)),
            FrameEventV::Ping => (
                SessionV { last_heartbeat: now, ..s },
                seq![ActionV::SendPong],
            ),
            FrameEventV::Pong => (SessionV { last_heartbeat: now, ..s }, seq![]),
            FrameEventV::Close => (
                SessionV { state: SessionState::Closing, ..s },
                seq![ActionV::HubDisconnect, ActionV::CloseConnection],
            ),
            FrameEventV::Binary => (
                SessionV { state: SessionState::Closing, ..s },
                seq![ActionV::HubDisconnect, ActionV::CloseConnection],
            ),
            FrameEventV::Malformed => (
                SessionV { state: SessionState::Closing, ..s },
                seq![ActionV::HubDisconnect, ActionV::CloseConnection],
            ),
            FrameEventV::Nop => (s, seq![]),
        }
    }
}

/// What a session does on a liveness tick: nothing unless active; close and
/// disconnect when the client has timed out; otherwise probe it.
pub open spec fn spec_tick(s: SessionV, now: u64) -> (SessionV, Seq<ActionV>) {
    if s.state != SessionState::Active {
        (s, seq![])
    } else if hb_expired(s.last_heartbeat, now) {
        (
            SessionV { state: SessionState::Closing, ..s },
            seq![ActionV::HubDisconnect, ActionV::CloseConnection],
        )
    } else {
        (s, seq![ActionV::SendPing])
    }
}

/// Heartbeat timeout law: a session that has not shown liveness for longer
/// than `CLIENT_TIMEOUT` moves to `Closing` on its next tick and asks for a
/// hub disconnect; once the hub processes that disconnect, the session's id
/// is connected nowhere and a member of no room. The timer fires every
/// `HEARTBEAT_INTERVAL`, so that tick comes within one interval of the
/// threshold elapsing.
pub proof fn lemma_heartbeat_timeout(s: SessionV, now: u64, v: HubV)
    requires
        s.state == SessionState::Active,
        hb_expired(s.last_heartbeat, now),
    ensures
        spec_tick(s, now).0.state == SessionState::Closing,
        spec_tick(s, now).1.contains(ActionV::HubDisconnect),
        absent_everywhere(spec_disconnect(v, s.id), s.id),
{
    assert(spec_tick(s, now).1[0] == ActionV::HubDisconnect);
    crate::hub::lemma_disconnect_removes_everywhere(v, s.id);
}

impl Session {
    /// A fresh session for an authenticated connection: not yet registered,
    /// in the default room, with no display name, and counting liveness from
    /// `now`.
    pub fn new(id: u64, now: u64) -> (s: Session)
        ensures
            s@ == (SessionV {
                id: id,
                state: SessionState::Starting,
                room: default_room_name(),
                name: None,
                last_heartbeat: now,
            }),
    {
        let s = Session {
            id,
            state: SessionState::Starting,
            room: room_main(),
            name: None,
            last_heartbeat: now,
        };
        proof {
            assert(s@ =~~= (SessionV {
                id: id,
                state: SessionState::Starting,
                room: default_room_name(),
                name: None,
                last_heartbeat: now,
            }));
        }
        s
    }

    /// Registration: makes sure the default room exists in storage, registers
    /// with the hub, joins the default room, and becomes active.
    pub fn start(&mut self) -> (actions: Vec<Action>)
        requires
            old(self).state == SessionState::Starting,
        ensures
            final(self)@ == (SessionV { state: SessionState::Active, ..old(self)@ }),
            acts(actions@) == seq![
                ActionV::EnsureRoom(old(self)@.room),
                ActionV::HubConnect,
                ActionV::HubJoin(old(self)@.room),
            ],
    {
        let mut actions: Vec<Action> = Vec::new();
        actions.push(Action::EnsureRoom(copy_bytes(self.room.as_slice())));
        actions.push(Action::HubConnect);
        actions.push(Action::HubJoin(copy_bytes(self.room.as_slice())));
        self.state = SessionState::Active;
        proof {
            assert(self@ =~~= (SessionV { state: SessionState::Active, ..old(self)@ }));
            assert(acts(actions@) =~~= seq![
                ActionV::EnsureRoom(old(self)@.room),
                ActionV::HubConnect,
                ActionV::HubJoin(old(self)@.room),
            ]);
        }
        actions
    }

    /// Processes one inbound event, as `step_frame` says.
    pub fn handle_frame(&mut self, ev: FrameEvent, now: u64) -> (actions: Vec<Action>)
        ensures
            final(self)@ == step_frame(old(self)@, ev@, now).0,
            acts(actions@) == step_frame(old(self)@, ev@, now).1,
    {
        let mut actions: Vec<Action> = Vec::new();
        let active = match self.state {
            SessionState::Active => true,
            _ => false,
        };
        if !active {
            proof {
                assert(acts(actions@) =~~= step_frame(old(self)@, ev@, now).1);
            }
            return actions;
        }
        match ev {
            FrameEvent::Text(f) => {
                let c = parse_frame(f.as_slice());
                match c {
                    Command::List => {
                        actions.push(Action::HubListRooms);
                    },
                    Command::Join(room) => {
                        actions.push(Action::EnsureRoom(copy_bytes(room.as_slice())));
                        actions.push(Action::HubJoin(copy_bytes(room.as_slice())));
                        actions.push(Action::Reply(reply_joined()));
                        self.room = room;
                    },
                    Command::MissingRoomArg => {
                        actions.push(Action::Reply(reply_room_required()));
                    },
                    Command::Name(n) => {
                        self.name = Some(n);
                    },
                    Command::MissingNameArg => {
                        actions.push(Action::Reply(reply_name_required()));
                    },
                    Command::History => {
                        actions.push(Action::FetchHistory(copy_bytes(self.room.as_slice())));
                    },
                    Command::Remove(t) => {
                        actions.push(Action::QueryPermission { target: t });
                    },
                    Command::MissingUserArg => {
                        actions.push(Action::Reply(reply_name_required()));
                    },
                    Command::Unknown(t) => {
                        let mut msg = reply_unknown_prefix();
                        append_bytes(&mut msg, t.as_slice());
                        actions.push(Action::Reply(msg));
                    },
                    Command::Message(m) => {
                        let text = match &self.name {
                            Some(n) => {
                                let mut line = copy_bytes(n.as_slice());
                                append_bytes(&mut line, name_sep().as_slice());
                                append_bytes(&mut line, m.as_slice());
                                line
                            },
                            None => m,
                        };
                        let room = copy_bytes(self.room.as_slice());
                        actions.push(Action::PersistMessage { room, text });
                    },
                    Command::Empty => {},
                }
            },
            FrameEvent::Ping => {
                self.last_heartbeat = now;
                actions.push(Action::SendPong);
            },
            FrameEvent::Pong => {
                self.last_heartbeat = now;
            },
            FrameEvent::Close => {
                self.state = SessionState::Closing;
                actions.push(Action::HubDisconnect);
                actions.push(Action::CloseConnection);
            },
            FrameEvent::Binary => {
                self.state = SessionState::Closing;
                actions.push(Action::HubDisconnect);
                actions.push(Action::CloseConnection);
            },
            FrameEvent::Malformed => {
                self.state = SessionState::Closing;
                actions.push(Action::HubDisconnect);
                actions.push(Action::CloseConnection);
            },
            FrameEvent::Nop => {},
        }
        proof {
            assert(self@ =~~= step_frame(old(self)@, ev@, now).0);
            assert(acts(actions@) =~~= step_frame(old(self)@, ev@, now).1);
        }
        actions
    }

    /// One firing of the liveness timer, as `spec_tick` says.
    pub fn heartbeat_tick(&mut self, now: u64) -> (actions: Vec<Action>)
        ensures
            final(self)@ == spec_tick(old(self)@, now).0,
            acts(actions@) == spec_tick(old(self)@, now).1,
    {
        let mut actions: Vec<Action> = Vec::new();
        let active = match self.state {
            SessionState::Active => true,
            _ => false,
        };
        if active {
            if now > self.last_heartbeat && now - self.last_heartbeat > CLIENT_TIMEOUT {
                self.state = SessionState::Closing;
                actions.push(Action::HubDisconnect);
                actions.push(Action::CloseConnection);
            } else {
                actions.push(Action::SendPing);
            }
        }
        proof {
            assert(self@ =~~= spec_tick(old(self)@, now).0);
            assert(acts(actions@) =~~= spec_tick(old(self)@, now).1);
        }
        actions
    }

    /// A text the hub delivers to this session is written to the client
    /// verbatim; a session that is no longer active drops it.
    pub fn hub_delivery(&mut self, text: Vec<u8>) -> (actions: Vec<Action>)
        ensures
            final(self)@ == old(self)@,
            old(self).state == SessionState::Active ==> acts(actions@) == seq![
                ActionV::Reply(text@),
            ],
            old(self).state != SessionState::Active ==> acts(actions@) == Seq::<
                ActionV,
            >::empty(),
    {
        let mut actions: Vec<Action> = Vec::new();
        match self.state {
            SessionState::Active => {
                actions.push(Action::Reply(text));
                proof {
                    assert(acts(actions@) =~~= seq![ActionV::Reply(text@)]);
                }
            },
            _ => {
                proof {
                    assert(acts(actions@) =~~= Seq::<ActionV>::empty());
                }
            },
        }
        actions
    }

    /// The storage gateway's verdict on an appended message: on success the
    /// text goes to the hub for fan-out; on failure the sender is told and
    /// nothing is broadcast.
    pub fn message_persisted(&mut self, room: Vec<u8>, text: Vec<u8>, ok: bool) -> (actions: Vec<
        Action,
    >)
        ensures
            final(self)@ == old(self)@,
            old(self).state == SessionState::Active && ok ==> acts(actions@) == seq![
                ActionV::HubBroadcast { room: room@, text: text@ },
            ],
            old(self).state == SessionState::Active && !ok ==> acts(actions@) == seq![
                ActionV::Reply(delivery_failed_text()),
            ],
            old(self).state != SessionState::Active ==> acts(actions@) == Seq::<
                ActionV,
            >::empty(),
    {
        let mut actions: Vec<Action> = Vec::new();
        match self.state {
            SessionState::Active => {
                if ok {
                    actions.push(Action::HubBroadcast { room, text });
                    proof {
                        assert(acts(actions@) =~~= seq![
                            ActionV::HubBroadcast { room: room@, text: text@ },
                        ]);
                    }
                } else {
                    actions.push(Action::Reply(reply_delivery_failed()));
                    proof {
                        assert(acts(actions@) =~~= seq![
                            ActionV::Reply(delivery_failed_text()),
                        ]);
                    }
                }
            },
            _ => {
                proof {
                    assert(acts(actions@) =~~= Seq::<ActionV>::empty());
                }
            },
        }
        actions
    }

    /// The storage gateway's verdict on the caller of `/rm`: with the
    /// elevated permission the deletion goes ahead; without it the caller is
    /// told that it was denied.
    pub fn permission_checked(&mut self, target: Vec<u8>, elevated: bool) -> (actions: Vec<Action>)
        ensures
            final(self)@ == old(self)@,
            old(self).state == SessionState::Active && elevated ==> acts(actions@) == seq![
                ActionV::DeleteUser { target: target@ },
            ],
            old(self).state == SessionState::Active && !elevated ==> acts(actions@) == seq![
                ActionV::Reply(denied_text()),
            ],
            old(self).state != SessionState::Active ==> acts(actions@) == Seq::<
                ActionV,
            >::empty(),
    {
        let mut actions: Vec<Action> = Vec::new();
        match self.state {
            SessionState::Active => {
                if elevated {
                    actions.push(Action::DeleteUser { target });
                    proof {
                        assert(acts(actions@) =~~= seq![
                            ActionV::DeleteUser { target: target@ },
                        ]);
                    }
                } else {
                    actions.push(Action::Reply(reply_denied()));
                    proof {
                        assert(acts(actions@) =~~= seq![ActionV::Reply(denied_text())]);
                    }
                }
            },
            _ => {
                proof {
                    assert(acts(actions@) =~~= Seq::<ActionV>::empty());
                }
            },
        }
        actions
    }

    /// The connection is gone: the session ends, and the hub is told once
    /// more to forget it (the hub tolerates a disconnect for an id it no
    /// longer holds).
    pub fn stopped(&mut self) -> (actions: Vec<Action>)
        ensures
            final(self)@ == (SessionV { state: SessionState::Terminated, ..old(self)@ }),
            acts(actions@) == seq![ActionV::HubDisconnect],
    {
        self.state = SessionState::Terminated;
        let mut actions: Vec<Action> = Vec::new();
        actions.push(Action::HubDisconnect);
        proof {
            assert(self@ =~~= (SessionV { state: SessionState::Terminated, ..old(self)@ }));
            assert(acts(actions@) =~~= seq![ActionV::HubDisconnect]);
        }
        actions
    }
}

/// One stored message, resolved to the sender's display identity.
pub struct HistoryEntry {
    pub sender: Vec<u8>,
    pub content: Vec<u8>,
}

/// The lines a `/history` request replies with: one per stored message, in
/// storage order, each `"<name>: <content>"`.
pub fn history_replies(entries: &Vec<HistoryEntry>) -> (lines: Vec<Vec<u8>>)
    ensures
        lines@.map_values(|l: Vec<u8>| l@) == entries@.map_values(
            |e: HistoryEntry| display_line(Some(e.sender@), e.content@),
        ),
{
    let n = entries.len();
    let mut lines: Vec<Vec<u8>> = Vec::new();
    let mut i: usize = 0;
    while i < n
        invariant
            0 <= i <= n,
            n == entries@.len(),
            lines@.len() == i,
            forall|k: int|
                0 <= k < i ==> (#[trigger] lines@[k])@ == display_line(
                    Some(entries@[k].sender@),
                    entries@[k].content@,
                ),
        decreases n - i,
    {
        let mut line = copy_bytes(entries[i].sender.as_slice());
        append_bytes(&mut line, name_sep().as_slice());
        append_bytes(&mut line, entries[i].content.as_slice());
        lines.push(line);
        i += 1;
    }
    proof {
        assert(lines@.map_values(|l: Vec<u8>| l@) =~= entries@.map_values(
            |e: HistoryEntry| display_line(Some(e.sender@), e.content@),
        ));
    }
    lines
}

} // verus!
