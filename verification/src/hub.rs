use vstd::prelude::*;

use crate::protocol::{bytes_eq, copy_bytes};

verus! {

// ---------------------------------------------------------------------------
// The hub: the single source of truth for which sessions are connected and
// which room each one is in. All of its operations are processed one at a
// time by the owner of the `Hub` value, which is what makes them atomic with
// respect to one another.
//
// The hub itself holds no delivery channels: `broadcast` returns the
// deliveries that are due, and the transport layer pushes each one down the
// matching session's channel.
// ---------------------------------------------------------------------------

/// One room the hub knows: its name and the ids of its current members.
/// A room entry persists once created, even when it has no members left.
pub struct RoomEntry {
    pub name: Vec<u8>,
    pub members: Vec<u64>,
}

/// Specification-level image of one room.
#[verifier::ext_equal]
pub struct RoomV {
    pub name: Seq<u8>,
    pub members: Set<u64>,
}

/// Specification-level image of the hub registry.
#[verifier::ext_equal]
pub struct HubV {
    pub connected: Set<u64>,
    pub rooms: Seq<RoomV>,
}

impl View for RoomEntry {
    type V = RoomV;

    open spec fn view(&self) -> RoomV {
        RoomV { name: self.name@, members: self.members@.to_set() }
    }
}

/// The session registry and room membership index.
pub struct Hub {
    sessions: Vec<u64>,
    rooms: Vec<RoomEntry>,
}

impl View for Hub {
    type V = HubV;

    closed spec fn view(&self) -> HubV {
        HubV {
            connected: self.sessions@.to_set(),
            rooms: self.rooms@.map_values(|r: RoomEntry| r@),
        }
    }
}

/// Room names are pairwise distinct, and no session id is a member of two
/// rooms at once.
pub open spec fn inv(v: HubV) -> bool {
    &&& forall|i: int, j: int|
        0 <= i < v.rooms.len() && 0 <= j < v.rooms.len() && i != j ==> (#[trigger] v.rooms[i].name)
            != (#[trigger] v.rooms[j].name)
    &&& forall|i: int, j: int, id: u64|
        0 <= i < v.rooms.len() && 0 <= j < v.rooms.len() && #[trigger] v.rooms[i].members.contains(
            id,
        ) && #[trigger] v.rooms[j].members.contains(id) ==> i == j
}

/// There is a room of this name.
pub open spec fn has_room(rooms: Seq<RoomV>, name: Seq<u8>) -> bool {
    exists|i: int| 0 <= i < rooms.len() && rooms[i].name == name
}

/// The member set of the room of this name, empty if there is no such room.
pub open spec fn members_of(v: HubV, name: Seq<u8>) -> Set<u64> {
    if has_room(v.rooms, name) {
        let i = choose|i: int| 0 <= i < v.rooms.len() && v.rooms[i].name == name;
        v.rooms[i].members
    } else {
        Set::empty()
    }
}

/// Every room, with this id taken out of its member set.
pub open spec fn clear_member(rooms: Seq<RoomV>, id: u64) -> Seq<RoomV> {
    rooms.map_values(|r: RoomV| RoomV { name: r.name, members: r.members.remove(id) })
}

/// This id added to the member set of the named room; the entry is created
/// if there is none yet.
pub open spec fn add_member(rooms: Seq<RoomV>, name: Seq<u8>, id: u64) -> Seq<RoomV> {
    if has_room(rooms, name) {
        rooms.map_values(
            |r: RoomV|
                if r.name == name {
                    RoomV { name: r.name, members: r.members.insert(id) }
                } else {
                    r
                },
        )
    } else {
        rooms.push(RoomV { name: name, members: Set::empty().insert(id) })
    }
}

/// What `Hub::connect` does: registers the id; rooms are untouched.
pub open spec fn spec_connect(v: HubV, id: u64) -> HubV {
    HubV { connected: v.connected.insert(id), rooms: v.rooms }
}

/// What `Hub::disconnect` does: deregisters the id and takes it out of
/// whichever room held it.
pub open spec fn spec_disconnect(v: HubV, id: u64) -> HubV {
    HubV { connected: v.connected.remove(id), rooms: clear_member(v.rooms, id) }
}

/// What `Hub::join` does: for a connected id, moves it from its old room to
/// the named one; for an unknown id, nothing.
pub open spec fn spec_join(v: HubV, id: u64, room: Seq<u8>) -> HubV {
    if v.connected.contains(id) {
        HubV { connected: v.connected, rooms: add_member(clear_member(v.rooms, id), room, id) }
    } else {
        v
    }
}

/// The id is registered nowhere: not connected, and a member of no room.
pub open spec fn absent_everywhere(v: HubV, id: u64) -> bool {
    &&& !v.connected.contains(id)
    &&& forall|i: int| 0 <= i < v.rooms.len() ==> !(#[trigger] v.rooms[i]).members.contains(id)
}

// ---------------------------------------------------------------------------
// Laws
// ---------------------------------------------------------------------------

/// Membership exclusivity: under the hub invariant, a session id that is a
/// member of two rooms is a member of one and the same room.
pub proof fn lemma_membership_exclusive(v: HubV, id: u64, i: int, j: int)
    requires
        inv(v),
        0 <= i < v.rooms.len(),
        0 <= j < v.rooms.len(),
        v.rooms[i].members.contains(id),
        v.rooms[j].members.contains(id),
    ensures
        i == j,
{
}

/// Disconnect idempotence: disconnecting an id twice leaves the registry
/// exactly as disconnecting it once does.
pub proof fn lemma_disconnect_idempotent(v: HubV, id: u64)
    ensures
        spec_disconnect(spec_disconnect(v, id), id) == spec_disconnect(v, id),
{
    let once = spec_disconnect(v, id);
    let twice = spec_disconnect(once, id);
    assert forall|i: int| 0 <= i < v.rooms.len() implies twice.rooms[i] =~~= once.rooms[i] by {
        assert(once.rooms[i].members =~= v.rooms[i].members.remove(id));
    }
    assert(twice =~~= once);
}

/// A disconnected id is registered nowhere: not connected, and a member of
/// no room. Together with the session's heartbeat contract this is the
/// timeout law: a session whose heartbeat has expired asks for exactly this
/// disconnect on its next tick.
pub proof fn lemma_disconnect_removes_everywhere(v: HubV, id: u64)
    ensures
        absent_everywhere(spec_disconnect(v, id), id),
{
}

/// Join idempotence: joining the same room twice in a row leaves the
/// registry exactly as joining it once does.
pub proof fn lemma_join_idempotent(v: HubV, id: u64, room: Seq<u8>)
    ensures
        spec_join(spec_join(v, id, room), id, room) == spec_join(v, id, room),
{
    if v.connected.contains(id) {
        let cleared = clear_member(v.rooms, id);
        let once = spec_join(v, id, room);
        let cleared2 = clear_member(once.rooms, id);
        if has_room(cleared, room) {
            assert forall|i: int| 0 <= i < cleared.len() implies cleared2[i] =~~= cleared[i] by {
                assert(cleared[i].members.remove(id) =~= cleared[i].members);
            }
            assert(cleared2 =~~= cleared);
            assert(has_room(cleared2, room)) by {
                let w = choose|i: int| 0 <= i < cleared.len() && cleared[i].name == room;
                assert(cleared2[w].name == room);
            }
            assert(add_member(cleared2, room, id) =~~= add_member(cleared, room, id));
            assert(spec_join(once, id, room) =~~= once);
        } else {
            // The first join appended a fresh entry for the room.
            let fresh = RoomV { name: room, members: Set::empty().insert(id) };
            assert(once.rooms == cleared.push(fresh));
            assert forall|i: int| 0 <= i < cleared.len() implies cleared2[i] =~~= cleared[i] by {
                assert(cleared[i].members.remove(id) =~= cleared[i].members);
            }
            assert(cleared2.len() == cleared.len() + 1);
            assert(cleared2[cleared.len() as int].name == room);
            assert(has_room(cleared2, room));
            let twice = spec_join(once, id, room);
            assert forall|i: int| 0 <= i < cleared2.len() implies twice.rooms[i] =~~= once.rooms[i]
                by {
                if cleared2[i].name == room {
                    assert(i == cleared.len()) by {
                        if i < cleared.len() {
                            assert(cleared[i].name == room);
                            assert(has_room(cleared, room));
                        }
                    }
                    assert(twice.rooms[i].members =~= fresh.members);
                } else {
                    assert(i < cleared.len());
                }
            }
            assert(twice =~~= once);
        }
    }
}

/// Broadcast scoping: a broadcast to room `x` is addressed to exactly the
/// members of `x`; under the hub invariant a member of a different room `y`
/// is never among them.
pub proof fn lemma_broadcast_scoped(v: HubV, x: Seq<u8>, y: Seq<u8>, a: u64, b: u64, c: u64)
    requires
        inv(v),
        x != y,
        members_of(v, x).contains(a),
        members_of(v, x).contains(b),
        members_of(v, y).contains(c),
    ensures
        members_of(v, x).contains(a),
        members_of(v, x).contains(b),
        !members_of(v, x).contains(c),
{
    let i = choose|i: int| 0 <= i < v.rooms.len() && v.rooms[i].name == x;
    let j = choose|j: int| 0 <= j < v.rooms.len() && v.rooms[j].name == y;
    assert(i != j);
    if members_of(v, x).contains(c) {
        lemma_membership_exclusive(v, c, i, j);
    }
}

// ---------------------------------------------------------------------------
// Helper lemmas and executable helpers
// ---------------------------------------------------------------------------

proof fn lemma_remove_to_set(s: Seq<u64>, j: int)
    requires
        0 <= j < s.len(),
        s.no_duplicates(),
    ensures
        s.remove(j).to_set() =~= s.to_set().remove(s[j]),
        s.remove(j).no_duplicates(),
{
    s.remove_ensures(j);
    let r = s.remove(j);
    assert forall|x: u64| r.contains(x) implies s.contains(x) && x != s[j] by {
        let k = choose|k: int| 0 <= k < r.len() && r[k] == x;
        if k < j {
            assert(s[k] == x);
        } else {
            assert(s[k + 1] == x);
        }
    }
    assert forall|x: u64| s.contains(x) && x != s[j] implies r.contains(x) by {
        let k = choose|k: int| 0 <= k < s.len() && s[k] == x;
        if k < j {
            assert(r[k] == x);
        } else {
            assert(r[k - 1] == x);
        }
    }
    assert forall|a: int, b: int| 0 <= a < b < r.len() implies r[a] != r[b] by {
        let a2: int = if a < j {
            a
        } else {
            a + 1
        };
        let b2: int = if b < j {
            b
        } else {
            b + 1
        };
        assert(r[a] == s[a2]);
        assert(r[b] == s[b2]);
    }
}

fn contains_id(v: &Vec<u64>, id: u64) -> (r: bool)
    ensures
        r == v@.contains(id),
{
    let n = v.len();
    let mut i: usize = 0;
    while i < n
        invariant
            0 <= i <= n,
            n == v@.len(),
            forall|k: int| 0 <= k < i ==> v@[k] != id,
        decreases n - i,
    {
        if v[i] == id {
            return true;
        }
        i += 1;
    }
    false
}

/// Takes this id out of the vector, if it is there.
fn remove_id(v: &mut Vec<u64>, id: u64)
    requires
        old(v)@.no_duplicates(),
    ensures
        final(v)@.no_duplicates(),
        final(v)@.to_set() == old(v)@.to_set().remove(id),
        !final(v)@.contains(id),
{
    let n = v.len();
    let mut i: usize = 0;
    while i < n
        invariant
            0 <= i <= n,
            n == v@.len(),
            v@ == old(v)@,
            v@.no_duplicates(),
            forall|k: int| 0 <= k < i ==> v@[k] != id,
        decreases n - i,
    {
        if v[i] == id {
            proof {
                lemma_remove_to_set(v@, i as int);
            }
            v.remove(i);
            proof {
                assert(!v@.contains(id)) by {
                    if v@.contains(id) {
                        assert(v@.to_set().contains(id));
                    }
                }
            }
            return ;
        }
        i += 1;
    }
    proof {
        assert(!v@.contains(id));
        assert(v@.to_set() =~= v@.to_set().remove(id));
    }
}

proof fn lemma_push_to_set(s: Seq<u64>, e: u64)
    ensures
        s.push(e).to_set() =~= s.to_set().insert(e),
        !s.contains(e) && s.no_duplicates() ==> s.push(e).no_duplicates(),
{
    let p = s.push(e);
    assert forall|x: u64| p.contains(x) implies s.contains(x) || x == e by {
        let k = choose|k: int| 0 <= k < p.len() && p[k] == x;
        if k < s.len() {
            assert(s[k] == x);
        }
    }
    assert forall|x: u64| s.contains(x) implies p.contains(x) by {
        let k = choose|k: int| 0 <= k < s.len() && s[k] == x;
        assert(p[k] == x);
    }
    assert(p[s.len() as int] == e);
    assert(p.contains(e));
    if !s.contains(e) && s.no_duplicates() {
        assert forall|a: int, b: int| 0 <= a < b < p.len() implies p[a] != p[b] by {
            if b == s.len() {
                assert(p[a] == s[a]);
                if s[a] == e {
                    assert(s.contains(e));
                }
            }
        }
    }
}

/// A mutable borrow of the member list of room `i`.
fn members_mut(rooms: &mut Vec<RoomEntry>, i: usize) -> (m: &mut Vec<u64>)
    requires
        i < old(rooms).len(),
    ensures
        *m == old(rooms)@[i as int].members,
        final(rooms)@ == old(rooms)@.update(
            i as int,
            (RoomEntry { name: old(rooms)@[i as int].name, members: *final(m) }),
        ),
{
    &mut rooms[i].members
}

/// Takes this id out of every room's member list.
fn clear_rooms(rooms: &mut Vec<RoomEntry>, id: u64)
    requires
        forall|k: int|
            0 <= k < old(rooms)@.len() ==> (#[trigger] old(rooms)@[k]).members@.no_duplicates(),
    ensures
        final(rooms)@.len() == old(rooms)@.len(),
        forall|k: int|
            0 <= k < old(rooms)@.len() ==> (#[trigger] final(rooms)@[k]).name@ == old(rooms)@[k].name@,
        forall|k: int|
            0 <= k < old(rooms)@.len() ==> (#[trigger] final(rooms)@[k]).members@.no_duplicates(),
        forall|k: int|
            0 <= k < old(rooms)@.len() ==> (#[trigger] final(rooms)@[k]).members@.to_set() == old(rooms)@[k].members@.to_set().remove(id),
        forall|k: int|
            0 <= k < old(rooms)@.len() ==> !(#[trigger] final(rooms)@[k]).members@.contains(id),
{
    let n = rooms.len();
    let mut r: usize = 0;
    while r < n
        invariant
            0 <= r <= n,
            rooms@.len() == n == old(rooms)@.len(),
            forall|k: int|
                0 <= k < n ==> (#[trigger] rooms@[k]).name@ == old(rooms)@[k].name@,
            forall|k: int|
                0 <= k < n ==> (#[trigger] rooms@[k]).members@.no_duplicates(),
            forall|k: int|
                0 <= k < r ==> (#[trigger] rooms@[k]).members@.to_set() == old(rooms)@[k].members@.to_set().remove(id),
            forall|k: int| 0 <= k < r ==> !(#[trigger] rooms@[k]).members@.contains(id),
            forall|k: int|
                r <= k < n ==> (#[trigger] rooms@[k]).members@ == old(rooms)@[k].members@,
        decreases n - r,
    {
        let m = members_mut(rooms, r);
        remove_id(m, id);
        r += 1;
    }
}

/// Finds the room of this name.
fn find_room(rooms: &Vec<RoomEntry>, name: &[u8]) -> (found: Option<usize>)
    ensures
        match found {
            Some(i) => i < rooms@.len() && rooms@[i as int].name@ == name@,
            None => forall|k: int| 0 <= k < rooms@.len() ==> (#[trigger] rooms@[k]).name@ != name@,
        },
{
    let n = rooms.len();
    let mut i: usize = 0;
    while i < n
        invariant
            0 <= i <= n,
            n == rooms@.len(),
            forall|k: int| 0 <= k < i ==> (#[trigger] rooms@[k]).name@ != name@,
        decreases n - i,
    {
        if bytes_eq(rooms[i].name.as_slice(), name) {
            return Some(i);
        }
        i += 1;
    }
    None
}

/// One outbound delivery a broadcast asks for: this text, pushed down the
/// channel of this session.
pub struct Delivery {
    pub to: u64,
    pub text: Vec<u8>,
}

impl Hub {
    /// No duplicate ids in the registry or in any member list, and the
    /// invariant `inv` on the view: distinct room names, exclusive
    /// membership.
    pub closed spec fn wf(self) -> bool {
        &&& self.sessions@.no_duplicates()
        &&& forall|i: int|
            0 <= i < self.rooms@.len() ==> (#[trigger] self.rooms@[i]).members@.no_duplicates()
        &&& inv(self@)
    }

    /// A well-formed hub's view satisfies the registry invariant, so the
    /// membership and broadcast laws apply to it.
    pub proof fn wf_implies_inv(&self)
        requires
            self.wf(),
        ensures
            inv(self@),
    {
    }

    /// An empty registry: nobody connected, no rooms yet.
    pub fn new() -> (h: Hub)
        ensures
            h.wf(),
            h@ == (HubV { connected: Set::empty(), rooms: Seq::empty() }),
    {
        let h = Hub { sessions: Vec::new(), rooms: Vec::new() };
        proof {
            assert(h.sessions@.to_set() =~= Set::empty());
            assert(h.rooms@.map_values(|r: RoomEntry| r@) =~= Seq::<RoomV>::empty());
            assert(h@ =~~= (HubV { connected: Set::empty(), rooms: Seq::empty() }));
        }
        h
    }

    /// Registers a session id. Idempotent by id; rooms are untouched.
    pub fn connect(&mut self, id: u64)
        requires
            old(self).wf(),
        ensures
            final(self).wf(),
            final(self)@ == spec_connect(old(self)@, id),
    {
        if !contains_id(&self.sessions, id) {
            proof {
                lemma_push_to_set(self.sessions@, id);
            }
            self.sessions.push(id);
            proof {
                assert(self@ =~~= spec_connect(old(self)@, id));
            }
        } else {
            proof {
                assert(self.sessions@.to_set() =~= self.sessions@.to_set().insert(id));
                assert(self@ =~~= spec_connect(old(self)@, id));
            }
        }
    }

    /// Deregisters a session id and takes it out of whichever room held it.
    /// A no-op when the id is already gone.
    pub fn disconnect(&mut self, id: u64)
        requires
            old(self).wf(),
        ensures
            final(self).wf(),
            final(self)@ == spec_disconnect(old(self)@, id),
    {
        remove_id(&mut self.sessions, id);
        clear_rooms(&mut self.rooms, id);
        proof {
            assert(self@.rooms =~~= clear_member(old(self)@.rooms, id));
            assert(self@ =~~= spec_disconnect(old(self)@, id));
            assert forall|i: int, j: int, x: u64|
                0 <= i < self@.rooms.len() && 0 <= j < self@.rooms.len()
                    && #[trigger] self@.rooms[i].members.contains(x)
                    && #[trigger] self@.rooms[j].members.contains(x) implies i == j by {
                assert(old(self)@.rooms[i].members.contains(x));
                assert(old(self)@.rooms[j].members.contains(x));
            }
        }
    }

    /// Moves a connected session from its old room into this one, creating
    /// the room's entry if this is its first member. A no-op for an id that
    /// is not connected.
    pub fn join(&mut self, id: u64, room: Vec<u8>)
        requires
            old(self).wf(),
        ensures
            final(self).wf(),
            final(self)@ == spec_join(old(self)@, id, room@),
    {
        if !contains_id(&self.sessions, id) {
            proof {
                assert(!old(self)@.connected.contains(id));
            }
            return ;
        }
        clear_rooms(&mut self.rooms, id);
        let ghost cleared = clear_member(old(self)@.rooms, id);
        proof {
            assert(self@.rooms =~~= cleared);
        }
        let ghost mid = self.rooms@;
        match find_room(&self.rooms, room.as_slice()) {
            Some(idx) => {
                proof {
                    assert(has_room(cleared, room@)) by {
                        assert(cleared[idx as int].name == room@);
                    }
                }
                let m = members_mut(&mut self.rooms, idx);
                proof {
                    lemma_push_to_set(m@, id);
                }
                m.push(id);
                proof {
                    assert forall|k: int| 0 <= k < cleared.len() implies self@.rooms[k] =~~= add_member(
                        cleared,
                        room@,
                        id,
                    )[k] by {
                        if k != idx {
                            assert(self.rooms@[k] == mid[k]);
                            assert(cleared[k].name != room@) by {
                                if cleared[k].name == room@ {
                                    assert(old(self)@.rooms[k].name == old(self)@.rooms[idx as int].name);
                                }
                            }
                        }
                    }
                    assert(self@.rooms =~~= add_member(cleared, room@, id));
                    assert(self@ =~~= spec_join(old(self)@, id, room@));
                }
            },
            None => {
                proof {
                    assert(!has_room(cleared, room@)) by {
                        if has_room(cleared, room@) {
                            let w = choose|w: int|
                                0 <= w < cleared.len() && cleared[w].name == room@;
                            assert(mid[w].name@ == room@);
                        }
                    }
                }
                let mut members: Vec<u64> = Vec::new();
                members.push(id);
                proof {
                    assert(members@ =~= Seq::<u64>::empty().push(id));
                    lemma_push_to_set(Seq::<u64>::empty(), id);
                    assert(Seq::<u64>::empty().to_set() =~= Set::<u64>::empty());
                    assert(members@.to_set() =~= Set::empty().insert(id));
                }
                self.rooms.push(RoomEntry { name: room, members });
                proof {
                    assert(self.rooms@[mid.len() as int]@.members =~= Set::empty().insert(id));
                    assert forall|k: int| 0 <= k < self@.rooms.len() implies self@.rooms[k] =~~= add_member(
                        cleared,
                        room@,
                        id,
                    )[k] by {
                        if k < mid.len() {
                            assert(self.rooms@[k] == mid[k]);
                        }
                    }
                    assert(self@.rooms =~~= add_member(cleared, room@, id));
                    assert(self@ =~~= spec_join(old(self)@, id, room@));
                }
            },
        }
        proof {
            let v = self@;
            assert forall|i: int, j: int|
                0 <= i < v.rooms.len() && 0 <= j < v.rooms.len() && i != j implies (
            #[trigger] v.rooms[i].name) != (#[trigger] v.rooms[j].name) by {
                if i < cleared.len() && j < cleared.len() {
                    assert(old(self)@.rooms[i].name == v.rooms[i].name);
                    assert(old(self)@.rooms[j].name == v.rooms[j].name);
                }
            }
            assert forall|i: int, j: int, x: u64|
                0 <= i < v.rooms.len() && 0 <= j < v.rooms.len()
                    && #[trigger] v.rooms[i].members.contains(x)
                    && #[trigger] v.rooms[j].members.contains(x) implies i == j by {
                if x != id {
                    assert(i < cleared.len() ==> old(self)@.rooms[i].members.contains(x));
                    assert(j < cleared.len() ==> old(self)@.rooms[j].members.contains(x));
                    if i == cleared.len() || j == cleared.len() {
                        assert(Set::empty().insert(id).contains(x) ==> x == id);
                    }
                } else {
                    assert(forall|k: int|
                        0 <= k < cleared.len() && k != i ==> !(#[trigger] cleared[k]).members.remove(
                            id,
                        ).contains(id));
                }
            }
        }
    }

    /// The names of all rooms the hub has an entry for, in registry order.
    pub fn list_rooms(&self) -> (names: Vec<Vec<u8>>)
        ensures
            names@.map_values(|n: Vec<u8>| n@) == self@.rooms.map_values(|r: RoomV| r.name),
    {
        let n = self.rooms.len();
        let mut names: Vec<Vec<u8>> = Vec::new();
        let mut i: usize = 0;
        while i < n
            invariant
                0 <= i <= n,
                n == self.rooms@.len(),
                names@.len() == i,
                forall|k: int| 0 <= k < i ==> (#[trigger] names@[k])@ == self.rooms@[k].name@,
            decreases n - i,
        {
            names.push(copy_bytes(self.rooms[i].name.as_slice()));
            i += 1;
        }
        proof {
            assert(names@.map_values(|x: Vec<u8>| x@) =~= self@.rooms.map_values(
                |r: RoomV| r.name,
            ));
        }
        names
    }

    /// The deliveries a broadcast of this text to this room asks for: one
    /// per current member of the room, each carrying the text verbatim, and
    /// no other. A room with no entry yields none.
    pub fn broadcast(&self, room: &Vec<u8>, text: &Vec<u8>) -> (out: Vec<Delivery>)
        requires
            self.wf(),
        ensures
            forall|k: int|
                0 <= k < out@.len() ==> members_of(self@, room@).contains(
                    (#[trigger] out@[k]).to,
                ) && out@[k].text@ == text@,
            forall|x: u64|
                #[trigger] members_of(self@, room@).contains(x) ==> out@.map_values(
                    |d: Delivery| d.to,
                ).contains(x),
            out@.map_values(|d: Delivery| d.to).no_duplicates(),
    {
        let mut out: Vec<Delivery> = Vec::new();
        match find_room(&self.rooms, room.as_slice()) {
            None => {
                proof {
                    assert(!has_room(self@.rooms, room@)) by {
                        if has_room(self@.rooms, room@) {
                            let w = choose|w: int|
                                0 <= w < self@.rooms.len() && self@.rooms[w].name == room@;
                            assert(self.rooms@[w].name@ == room@);
                        }
                    }
                    assert(out@.map_values(|d: Delivery| d.to).no_duplicates());
                }
                out
            },
            Some(idx) => {
                proof {
                    assert(members_of(self@, room@) == self@.rooms[idx as int].members) by {
                        assert(has_room(self@.rooms, room@)) by {
                            assert(self@.rooms[idx as int].name == room@);
                        }
                        let w = choose|w: int|
                            0 <= w < self@.rooms.len() && self@.rooms[w].name == room@;
                        assert(self@.rooms[w].name == room@);
                        assert(self@.rooms[idx as int].name == room@);
                        if w != idx as int {
                            assert(self@.rooms[w].name != self@.rooms[idx as int].name);
                        }
                        assert(w == idx);
                    }
                }
                let mems = &self.rooms[idx].members;
                let n = mems.len();
                let mut i: usize = 0;
                while i < n
                    invariant
                        0 <= i <= n,
                        n == mems@.len(),
                        out@.len() == i,
                        forall|k: int|
                            0 <= k < i ==> (#[trigger] out@[k]).to == mems@[k] && out@[k].text@
                                == text@,
                    decreases n - i,
                {
                    out.push(Delivery { to: mems[i], text: copy_bytes(text.as_slice()) });
                    i += 1;
                }
                proof {
                    assert(out@.map_values(|d: Delivery| d.to) =~= mems@);
                    assert forall|x: u64| members_of(self@, room@).contains(x) implies out@.map_values(
                        |d: Delivery| d.to,
                    ).contains(x) by {
                        assert(mems@.to_set().contains(x));
                    }
                    assert forall|k: int| 0 <= k < out@.len() implies members_of(
                        self@,
                        room@,
                    ).contains((#[trigger] out@[k]).to) && out@[k].text@ == text@ by {
                        assert(mems@.contains(mems@[k]));
                    }
                }
                out
            },
        }
    }
}

} // verus!
