use vstd::prelude::*;

use crate::sound::SoundRef;
use crate::sound::SoundSpec;

verus! {

/// How many click events a listener session's outbound queue holds before
/// the oldest undelivered click is dropped: click cues are real-time, so a
/// stale click is worse than a dropped one.
pub const CLICK_QUEUE_CAPACITY: usize = 16;

/// A click broadcast into a room: which cue to play, and when the click
/// reached the ingress (milliseconds on the host's clock). Ephemeral:
/// constructed at ingress, consumed by fan-out, never persisted.
#[derive(Debug)]
pub struct ClickEvent {
    pub sound: SoundRef,
    pub timestamp: u64,
}

/// Mathematical shape of a `ClickEvent`.
#[verifier::ext_equal]
pub struct EventSpec {
    pub sound: SoundSpec,
    pub timestamp: u64,
}

impl View for ClickEvent {
    type V = EventSpec;

    open spec fn view(&self) -> EventSpec {
        EventSpec { sound: self.sound@, timestamp: self.timestamp }
    }
}

impl Clone for ClickEvent {
    fn clone(&self) -> (r: Self)
        ensures
            r == *self,
    {
        ClickEvent { sound: self.sound.clone(), timestamp: self.timestamp }
    }
}

/// Host-side state of one attached listener: its identity and the bounded
/// queue of events accepted for it but not yet written to its connection.
#[derive(Debug)]
pub struct ListenerSession {
    pub handle: u64,
    pub queue: Vec<ClickEvent>,
}

/// Mathematical shape of a `ListenerSession`.
#[verifier::ext_equal]
pub struct SessionModel {
    pub handle: u64,
    pub queue: Seq<EventSpec>,
}

impl View for ListenerSession {
    type V = SessionModel;

    open spec fn view(&self) -> SessionModel {
        SessionModel { handle: self.handle, queue: self.queue@.map_values(|e: ClickEvent| e@) }
    }
}

/// A named set of currently-attached listener sessions; fan-out delivers to
/// every member.
#[derive(Debug)]
pub struct Room {
    pub id: String,
    pub members: Vec<ListenerSession>,
}

/// Mathematical shape of a `Room`.
#[verifier::ext_equal]
pub struct RoomModel {
    pub id: Seq<char>,
    pub members: Seq<SessionModel>,
}

impl View for Room {
    type V = RoomModel;

    open spec fn view(&self) -> RoomModel {
        RoomModel { id: self.id@, members: self.members@.map_values(|m: ListenerSession| m@) }
    }
}

/// Maps room identifiers to live rooms: rooms are created on first attach,
/// removed as soon as their member set becomes empty, and handles are issued
/// from a counter so no two sessions ever share one.
#[derive(Debug)]
pub struct Registry {
    pub rooms: Vec<Room>,
    pub next_handle: u64,
}

/// Mathematical shape of a `Registry`.
#[verifier::ext_equal]
pub struct RegistryModel {
    pub rooms: Seq<RoomModel>,
    pub next_handle: u64,
}

impl View for Registry {
    type V = RegistryModel;

    open spec fn view(&self) -> RegistryModel {
        RegistryModel {
            rooms: self.rooms@.map_values(|r: Room| r@),
            next_handle: self.next_handle,
        }
    }
}

/// Some room in `rooms` carries the identifier `id`.
pub open spec fn has_room(rooms: Seq<RoomModel>, id: Seq<char>) -> bool {
    exists|i: int| 0 <= i < rooms.len() && rooms[i].id == id
}

/// The index of the room carrying `id`; meaningful only when `has_room`
/// holds and identifiers are distinct.
pub open spec fn room_index(rooms: Seq<RoomModel>, id: Seq<char>) -> int {
    choose|i: int| 0 <= i < rooms.len() && rooms[i].id == id
}

/// The member sessions of the room carrying `id`, or the empty sequence when
/// no such room exists.
pub open spec fn members_of(rooms: Seq<RoomModel>, id: Seq<char>) -> Seq<SessionModel> {
    if has_room(rooms, id) {
        rooms[room_index(rooms, id)].members
    } else {
        Seq::empty()
    }
}

/// Some member of `members` carries the handle `h`.
pub open spec fn has_member(members: Seq<SessionModel>, h: u64) -> bool {
    exists|j: int| 0 <= j < members.len() && members[j].handle == h
}

/// The index of the member carrying `h`; meaningful only when `has_member`
/// holds and handles are distinct.
pub open spec fn member_index(members: Seq<SessionModel>, h: u64) -> int {
    choose|j: int| 0 <= j < members.len() && members[j].handle == h
}

/// What a bounded-drop enqueue yields: the event is appended, and when the
/// queue is already full the oldest entry makes room for it.
pub open spec fn spec_push_bounded(q: Seq<EventSpec>, e: EventSpec) -> Seq<EventSpec> {
    if q.len() < CLICK_QUEUE_CAPACITY {
        q.push(e)
    } else {
        q.drop_first().push(e)
    }
}

/// What delivering one event to one session yields.
pub open spec fn spec_deliver(m: SessionModel, e: EventSpec) -> SessionModel {
    SessionModel { handle: m.handle, queue: spec_push_bounded(m.queue, e) }
}

/// What attaching a fresh session with handle `h` to the room `id` yields:
/// the room is created with that sole member if it did not exist, otherwise
/// the member joins the existing room.
pub open spec fn spec_attach(rooms: Seq<RoomModel>, id: Seq<char>, h: u64) -> Seq<RoomModel> {
    let fresh = SessionModel { handle: h, queue: Seq::empty() };
    if has_room(rooms, id) {
        let i = room_index(rooms, id);
        rooms.update(i, RoomModel { id: rooms[i].id, members: rooms[i].members.push(fresh) })
    } else {
        rooms.push(RoomModel { id: id, members: seq![fresh] })
    }
}

/// What detaching handle `h` from the room `id` yields: the member leaves its
/// room, the room disappears when it empties, and a room or handle that is
/// not present leaves everything unchanged.
pub open spec fn spec_detach(rooms: Seq<RoomModel>, id: Seq<char>, h: u64) -> Seq<RoomModel> {
    if has_room(rooms, id) {
        let i = room_index(rooms, id);
        let ms = rooms[i].members;
        if has_member(ms, h) {
            let j = member_index(ms, h);
            let remaining = ms.remove(j);
            if remaining.len() == 0 {
                rooms.remove(i)
            } else {
                rooms.update(i, RoomModel { id: rooms[i].id, members: remaining })
            }
        } else {
            rooms
        }
    } else {
        rooms
    }
}

/// What broadcasting `e` into the room `id` yields: every current member's
/// queue takes the event under the bounded-drop policy; an absent room drops
/// the click entirely.
pub open spec fn spec_broadcast(rooms: Seq<RoomModel>, id: Seq<char>, e: EventSpec) -> Seq<
    RoomModel,
> {
    if has_room(rooms, id) {
        let i = room_index(rooms, id);
        rooms.update(
            i,
            RoomModel {
                id: rooms[i].id,
                members: rooms[i].members.map_values(|m: SessionModel| spec_deliver(m, e)),
            },
        )
    } else {
        rooms
    }
}

/// What handing a member's queued events to its connection yields: the
/// member stays attached with an empty queue; an absent room or handle
/// changes nothing.
pub open spec fn spec_drain(rooms: Seq<RoomModel>, id: Seq<char>, h: u64) -> Seq<RoomModel> {
    if has_room(rooms, id) {
        let i = room_index(rooms, id);
        let ms = rooms[i].members;
        if has_member(ms, h) {
            let j = member_index(ms, h);
            rooms.update(
                i,
                RoomModel {
                    id: rooms[i].id,
                    members: ms.update(j, SessionModel { handle: h, queue: Seq::empty() }),
                },
            )
        } else {
            rooms
        }
    } else {
        rooms
    }
}

/// Well-formedness of the registry: room identifiers are nonempty and
/// distinct, a registered room always has at least one member, handles are
/// distinct within a room and below the issue counter, and every queue
/// respects its bound.
pub open spec fn rooms_wf(rooms: Seq<RoomModel>, next_handle: u64) -> bool {
    &&& forall|i: int| 0 <= i < rooms.len() ==> (#[trigger] rooms[i]).id.len() > 0
    &&& forall|i: int, k: int|
        0 <= i < rooms.len() && 0 <= k < rooms.len() && i != k ==> (#[trigger] rooms[i]).id != (
        #[trigger] rooms[k]).id
    &&& forall|i: int| 0 <= i < rooms.len() ==> (#[trigger] rooms[i]).members.len() > 0
    &&& forall|i: int, j: int|
        0 <= i < rooms.len() && 0 <= j < rooms[i].members.len() ==> (#[trigger] rooms[i].members[j]).handle
            < next_handle
    &&& forall|i: int, j1: int, j2: int|
        0 <= i < rooms.len() && 0 <= j1 < rooms[i].members.len() && 0 <= j2
            < rooms[i].members.len() && j1 != j2 ==> (#[trigger] rooms[i].members[j1]).handle != (
        #[trigger] rooms[i].members[j2]).handle
    &&& forall|i: int, j: int|
        0 <= i < rooms.len() && 0 <= j < rooms[i].members.len() ==> (#[trigger] rooms[i].members[j]).queue.len()
            <= CLICK_QUEUE_CAPACITY
}

impl RegistryModel {
    /// Well-formedness of the whole registry state.
    pub open spec fn wf(self) -> bool {
        rooms_wf(self.rooms, self.next_handle)
    }
}

impl Registry {
    /// Well-formedness, stated of the executable registry.
    pub open spec fn wf(self) -> bool {
        self@.wf()
    }

    /// A registry with no rooms and no handles issued yet.
    pub fn new() -> (r: Registry)
        ensures
            r.wf(),
            r@.rooms.len() == 0,
            r@.next_handle == 0,
    {
        Registry { rooms: Vec::new(), next_handle: 0 }
    }

    /// Find the index of the room carrying `room_id`, if any.
    fn find_room(&self, room_id: &String) -> (r: Option<usize>)
        ensures
            match r {
                Some(i) => 0 <= i < self@.rooms.len() && self@.rooms[i as int].id == room_id@,
                None => !has_room(self@.rooms, room_id@),
            },
    {
        let n = self.rooms.len();
        let mut i: usize = 0;
        while i < n
            invariant
                n == self.rooms@.len(),
                i <= n,
                forall|j: int| 0 <= j < i ==> self@.rooms[j].id != room_id@,
            decreases n - i,
        {
            if self.rooms[i].id == *room_id {
                return Some(i);
            }
            i = i + 1;
        }
        None
    }

    /// Open a new listener session in the room `room_id`, creating the room
    /// if this is its first member, and hand back the session's fresh handle.
    pub fn attach(&mut self, room_id: &String) -> (h: u64)
        requires
            old(self).wf(),
            room_id@.len() > 0,
            old(self).next_handle < u64::MAX,
        ensures
            final(self).wf(),
            h == old(self)@.next_handle,
            final(self)@.next_handle == old(self)@.next_handle + 1,
            final(self)@.rooms == spec_attach(old(self)@.rooms, room_id@, h),
            has_room(final(self)@.rooms, room_id@),
            members_of(final(self)@.rooms, room_id@) == members_of(old(self)@.rooms, room_id@).push(
                SessionModel { handle: h, queue: Seq::empty() },
            ),
    {
        let h = self.next_handle;
        self.next_handle = self.next_handle + 1;
        let session = ListenerSession { handle: h, queue: Vec::new() };
        let found = self.find_room(room_id);
        match found {
            Some(i) => {
                proof {
                    lemma_room_index_unique(old(self)@.rooms, room_id@, i as int);
                }
                self.rooms[i].members.push(session);
                proof {
                    assert(self@.rooms =~~= spec_attach(old(self)@.rooms, room_id@, h));
                    lemma_room_index_unique(self@.rooms, room_id@, i as int);
                }
            },
            None => {
                let mut members: Vec<ListenerSession> = Vec::new();
                members.push(session);
                self.rooms.push(Room { id: room_id.clone(), members });
                proof {
                    assert(self@.rooms =~~= spec_attach(old(self)@.rooms, room_id@, h));
                    lemma_room_index_unique(self@.rooms, room_id@, old(self)@.rooms.len() as int);
                }
            },
        }
        h
    }

    /// Remove the session `handle` from the room `room_id`; the room itself
    /// is removed once its member set becomes empty. Detaching a handle or a
    /// room that is not present is a no-op, never an error.
    pub fn detach(&mut self, room_id: &String, handle: u64)
        requires
            old(self).wf(),
        ensures
            final(self).wf(),
            final(self)@.next_handle == old(self)@.next_handle,
            final(self)@.rooms == spec_detach(old(self)@.rooms, room_id@, handle),
            !has_member(members_of(final(self)@.rooms, room_id@), handle),
            !has_member(members_of(old(self)@.rooms, room_id@), handle) ==> final(self)@.rooms
                == old(self)@.rooms,
    {
        let found = self.find_room(room_id);
        match found {
            None => {},
            Some(i) => {
                proof {
                    lemma_room_index_unique(old(self)@.rooms, room_id@, i as int);
                }
                let n = self.rooms[i].members.len();
                let mut j: usize = 0;
                while j < n
                    invariant
                        *self == *old(self),
                        self.wf(),
                        0 <= i < self.rooms@.len(),
                        self@.rooms[i as int].id == room_id@,
                        n == self.rooms@[i as int].members@.len(),
                        j <= n,
                        forall|k: int|
                            0 <= k < j ==> self@.rooms[i as int].members[k].handle != handle,
                    decreases n - j,
                {
                    if self.rooms[i].members[j].handle == handle {
                        proof {
                            lemma_member_index_unique(
                                old(self)@.rooms[i as int].members,
                                handle,
                                j as int,
                            );
                        }
                        self.rooms[i].members.remove(j);
                        if self.rooms[i].members.len() == 0 {
                            self.rooms.remove(i);
                            proof {
                                assert(self@.rooms =~~= spec_detach(
                                    old(self)@.rooms,
                                    room_id@,
                                    handle,
                                ));
                                lemma_detach_preserves_wf(old(self)@, room_id@, handle);
                            }
                        } else {
                            proof {
                                assert(self@.rooms =~~= spec_detach(
                                    old(self)@.rooms,
                                    room_id@,
                                    handle,
                                ));
                                lemma_detach_preserves_wf(old(self)@, room_id@, handle);
                            }
                        }
                        return ;
                    }
                    j = j + 1;
                }
            },
        }
    }

    /// Hand over everything queued for the session `handle` in the room
    /// `room_id`, in the order it was queued, leaving the queue empty. The
    /// serving task calls this to forward events to its connection. An
    /// absent room or handle yields nothing and changes nothing.
    pub fn drain(&mut self, room_id: &String, handle: u64) -> (events: Vec<ClickEvent>)
        requires
            old(self).wf(),
        ensures
            final(self).wf(),
            final(self)@.next_handle == old(self)@.next_handle,
            final(self)@.rooms == spec_drain(old(self)@.rooms, room_id@, handle),
            has_member(members_of(old(self)@.rooms, room_id@), handle) ==> events@.map_values(
                |e: ClickEvent| e@,
            ) == members_of(old(self)@.rooms, room_id@)[member_index(
                members_of(old(self)@.rooms, room_id@),
                handle,
            )].queue,
            !has_member(members_of(old(self)@.rooms, room_id@), handle) ==> events@.len() == 0
                && final(self)@.rooms == old(self)@.rooms,
    {
        let found = self.find_room(room_id);
        match found {
            None => {
                Vec::new()
            },
            Some(i) => {
                proof {
                    lemma_room_index_unique(old(self)@.rooms, room_id@, i as int);
                }
                let n = self.rooms[i].members.len();
                let mut j: usize = 0;
                while j < n
                    invariant
                        *self == *old(self),
                        self.wf(),
                        0 <= i < self.rooms@.len(),
                        self@.rooms[i as int].id == room_id@,
                        n == self.rooms@[i as int].members@.len(),
                        j <= n,
                        forall|k: int|
                            0 <= k < j ==> self@.rooms[i as int].members[k].handle != handle,
                    decreases n - j,
                {
                    if self.rooms[i].members[j].handle == handle {
                        proof {
                            lemma_member_index_unique(
                                old(self)@.rooms[i as int].members,
                                handle,
                                j as int,
                            );
                        }
                        let mut events: Vec<ClickEvent> = Vec::new();
                        core::mem::swap(&mut self.rooms[i].members[j].queue, &mut events);
                        proof {
                            assert(self@.rooms[i as int].members[j as int] =~~= (SessionModel {
                                handle: handle,
                                queue: Seq::empty(),
                            }));
                            assert(self@.rooms =~~= spec_drain(
                                old(self)@.rooms,
                                room_id@,
                                handle,
                            ));
                        }
                        return events;
                    }
                    j = j + 1;
                }
                Vec::new()
            },
        }
    }

    /// Broadcast `event` into the room `room_id`: every current member's
    /// outbound queue takes the event under the bounded-drop policy. A click
    /// into an absent room is dropped silently: that is the designed
    /// behaviour, not an error.
    pub fn broadcast(&mut self, room_id: &String, event: &ClickEvent)
        requires
            old(self).wf(),
        ensures
            final(self).wf(),
            final(self)@.next_handle == old(self)@.next_handle,
            final(self)@.rooms == spec_broadcast(old(self)@.rooms, room_id@, event@),
            !has_room(old(self)@.rooms, room_id@) ==> final(self)@.rooms == old(self)@.rooms,
    {
        let found = self.find_room(room_id);
        match found {
            None => {},
            Some(i) => {
                proof {
                    lemma_room_index_unique(old(self)@.rooms, room_id@, i as int);
                }
                let n = self.rooms[i].members.len();
                let mut j: usize = 0;
                while j < n
                    invariant
                        old(self).wf(),
                        0 <= i < self.rooms@.len(),
                        self.rooms@.len() == old(self).rooms@.len(),
                        self@.rooms[i as int].id == room_id@,
                        n == self.rooms@[i as int].members@.len(),
                        n == old(self)@.rooms[i as int].members.len(),
                        j <= n,
                        self.next_handle == old(self).next_handle,
                        forall|k: int|
                            0 <= k < self.rooms@.len() && k != i ==> self@.rooms[k] == old(
                                self,
                            )@.rooms[k],
                        forall|k: int|
                            0 <= k < j ==> self@.rooms[i as int].members[k] == spec_deliver(
                                old(self)@.rooms[i as int].members[k],
                                event@,
                            ),
                        forall|k: int|
                            j <= k < n ==> self@.rooms[i as int].members[k] == old(
                                self,
                            )@.rooms[i as int].members[k],
                    decreases n - j,
                {
                    let ghost pre = *self;
                    if self.rooms[i].members[j].queue.len() == CLICK_QUEUE_CAPACITY {
                        self.rooms[i].members[j].queue.remove(0);
                        self.rooms[i].members[j].queue.push(event.clone());
                    } else {
                        self.rooms[i].members[j].queue.push(event.clone());
                    }
                    proof {
                        assert(self@.rooms[i as int].members[j as int] =~~= spec_deliver(
                            pre@.rooms[i as int].members[j as int],
                            event@,
                        ));
                        assert(self@.rooms[i as int].members =~~= pre@.rooms[
                            i as int
                        ].members.update(j as int, self@.rooms[i as int].members[j as int]));
                    }
                    j = j + 1;
                }
                proof {
                    assert(self@.rooms =~~= spec_broadcast(old(self)@.rooms, room_id@, event@));
                }
            },
        }
    }
}

/// When room identifiers are distinct, the index found for `id` is the one
/// `room_index` denotes.
proof fn lemma_room_index_unique(rooms: Seq<RoomModel>, id: Seq<char>, i: int)
    requires
        forall|a: int, b: int|
            0 <= a < rooms.len() && 0 <= b < rooms.len() && a != b ==> (#[trigger] rooms[a]).id != (
            #[trigger] rooms[b]).id,
        0 <= i < rooms.len(),
        rooms[i].id == id,
    ensures
        has_room(rooms, id),
        room_index(rooms, id) == i,
        members_of(rooms, id) == rooms[i].members,
{
    assert(has_room(rooms, id));
    let w = room_index(rooms, id);
    assert(0 <= w < rooms.len() && rooms[w].id == id);
    if w != i {
        assert(rooms[w].id != rooms[i].id);
    }
}

/// When member handles are distinct, the index found for `h` is the one
/// `member_index` denotes.
proof fn lemma_member_index_unique(members: Seq<SessionModel>, h: u64, j: int)
    requires
        forall|a: int, b: int|
            0 <= a < members.len() && 0 <= b < members.len() && a != b ==> (
            #[trigger] members[a]).handle != (#[trigger] members[b]).handle,
        0 <= j < members.len(),
        members[j].handle == h,
    ensures
        has_member(members, h),
        member_index(members, h) == j,
{
    assert(has_member(members, h));
    let w = member_index(members, h);
    assert(0 <= w < members.len() && members[w].handle == h);
    if w != j {
        assert(members[w].handle != members[j].handle);
    }
}

/// Detaching preserves well-formedness.
proof fn lemma_detach_preserves_wf(m: RegistryModel, id: Seq<char>, h: u64)
    requires
        m.wf(),
    ensures
        rooms_wf(spec_detach(m.rooms, id, h), m.next_handle),
{
}

/// Broadcasting preserves well-formedness.
pub proof fn lemma_broadcast_preserves_wf(
    rooms: Seq<RoomModel>,
    next_handle: u64,
    id: Seq<char>,
    e: EventSpec,
)
    requires
        rooms_wf(rooms, next_handle),
    ensures
        rooms_wf(spec_broadcast(rooms, id, e), next_handle),
{
}

/// A room exists in the registry if and only if its member count is greater
/// than zero: rooms are created with their first member and removed as soon
/// as the last one leaves.
pub proof fn lemma_room_exists_iff_members(
    rooms: Seq<RoomModel>,
    next_handle: u64,
    id: Seq<char>,
)
    requires
        rooms_wf(rooms, next_handle),
    ensures
        has_room(rooms, id) <==> members_of(rooms, id).len() > 0,
{
    if has_room(rooms, id) {
        let i = room_index(rooms, id);
        assert(0 <= i < rooms.len() && rooms[i].id == id);
        assert(rooms[i].members.len() > 0);
    }
}

/// A click broadcast to a room with attached, unsaturated listeners delivers
/// exactly one event to every member, appended after the events already
/// queued for it, and leaves every other room untouched.
pub proof fn lemma_broadcast_delivers_once(
    rooms: Seq<RoomModel>,
    next_handle: u64,
    id: Seq<char>,
    e: EventSpec,
)
    requires
        rooms_wf(rooms, next_handle),
        has_room(rooms, id),
        forall|j: int|
            0 <= j < members_of(rooms, id).len() ==> (#[trigger] members_of(rooms, id)[j]).queue.len()
                < CLICK_QUEUE_CAPACITY,
    ensures
        members_of(spec_broadcast(rooms, id, e), id).len() == members_of(rooms, id).len(),
        forall|j: int|
            0 <= j < members_of(rooms, id).len() ==> (#[trigger] members_of(
                spec_broadcast(rooms, id, e),
                id,
            )[j]).queue == members_of(rooms, id)[j].queue.push(e),
        forall|j: int|
            0 <= j < members_of(rooms, id).len() ==> (#[trigger] members_of(
                spec_broadcast(rooms, id, e),
                id,
            )[j]).handle == members_of(rooms, id)[j].handle,
        forall|k: int|
            0 <= k < rooms.len() && rooms[k].id != id ==> (#[trigger] spec_broadcast(
                rooms,
                id,
                e,
            )[k]) == rooms[k],
{
    let i = room_index(rooms, id);
    assert(0 <= i < rooms.len() && rooms[i].id == id);
    let after = spec_broadcast(rooms, id, e);
    assert(forall|a: int| 0 <= a < after.len() ==> (#[trigger] after[a]).id == rooms[a].id);
    assert(forall|a: int, b: int|
        0 <= a < after.len() && 0 <= b < after.len() && a != b ==> (#[trigger] after[a]).id != (
        #[trigger] after[b]).id);
    lemma_room_index_unique(after, id, i);
}

/// Two clicks broadcast into the same room reach every member in the order
/// they were issued, appended after the member's earlier events, so long as
/// no queue saturates.
pub proof fn lemma_broadcast_order(
    rooms: Seq<RoomModel>,
    next_handle: u64,
    id: Seq<char>,
    e1: EventSpec,
    e2: EventSpec,
)
    requires
        rooms_wf(rooms, next_handle),
        has_room(rooms, id),
        forall|j: int|
            0 <= j < members_of(rooms, id).len() ==> (#[trigger] members_of(rooms, id)[j]).queue.len()
                + 1 < CLICK_QUEUE_CAPACITY,
    ensures
        members_of(spec_broadcast(spec_broadcast(rooms, id, e1), id, e2), id).len() == members_of(
            rooms,
            id,
        ).len(),
        forall|j: int|
            0 <= j < members_of(rooms, id).len() ==> (#[trigger] members_of(
                spec_broadcast(spec_broadcast(rooms, id, e1), id, e2),
                id,
            )[j]).queue == members_of(rooms, id)[j].queue.push(e1).push(e2),
{
    let mid = spec_broadcast(rooms, id, e1);
    lemma_broadcast_preserves_wf(rooms, next_handle, id, e1);
    lemma_broadcast_delivers_once(rooms, next_handle, id, e1);
    let i = room_index(rooms, id);
    assert(0 <= i < rooms.len() && rooms[i].id == id);
    assert(mid[i].id == id);
    assert(has_room(mid, id));
    lemma_broadcast_delivers_once(mid, next_handle, id, e2);
}

/// A click broadcast under an identifier whose room has no members changes
/// nothing at all: no delivery happens and no error arises.
pub proof fn lemma_broadcast_zero_members(
    rooms: Seq<RoomModel>,
    next_handle: u64,
    id: Seq<char>,
    e: EventSpec,
)
    requires
        rooms_wf(rooms, next_handle),
        members_of(rooms, id).len() == 0,
    ensures
        spec_broadcast(rooms, id, e) == rooms,
{
    lemma_room_exists_iff_members(rooms, next_handle, id);
}

/// Detaching the same handle from the same room twice: the second detach is
/// a no-op, whatever the first one did.
pub proof fn lemma_detach_idempotent(
    rooms: Seq<RoomModel>,
    next_handle: u64,
    id: Seq<char>,
    h: u64,
)
    requires
        rooms_wf(rooms, next_handle),
    ensures
        spec_detach(spec_detach(rooms, id, h), id, h) == spec_detach(rooms, id, h),
{
    let once = spec_detach(rooms, id, h);
    if has_room(rooms, id) {
        let i = room_index(rooms, id);
        assert(0 <= i < rooms.len() && rooms[i].id == id);
        let ms = rooms[i].members;
        if has_member(ms, h) {
            let j = member_index(ms, h);
            assert(0 <= j < ms.len() && ms[j].handle == h);
            let remaining = ms.remove(j);
            assert(forall|k: int|
                0 <= k < remaining.len() ==> #[trigger] remaining[k] == if k < j {
                    ms[k]
                } else {
                    ms[k + 1]
                });
            assert(!has_member(remaining, h));
            if remaining.len() == 0 {
                assert(once == rooms.remove(i));
                assert(forall|k: int|
                    0 <= k < once.len() ==> #[trigger] once[k] == if k < i {
                        rooms[k]
                    } else {
                        rooms[k + 1]
                    });
                assert(!has_room(once, id));
            } else {
                assert(once == rooms.update(i, RoomModel { id: rooms[i].id, members: remaining }));
                assert(forall|a: int, b: int|
                    0 <= a < once.len() && 0 <= b < once.len() && a != b ==> (
                    #[trigger] once[a]).id != (#[trigger] once[b]).id);
                lemma_room_index_unique(once, id, i);
                assert(members_of(once, id) == remaining);
            }
        }
    }
}

} // verus!
