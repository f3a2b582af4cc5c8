//! In-memory shared aggregate: rooms of plants behind one coarse lock.
//!
//! [`SharedAggregateStore`] is the in-memory alternative to the keyed
//! persistent store: a single nested structure — an ordered collection of
//! rooms, each owning its plants by value — that the embedding application
//! guards with exactly one mutual-exclusion lock. Every operation here is
//! one short critical section on the owned structure, so operations are
//! strictly serialized by the lock and every concurrent history equals the
//! serial application of its operations in lock-acquisition order (see
//! [`lemma_ops_compose`]).

use vstd::prelude::*;
use crate::models::Plant;
use crate::models::PlantView;
use crate::models::set_humidity_of;

verus! {

/// Mathematical value of a [`Room`].
pub struct RoomView {
    pub name: Seq<char>,
    pub plants: Seq<PlantView>,
}

/// A named room owning an ordered collection of plants by value: in the
/// in-memory model a plant lives inside exactly one room's collection.
#[derive(Debug, Clone, PartialEq)]
pub struct Room {
    pub name: String,
    pub plants: Vec<Plant>,
}

impl View for Room {
    type V = RoomView;

    open spec fn view(&self) -> RoomView {
        RoomView { name: self.name@, plants: self.plants@.map_values(|p: Plant| p@) }
    }
}

impl Room {
    /// An owned copy whose abstract value equals this room's.
    pub fn duplicate(&self) -> (r: Room)
        ensures
            r@ == self@,
    {
        let mut plants: Vec<Plant> = Vec::new();
        let n = self.plants.len();
        let mut i: usize = 0;
        while i < n
            invariant
                n == self.plants@.len(),
                i <= n,
                plants@.map_values(|p: Plant| p@) == self@.plants.subrange(0, i as int),
            decreases n - i,
        {
            let p = self.plants[i].duplicate();
            proof {
                assert(plants@.push(p).map_values(|q: Plant| q@) =~= plants@.map_values(
                    |q: Plant| q@,
                ).push(p@));
                assert(self@.plants.subrange(0, i + 1 as int) =~= self@.plants.subrange(
                    0,
                    i as int,
                ).push(self@.plants[i as int]));
            }
            plants.push(p);
            i += 1;
        }
        proof {
            assert(self@.plants.subrange(0, n as int) =~= self@.plants);
        }
        Room { name: self.name.clone(), plants }
    }

    /// Position of the first plant in this room carrying `name`, if any.
    pub fn first_plant_named(&self, name: &String) -> (r: Option<usize>)
        ensures
            match r {
                Option::Some(j) => {
                    &&& 0 <= j < self@.plants.len()
                    &&& self@.plants[j as int].name == name@
                    &&& forall|k: int| 0 <= k < j ==> self@.plants[k].name != name@
                },
                Option::None => !room_contains_name(self@, name@),
            },
    {
        let n = self.plants.len();
        let mut i: usize = 0;
        while i < n
            invariant
                n == self.plants@.len(),
                i <= n,
                forall|k: int| 0 <= k < i ==> self@.plants[k].name != name@,
            decreases n - i,
        {
            if self.plants[i].name == *name {
                return Option::Some(i);
            }
            i += 1;
        }
        Option::None
    }
}

/// Some plant in room `r` is named `name`.
pub open spec fn room_contains_name(r: RoomView, name: Seq<char>) -> bool {
    exists|j: int| 0 <= j < r.plants.len() && r.plants[j].name == name
}

/// Some room of the aggregate holds a plant named `name`. A name is not
/// globally unique: lookups act on the first match in room-then-plant
/// iteration order.
pub open spec fn aggregate_contains_name(rooms: Seq<RoomView>, name: Seq<char>) -> bool {
    exists|i: int| 0 <= i < rooms.len() && room_contains_name(rooms[i], name)
}

/// `plants` with the measured humidity of the first plant named `name`
/// replaced by `value`; unchanged when no plant matches.
pub open spec fn update_plants_by_name(plants: Seq<PlantView>, name: Seq<char>, value: u32) -> Seq<
    PlantView,
>
    decreases plants.len(),
{
    if plants.len() == 0 {
        plants
    } else if plants[0].name == name {
        seq![set_humidity_of(plants[0], value)] + plants.subrange(1, plants.len() as int)
    } else {
        seq![plants[0]] + update_plants_by_name(
            plants.subrange(1, plants.len() as int),
            name,
            value,
        )
    }
}

/// A room with the first plant named `name` updated to humidity `value`.
pub open spec fn update_room_by_name(r: RoomView, name: Seq<char>, value: u32) -> RoomView {
    RoomView { name: r.name, plants: update_plants_by_name(r.plants, name, value) }
}

/// The aggregate after `updateHumidityByName`: a linear scan across rooms,
/// then across each room's plants, in iteration order; the first match has
/// its humidity replaced in place, and absence of a match is a silent
/// no-op.
pub open spec fn update_rooms_by_name(rooms: Seq<RoomView>, name: Seq<char>, value: u32) -> Seq<
    RoomView,
>
    decreases rooms.len(),
{
    if rooms.len() == 0 {
        rooms
    } else if room_contains_name(rooms[0], name) {
        seq![update_room_by_name(rooms[0], name, value)] + rooms.subrange(1, rooms.len() as int)
    } else {
        seq![rooms[0]] + update_rooms_by_name(rooms.subrange(1, rooms.len() as int), name, value)
    }
}

/// One serialized operation on the aggregate.
pub enum AggregateOp {
    AddRoom(RoomView),
    UpdateHumidityByName(Seq<char>, u32),
}

/// The state reached by one operation run under the lock.
pub open spec fn apply_op(rooms: Seq<RoomView>, op: AggregateOp) -> Seq<RoomView> {
    match op {
        AggregateOp::AddRoom(r) => rooms.push(r),
        AggregateOp::UpdateHumidityByName(name, value) => update_rooms_by_name(
            rooms,
            name,
            value,
        ),
    }
}

/// The state reached by a sequence of operations, applied in order.
pub open spec fn apply_ops(rooms: Seq<RoomView>, ops: Seq<AggregateOp>) -> Seq<RoomView>
    decreases ops.len(),
{
    if ops.len() == 0 {
        rooms
    } else {
        apply_ops(apply_op(rooms, ops[0]), ops.subrange(1, ops.len() as int))
    }
}

/// Lock serialization: the aggregate's operations compose sequentially, so
/// the state after any history of operations — each an atomic critical
/// section under the single lock — is exactly the serial application of
/// those operations in lock-acquisition order, split at any point. Since
/// [`SharedAggregateStore::add_room`] and
/// [`SharedAggregateStore::update_humidity_by_name`] each ensure that the
/// new state is `apply_op` of the old, any interleaving of callers yields
/// the final snapshot of some serial execution order.
pub proof fn lemma_ops_compose(rooms: Seq<RoomView>, ops1: Seq<AggregateOp>, ops2: Seq<
    AggregateOp,
>)
    ensures
        apply_ops(rooms, ops1 + ops2) == apply_ops(apply_ops(rooms, ops1), ops2),
    decreases ops1.len(),
{
    if ops1.len() == 0 {
        assert(ops1 + ops2 =~= ops2);
    } else {
        assert((ops1 + ops2).subrange(1, (ops1 + ops2).len() as int) =~= ops1.subrange(
            1,
            ops1.len() as int,
        ) + ops2);
        lemma_ops_compose(apply_op(rooms, ops1[0]), ops1.subrange(1, ops1.len() as int), ops2);
    }
}

/// Idempotent no-op: updating the humidity of a name that no room holds
/// leaves the aggregate's state exactly equal to its pre-call value.
pub proof fn lemma_update_missing_name_noop(rooms: Seq<RoomView>, name: Seq<char>, value: u32)
    requires
        !aggregate_contains_name(rooms, name),
    ensures
        update_rooms_by_name(rooms, name, value) == rooms,
    decreases rooms.len(),
{
    if rooms.len() > 0 {
        let tail = rooms.subrange(1, rooms.len() as int);
        assert(!room_contains_name(rooms[0], name));
        assert forall|i: int| 0 <= i < tail.len() implies !room_contains_name(tail[i], name) by {
            assert(tail[i] == rooms[i + 1]);
        }
        lemma_update_missing_name_noop(tail, name, value);
        assert(seq![rooms[0]] + tail =~= rooms);
    }
}

/// When the first room holding `name` sits at position `i`, the update
/// rewrites exactly that room and leaves every other one in place.
pub proof fn lemma_rooms_update_first(rooms: Seq<RoomView>, name: Seq<char>, value: u32, i: int)
    requires
        0 <= i < rooms.len(),
        room_contains_name(rooms[i], name),
        forall|j: int| 0 <= j < i ==> !room_contains_name(rooms[j], name),
    ensures
        update_rooms_by_name(rooms, name, value) == rooms.update(
            i,
            update_room_by_name(rooms[i], name, value),
        ),
    decreases i,
{
    let tail = rooms.subrange(1, rooms.len() as int);
    if i == 0 {
        assert(seq![update_room_by_name(rooms[0], name, value)] + tail =~= rooms.update(
            0,
            update_room_by_name(rooms[0], name, value),
        ));
    } else {
        lemma_rooms_update_first(tail, name, value, i - 1);
        assert(seq![rooms[0]] + tail.update(i - 1, update_room_by_name(tail[i - 1], name, value))
            =~= rooms.update(i, update_room_by_name(rooms[i], name, value)));
    }
}

/// When the first plant named `name` sits at position `k`, the update
/// rewrites exactly that plant and leaves every other one in place.
pub proof fn lemma_plants_update_first(plants: Seq<PlantView>, name: Seq<char>, value: u32, k: int)
    requires
        0 <= k < plants.len(),
        plants[k].name == name,
        forall|j: int| 0 <= j < k ==> plants[j].name != name,
    ensures
        update_plants_by_name(plants, name, value) == plants.update(
            k,
            set_humidity_of(plants[k], value),
        ),
    decreases k,
{
    let tail = plants.subrange(1, plants.len() as int);
    if k == 0 {
        assert(seq![set_humidity_of(plants[0], value)] + tail =~= plants.update(
            0,
            set_humidity_of(plants[0], value),
        ));
    } else {
        lemma_plants_update_first(tail, name, value, k - 1);
        assert(seq![plants[0]] + tail.update(k - 1, set_humidity_of(tail[k - 1], value))
            =~= plants.update(k, set_humidity_of(plants[k], value)));
    }
}

/// The single in-memory aggregate shared by all callers. The embedding
/// application wraps it in exactly one mutual-exclusion lock — no partial
/// locking of individual rooms or plants — and holds that lock for the
/// duration of each operation below and no longer.
pub struct SharedAggregateStore {
    rooms: Vec<Room>,
}

impl View for SharedAggregateStore {
    type V = Seq<RoomView>;

    closed spec fn view(&self) -> Seq<RoomView> {
        self.rooms@.map_values(|r: Room| r@)
    }
}

impl SharedAggregateStore {
    /// An aggregate with no rooms.
    pub fn new() -> (r: SharedAggregateStore)
        ensures
            r@.len() == 0,
    {
        SharedAggregateStore { rooms: Vec::new() }
    }

    /// A fully consistent copy of the entire aggregate: readers never see
    /// a partially updated state.
    pub fn snapshot(&self) -> (snap: Vec<Room>)
        ensures
            snap@.map_values(|r: Room| r@) == self@,
    {
        let mut snap: Vec<Room> = Vec::new();
        let n = self.rooms.len();
        let mut i: usize = 0;
        while i < n
            invariant
                n == self.rooms@.len(),
                i <= n,
                snap@.map_values(|r: Room| r@) == self@.subrange(0, i as int),
            decreases n - i,
        {
            let room = self.rooms[i].duplicate();
            proof {
                assert(snap@.push(room).map_values(|r: Room| r@) =~= snap@.map_values(
                    |r: Room| r@,
                ).push(room@));
                assert(self@.subrange(0, i + 1 as int) =~= self@.subrange(0, i as int).push(
                    self@[i as int],
                ));
            }
            snap.push(room);
            i += 1;
        }
        proof {
            assert(self@.subrange(0, n as int) =~= self@);
        }
        snap
    }

    /// Append a room to the aggregate and return the post-mutation
    /// snapshot.
    pub fn add_room(&mut self, room: Room) -> (snap: Vec<Room>)
        ensures
            final(self)@ == apply_op(old(self)@, AggregateOp::AddRoom(room@)),
            snap@.map_values(|r: Room| r@) == final(self)@,
    {
        proof {
            assert(self.rooms@.push(room).map_values(|r: Room| r@) =~= self@.push(room@));
        }
        self.rooms.push(room);
        self.snapshot()
    }

    /// Set the measured humidity of the first plant named `name` — in
    /// room-then-plant iteration order — to `value`, and return the
    /// post-mutation snapshot. A name that no room holds is a silent
    /// no-op: the state is left exactly equal to its pre-call value.
    pub fn update_humidity_by_name(&mut self, name: &String, value: u32) -> (snap: Vec<Room>)
        ensures
            final(self)@ == apply_op(
                old(self)@,
                AggregateOp::UpdateHumidityByName(name@, value),
            ),
            snap@.map_values(|r: Room| r@) == final(self)@,
    {
        let n = self.rooms.len();
        let mut i: usize = 0;
        while i < n
            invariant
                n == self.rooms@.len(),
                i <= n,
                self@ == old(self)@,
                forall|j: int| 0 <= j < i ==> !room_contains_name(self@[j], name@),
            decreases n - i,
        {
            match self.rooms[i].first_plant_named(name) {
                Option::Some(j) => {
                    let updated_plant = self.rooms[i].plants[j].with_humidity(value);
                    let mut room_copy = self.rooms[i].duplicate();
                    proof {
                        lemma_plants_update_first(self@[i as int].plants, name@, value, j as int);
                        assert(room_copy.plants@.update(j as int, updated_plant).map_values(
                            |p: Plant| p@,
                        ) =~= self@[i as int].plants.update(
                            j as int,
                            set_humidity_of(self@[i as int].plants[j as int], value),
                        ));
                        lemma_rooms_update_first(self@, name@, value, i as int);
                    }
                    room_copy.plants.set(j, updated_plant);
                    proof {
                        assert(room_copy@ == update_room_by_name(self@[i as int], name@, value));
                        assert(self.rooms@.update(i as int, room_copy).map_values(|r: Room| r@)
                            =~= self@.update(i as int, room_copy@));
                    }
                    self.rooms.set(i, room_copy);
                    return self.snapshot();
                },
                Option::None => {
                    i += 1;
                },
            }
        }
        proof {
            lemma_update_missing_name_noop(self@, name@, value);
        }
        self.snapshot()
    }
}

} // verus!
