//! Data model of the map: rooms, directions, grid positions and the
//! per-room connection table that the generator fills in.

pub mod adjacency;
pub mod generate_map;
pub mod manifest;
pub mod map_navigation;
mod rng;

pub use generate_map::GenerateMap;
pub use map_navigation::{ChangeRoom, MapRoomIndex};

use vstd::prelude::*;

verus! {

/// Unique identifier of a room; id 0 always denotes the entrance.
#[derive(Clone, Copy, PartialEq, Eq, Structural, Hash, Debug)]
pub struct RoomId(pub u8);

/// The directions that a room can connect in.
#[derive(Clone, Copy, PartialEq, Eq, Structural, Hash, Debug)]
pub enum RoomConnectionDirection {
    North,
    East,
    South,
    West,
}

/// A cell of the integer grid that rooms are placed on.
#[derive(Clone, Copy, PartialEq, Eq, Structural, Hash, Debug)]
pub struct GridPos {
    pub x: i32,
    pub y: i32,
}

/// A reusable room template: its name and the cardinal directions through
/// which a room of this type may connect to a neighbor.
#[derive(Debug)]
pub struct RoomDefinition {
    pub room_name: String,
    pub allowed_directions: Vec<RoomConnectionDirection>,
}

/// The finalized connection table of one room: for each direction, the id of
/// the neighboring room reachable that way, if any.
#[derive(Clone, Copy, PartialEq, Eq, Debug)]
pub struct Connections {
    pub north: Option<RoomId>,
    pub east: Option<RoomId>,
    pub south: Option<RoomId>,
    pub west: Option<RoomId>,
}

impl Connections {
    /// The entry recorded for direction `d`.
    pub open spec fn spec_get(self, d: RoomConnectionDirection) -> Option<RoomId> {
        match d {
            RoomConnectionDirection::North => self.north,
            RoomConnectionDirection::East => self.east,
            RoomConnectionDirection::South => self.south,
            RoomConnectionDirection::West => self.west,
        }
    }

    /// A table with no connections at all.
    pub fn empty() -> (c: Connections)
        ensures
            forall|d: RoomConnectionDirection| c.spec_get(d) is None,
    {
        Connections { north: None, east: None, south: None, west: None }
    }

    /// The neighboring room id in direction `d`, if a connection was recorded.
    pub fn get(&self, d: RoomConnectionDirection) -> (r: Option<RoomId>)
        ensures
            r == self.spec_get(d),
    {
        match d {
            RoomConnectionDirection::North => self.north,
            RoomConnectionDirection::East => self.east,
            RoomConnectionDirection::South => self.south,
            RoomConnectionDirection::West => self.west,
        }
    }

    /// Whether some direction of this table leads to room `id`.
    pub fn contains_room(&self, id: RoomId) -> (r: bool)
        ensures
            r == exists|d: RoomConnectionDirection| self.spec_get(d) == Some(id),
    {
        let found = matches!(self.north, Some(n) if n == id)
            || matches!(self.east, Some(n) if n == id)
            || matches!(self.south, Some(n) if n == id)
            || matches!(self.west, Some(n) if n == id);
        proof {
            if found {
                if self.north == Some(id) {
                    assert(self.spec_get(RoomConnectionDirection::North) == Some(id));
                } else if self.east == Some(id) {
                    assert(self.spec_get(RoomConnectionDirection::East) == Some(id));
                } else if self.south == Some(id) {
                    assert(self.spec_get(RoomConnectionDirection::South) == Some(id));
                } else {
                    assert(self.spec_get(RoomConnectionDirection::West) == Some(id));
                }
            } else {
                assert forall|d: RoomConnectionDirection| self.spec_get(d) != Some(id) by {
                    match d {
                        RoomConnectionDirection::North => assert(self.north != Some(id)),
                        RoomConnectionDirection::East => assert(self.east != Some(id)),
                        RoomConnectionDirection::South => assert(self.south != Some(id)),
                        RoomConnectionDirection::West => assert(self.west != Some(id)),
                    }
                }
            }
        }
        found
    }
}

/// A room placed by the generator: where it sits, its identity, which catalog
/// definition it uses, and (after the derivation pass) its connection table.
#[derive(Clone, Copy, Debug)]
pub struct PlacedRoom {
    pub grid_position: GridPos,
    pub room_id: RoomId,
    pub def_index: usize,
    pub connections: Connections,
}

/// Why a generation attempt failed; generation is all-or-nothing, so any of
/// these aborts the whole attempt.
#[derive(Clone, Copy, PartialEq, Eq, Structural, Debug)]
pub enum MapGenerationError {
    /// The requested room count was zero.
    InvalidRoomCount,
    /// The room catalog holds no definitions at all.
    CatalogEmpty,
    /// The catalog holds no definition named "entrance".
    MissingEntranceType,
    /// A name lookup found no definition of that name.
    UnknownRoomType,
    /// No compatible slot was found within the allowed retry budget.
    GenerationStalled,
}

/// A persistent room of the house: its connection table and the catalog
/// index of its definition.
#[derive(Clone, Copy, PartialEq, Eq, Debug)]
pub struct Room {
    pub connections: Connections,
    pub room_def_id: usize,
}

/// The aggregate owning all instantiated rooms, keyed by room id: slot `i`
/// of `rooms` holds the room with id `i`, once it has been spawned.
pub struct House {
    pub rooms: Vec<Option<Room>>,
    pub focused: Option<RoomId>,
}

impl House {
    /// A house with no rooms spawned yet and nothing focused.
    pub fn new() -> (h: House)
        ensures
            h.rooms@.len() == 0,
            h.focused is None,
    {
        House { rooms: Vec::new(), focused: None }
    }

    /// The room with the given id, if it has been spawned.
    pub fn get(&self, id: RoomId) -> (r: Option<&Room>)
        ensures
            match r {
                Some(room) => id.0 < self.rooms@.len() && self.rooms@[id.0 as int] == Some(*room),
                None => id.0 >= self.rooms@.len() || self.rooms@[id.0 as int] is None,
            },
    {
        if (id.0 as usize) < self.rooms.len() {
            match &self.rooms[id.0 as usize] {
                Some(room) => Some(room),
                None => None,
            }
        } else {
            None
        }
    }
}

/// A request to register one generated room with the house; the room with
/// id 0 becomes the initially focused room.
pub struct SpawnRoom {
    pub room_id: RoomId,
    pub room_connections: Connections,
    pub room_def_id: usize,
}

impl SpawnRoom {
    /// Registers the room in the house under its id, growing the id-indexed
    /// table as needed; all other slots are left as they were.
    pub fn apply(self, house: &mut House)
        ensures
            final(house).rooms@.len() == if old(house).rooms@.len() > self.room_id.0 as int + 1 {
                old(house).rooms@.len() as int
            } else {
                self.room_id.0 as int + 1
            },
            final(house).rooms@[self.room_id.0 as int] == Some(
                Room { connections: self.room_connections, room_def_id: self.room_def_id },
            ),
            forall|j: int|
                0 <= j < old(house).rooms@.len() && j != self.room_id.0 as int
                    ==> final(house).rooms@[j] == old(house).rooms@[j],
            forall|j: int|
                old(house).rooms@.len() <= j < final(house).rooms@.len() && j != self.room_id.0
                    as int ==> final(house).rooms@[j] is None,
            final(house).focused == if self.room_id.0 == 0 {
                Some(RoomId(0))
            } else {
                old(house).focused
            },
    {
        let id = self.room_id.0 as usize;
        while house.rooms.len() <= id
            invariant
                old(house).rooms@.len() <= house.rooms@.len(),
                house.rooms@.len() <= id + 1 || house.rooms@.len() == old(house).rooms@.len(),
                house.focused == old(house).focused,
                forall|j: int|
                    0 <= j < old(house).rooms@.len() ==> house.rooms@[j] == old(house).rooms@[j],
                forall|j: int|
                    old(house).rooms@.len() <= j < house.rooms@.len() ==> house.rooms@[j] is None,
            decreases id + 1 - house.rooms@.len(),
        {
            house.rooms.push(None);
        }
        house.rooms.set(
            id,
            Some(Room { connections: self.room_connections, room_def_id: self.room_def_id }),
        );
        if self.room_id.0 == 0 {
            house.focused = Some(RoomId(0));
        }
    }
}

/// The instantiation hand-off: registers every generated room with a fresh
/// house, one spawn request per room, and focuses the entrance.
pub fn build_house(rooms: &Vec<PlacedRoom>) -> (h: House)
    requires
        forall|i: int| 0 <= i < rooms@.len() ==> (#[trigger] rooms@[i]).room_id.0 == i,
    ensures
        h.rooms@.len() == rooms@.len(),
        forall|i: int|
            0 <= i < rooms@.len() ==> h.rooms@[i] == Some(
                Room {
                    connections: (#[trigger] rooms@[i]).connections,
                    room_def_id: rooms@[i].def_index,
                },
            ),
        h.focused == if rooms@.len() > 0 {
            Some(RoomId(0))
        } else {
            None::<RoomId>
        },
{
    let mut h = House::new();
    let mut i: usize = 0;
    while i < rooms.len()
        invariant
            forall|k: int| 0 <= k < rooms@.len() ==> (#[trigger] rooms@[k]).room_id.0 == k,
            i <= rooms@.len(),
            h.rooms@.len() == i,
            forall|k: int|
                0 <= k < i ==> h.rooms@[k] == Some(
                    Room {
                        connections: (#[trigger] rooms@[k]).connections,
                        room_def_id: rooms@[k].def_index,
                    },
                ),
            h.focused == if i > 0 {
                Some(RoomId(0))
            } else {
                None::<RoomId>
            },
        decreases rooms@.len() - i,
    {
        let room = &rooms[i];
        SpawnRoom {
            room_id: room.room_id,
            room_connections: room.connections,
            room_def_id: room.def_index,
        }.apply(&mut h);
        i += 1;
    }
    h
}

} // verus!
