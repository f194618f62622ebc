//! The map generator: places rooms on the grid one at a time, each through a
//! direction that both neighbors allow, then derives the adjacency graph.

use vstd::prelude::*;

use super::adjacency::{connections_valid, derive_connections};
use super::manifest::{entrance_name, RoomDefinitionManifest};
use super::{
    Connections, GridPos, MapGenerationError, PlacedRoom, RoomConnectionDirection, RoomDefinition,
    RoomId,
};

verus! {

/// A request to generate a map with this many rooms, the entrance included.
pub struct GenerateMap {
    pub room_count: u8,
}

/// The grid step in the x axis that direction `d` stands for.
pub open spec fn offset_x(d: RoomConnectionDirection) -> int {
    match d {
        RoomConnectionDirection::North => 0,
        RoomConnectionDirection::East => 1,
        RoomConnectionDirection::South => 0,
        RoomConnectionDirection::West => -1,
    }
}

/// The grid step in the y axis that direction `d` stands for.
pub open spec fn offset_y(d: RoomConnectionDirection) -> int {
    match d {
        RoomConnectionDirection::North => 1,
        RoomConnectionDirection::East => 0,
        RoomConnectionDirection::South => -1,
        RoomConnectionDirection::West => 0,
    }
}

/// The direction that leads back: north and south exchange, east and west
/// exchange.
pub open spec fn spec_opposite(d: RoomConnectionDirection) -> RoomConnectionDirection {
    match d {
        RoomConnectionDirection::North => RoomConnectionDirection::South,
        RoomConnectionDirection::East => RoomConnectionDirection::West,
        RoomConnectionDirection::South => RoomConnectionDirection::North,
        RoomConnectionDirection::West => RoomConnectionDirection::East,
    }
}

/// Taking the opposite twice leads back to the start, and the grid step of
/// the opposite direction is the negated step.
pub proof fn lemma_opposite_involution(d: RoomConnectionDirection)
    ensures
        spec_opposite(spec_opposite(d)) == d,
        offset_x(spec_opposite(d)) == -offset_x(d),
        offset_y(spec_opposite(d)) == -offset_y(d),
{
}

/// The unit grid offset of direction `d`, as a grid position.
pub fn connection_direction_dif(direction: &RoomConnectionDirection) -> (r: GridPos)
    ensures
        r.x == offset_x(*direction),
        r.y == offset_y(*direction),
{
    match direction {
        RoomConnectionDirection::North => GridPos { x: 0, y: 1 },
        RoomConnectionDirection::East => GridPos { x: 1, y: 0 },
        RoomConnectionDirection::South => GridPos { x: 0, y: -1 },
        RoomConnectionDirection::West => GridPos { x: -1, y: 0 },
    }
}

/// The direction that leads back from a neighbor reached through `direction`.
pub fn get_opposite_direction(direction: &RoomConnectionDirection) -> (r: RoomConnectionDirection)
    ensures
        r == spec_opposite(*direction),
{
    match direction {
        RoomConnectionDirection::North => RoomConnectionDirection::South,
        RoomConnectionDirection::East => RoomConnectionDirection::West,
        RoomConnectionDirection::South => RoomConnectionDirection::North,
        RoomConnectionDirection::West => RoomConnectionDirection::East,
    }
}

/// Whether the definition allows a connection through direction `d`.
pub open spec fn allows(def: RoomDefinition, d: RoomConnectionDirection) -> bool {
    def.allowed_directions@.contains(d)
}

/// The definition that the placed room at index `i` uses.
pub open spec fn def_of(
    rooms: Seq<PlacedRoom>,
    catalog: RoomDefinitionManifest,
    i: int,
) -> RoomDefinition {
    catalog.items@[rooms[i].def_index as int]
}

/// The x coordinate of the cell next to room `i` in direction `d`.
pub open spec fn target_x(rooms: Seq<PlacedRoom>, i: int, d: RoomConnectionDirection) -> int {
    rooms[i].grid_position.x + offset_x(d)
}

/// The y coordinate of the cell next to room `i` in direction `d`.
pub open spec fn target_y(rooms: Seq<PlacedRoom>, i: int, d: RoomConnectionDirection) -> int {
    rooms[i].grid_position.y + offset_y(d)
}

/// Whether some placed room sits on the cell `(x, y)`.
pub open spec fn occupied(rooms: Seq<PlacedRoom>, x: int, y: int) -> bool {
    exists|j: int|
        0 <= j < rooms.len() && (#[trigger] rooms[j]).grid_position.x == x
            && rooms[j].grid_position.y == y
}

/// Well-formedness of a placement: ids are exactly the indices (so room 0 is
/// the entrance at the origin), every room's definition is in the catalog,
/// no two rooms share a cell, no room sits below the entrance row, and each
/// coordinate stays within the number of placed rooms.
pub open spec fn placement_wf(rooms: Seq<PlacedRoom>, catalog: RoomDefinitionManifest) -> bool {
    &&& 1 <= rooms.len() <= 255
    &&& (forall|i: int| 0 <= i < rooms.len() ==> (#[trigger] rooms[i]).room_id.0 == i)
    &&& (forall|i: int|
        0 <= i < rooms.len() ==> (#[trigger] rooms[i]).def_index < catalog.items@.len())
    &&& (forall|i: int, j: int|
        0 <= i < rooms.len() && 0 <= j < rooms.len() && i != j ==> (#[trigger] rooms[i]).grid_position
            != (#[trigger] rooms[j]).grid_position)
    &&& (forall|i: int|
        0 <= i < rooms.len() ==> 0 <= (#[trigger] rooms[i]).grid_position.y < rooms.len())
    &&& (forall|i: int|
        0 <= i < rooms.len() ==> -(rooms.len() as int) < (#[trigger] rooms[i]).grid_position.x
            < rooms.len() as int)
    &&& rooms[0].grid_position == (GridPos { x: 0, y: 0 })
}

/// Whether the cell next to room `i` in direction `d` can take the candidate:
/// it lies on or above the entrance row, is free, and the candidate allows
/// the direction leading back.
pub open spec fn slot_checks(
    rooms: Seq<PlacedRoom>,
    cand: RoomDefinition,
    i: int,
    d: RoomConnectionDirection,
) -> bool {
    &&& target_y(rooms, i, d) >= 0
    &&& !occupied(rooms, target_x(rooms, i, d), target_y(rooms, i, d))
    &&& allows(cand, spec_opposite(d))
}

/// Whether room `i` offers the candidate a compatible slot in direction `d`.
pub open spec fn dir_slot_ok(
    rooms: Seq<PlacedRoom>,
    catalog: RoomDefinitionManifest,
    cand: RoomDefinition,
    i: int,
    d: RoomConnectionDirection,
) -> bool {
    allows(def_of(rooms, catalog, i), d) && slot_checks(rooms, cand, i, d)
}

/// Whether `p` is a compatible slot for the candidate: next to some placed
/// room, through a direction both sides allow, free, and not below row zero.
pub open spec fn slot_ok(
    rooms: Seq<PlacedRoom>,
    catalog: RoomDefinitionManifest,
    cand: RoomDefinition,
    p: GridPos,
) -> bool {
    exists|i: int, d: RoomConnectionDirection|
        0 <= i < rooms.len() && #[trigger] dir_slot_ok(rooms, catalog, cand, i, d) && p.x
            == target_x(rooms, i, d) && p.y == target_y(rooms, i, d)
}

/// Whether the definition allows a connection through direction `d`.
pub fn allows_direction(def: &RoomDefinition, d: RoomConnectionDirection) -> (r: bool)
    ensures
        r == allows(*def, d),
{
    let mut k: usize = 0;
    while k < def.allowed_directions.len()
        invariant
            k <= def.allowed_directions@.len(),
            forall|k2: int| 0 <= k2 < k ==> def.allowed_directions@[k2] != d,
        decreases def.allowed_directions@.len() - k,
    {
        if def.allowed_directions[k] == d {
            return true;
        }
        k += 1;
    }
    false
}

/// The index of the room occupying cell `(x, y)`, if any.
pub fn find_room_at(rooms: &Vec<PlacedRoom>, x: i32, y: i32) -> (r: Option<usize>)
    ensures
        match r {
            Some(i) => i < rooms@.len() && rooms@[i as int].grid_position.x == x
                && rooms@[i as int].grid_position.y == y,
            None => !occupied(rooms@, x as int, y as int),
        },
{
    let mut i: usize = 0;
    while i < rooms.len()
        invariant
            i <= rooms@.len(),
            forall|j: int|
                0 <= j < i ==> (#[trigger] rooms@[j]).grid_position.x != x
                    || rooms@[j].grid_position.y != y,
        decreases rooms@.len() - i,
    {
        if rooms[i].grid_position.x == x && rooms[i].grid_position.y == y {
            return Some(i);
        }
        i += 1;
    }
    None
}

/// Scans the placed rooms for the first compatible, free, on-grid slot for
/// the candidate definition; returns it, or nothing when no placed room
/// offers one anywhere.
pub fn find_open_slot(
    rooms: &Vec<PlacedRoom>,
    catalog: &RoomDefinitionManifest,
    candidate: &RoomDefinition,
) -> (r: Option<GridPos>)
    requires
        placement_wf(rooms@, *catalog),
    ensures
        match r {
            Some(p) => slot_ok(rooms@, *catalog, *candidate, p) && p.y >= 0 && !occupied(
                rooms@,
                p.x as int,
                p.y as int,
            ) && -(rooms@.len() as int) <= p.x <= rooms@.len() as int && p.y <= rooms@.len(),
            None => forall|i: int, d: RoomConnectionDirection|
                0 <= i < rooms@.len() ==> !dir_slot_ok(rooms@, *catalog, *candidate, i, d),
        },
{
    let mut i: usize = 0;
    while i < rooms.len()
        invariant
            placement_wf(rooms@, *catalog),
            i <= rooms@.len(),
            forall|i2: int, d: RoomConnectionDirection|
                0 <= i2 < i ==> !dir_slot_ok(rooms@, *catalog, *candidate, i2, d),
        decreases rooms@.len() - i,
    {
        let def = &catalog.items[rooms[i].def_index];
        let mut k: usize = 0;
        while k < def.allowed_directions.len()
            invariant
                placement_wf(rooms@, *catalog),
                i < rooms@.len(),
                *def == def_of(rooms@, *catalog, i as int),
                k <= def.allowed_directions@.len(),
                forall|k2: int|
                    0 <= k2 < k ==> !slot_checks(
                        rooms@,
                        *candidate,
                        i as int,
                        def.allowed_directions@[k2],
                    ),
            decreases def.allowed_directions@.len() - k,
        {
            let d = def.allowed_directions[k];
            let dif = connection_direction_dif(&d);
            let tx = rooms[i].grid_position.x + dif.x;
            let ty = rooms[i].grid_position.y + dif.y;
            if ty >= 0 && find_room_at(rooms, tx, ty).is_none() && allows_direction(
                candidate,
                get_opposite_direction(&d),
            ) {
                let p = GridPos { x: tx, y: ty };
                proof {
                    assert(allows(def_of(rooms@, *catalog, i as int), d)) by {
                        assert(def.allowed_directions@[k as int] == d);
                    }
                    assert(dir_slot_ok(rooms@, *catalog, *candidate, i as int, d));
                    assert(slot_ok(rooms@, *catalog, *candidate, p)) by {
                        assert(0 <= (i as int) < rooms@.len() && dir_slot_ok(
                            rooms@,
                            *catalog,
                            *candidate,
                            i as int,
                            d,
                        ) && p.x == target_x(rooms@, i as int, d) && p.y == target_y(
                            rooms@,
                            i as int,
                            d,
                        ));
                    }
                }
                return Some(p);
            }
            k += 1;
        }
        proof {
            assert forall|d: RoomConnectionDirection| !dir_slot_ok(
                rooms@,
                *catalog,
                *candidate,
                i as int,
                d,
            ) by {
                if allows(def_of(rooms@, *catalog, i as int), d) {
                    let k2 = choose|k2: int|
                        0 <= k2 < def.allowed_directions@.len() && def.allowed_directions@[k2]
                            == d;
                    assert(!slot_checks(rooms@, *candidate, i as int, def.allowed_directions@[k2]));
                }
            }
        }
        i += 1;
    }
    None
}

/// Appending a room with the next id, a definition from the catalog, and a
/// free cell on or above the entrance row within the grown bounds keeps the
/// placement well-formed.
proof fn lemma_wf_push(rooms: Seq<PlacedRoom>, catalog: RoomDefinitionManifest, r: PlacedRoom)
    requires
        placement_wf(rooms, catalog),
        rooms.len() < 255,
        r.room_id.0 == rooms.len(),
        r.def_index < catalog.items@.len(),
        0 <= r.grid_position.y <= rooms.len(),
        -(rooms.len() as int) <= r.grid_position.x <= rooms.len() as int,
        !occupied(rooms, r.grid_position.x as int, r.grid_position.y as int),
    ensures
        placement_wf(rooms.push(r), catalog),
{
    let rs = rooms.push(r);
    assert forall|i: int, j: int|
        0 <= i < rs.len() && 0 <= j < rs.len() && i != j implies (#[trigger] rs[i]).grid_position
        != (#[trigger] rs[j]).grid_position by {
        if i < rooms.len() && j < rooms.len() {
            assert(rs[i] == rooms[i] && rs[j] == rooms[j]);
        } else if i < rooms.len() {
            assert(rs[j] == r && rs[i] == rooms[i]);
            assert(!(rooms[i].grid_position.x == r.grid_position.x as int
                && rooms[i].grid_position.y == r.grid_position.y as int));
        } else {
            assert(rs[i] == r && rs[j] == rooms[j]);
            assert(!(rooms[j].grid_position.x == r.grid_position.x as int
                && rooms[j].grid_position.y == r.grid_position.y as int));
        }
    }
    assert(rs[0].grid_position == rooms[0].grid_position);
}

impl GenerateMap {
    /// Generates the map: seeds the entrance with id 0 at the origin, then
    /// draws random candidate definitions and places each at the first
    /// compatible free slot until the requested count is reached, finally
    /// deriving every room's connection table. A candidate with no slot is
    /// discarded; `max_attempts` consecutive discards abort the run. On
    /// success the placement is well-formed — ids are exactly
    /// `0..room_count` with the entrance at the origin, cells are pairwise
    /// distinct and never below the entrance row — and the connection tables
    /// are exactly those the placement dictates.
    pub fn apply(
        &self,
        catalog: &RoomDefinitionManifest,
        rng: &mut rand::rngs::StdRng,
        max_attempts: u32,
    ) -> (r: Result<Vec<PlacedRoom>, MapGenerationError>)
        ensures
            (r == Err::<Vec<PlacedRoom>, _>(MapGenerationError::InvalidRoomCount) <==> self.room_count == 0),
            (r == Err::<Vec<PlacedRoom>, _>(MapGenerationError::CatalogEmpty) <==> self.room_count > 0
                && catalog.items@.len() == 0),
            (r == Err::<Vec<PlacedRoom>, _>(MapGenerationError::MissingEntranceType) <==> self.room_count > 0
                && catalog.items@.len() > 0 && !catalog.has_name(entrance_name())),
            r is Err ==> r == Err::<Vec<PlacedRoom>, _>(MapGenerationError::InvalidRoomCount) || r
                == Err::<Vec<PlacedRoom>, _>(MapGenerationError::CatalogEmpty) || r == Err::<
                Vec<PlacedRoom>,
                _,
            >(MapGenerationError::MissingEntranceType) || r == Err::<Vec<PlacedRoom>, _>(
                MapGenerationError::GenerationStalled,
            ),
            r == Err::<Vec<PlacedRoom>, _>(MapGenerationError::GenerationStalled)
                ==> self.room_count > 1,
            self.room_count == 1 && catalog.has_name(entrance_name()) ==> r is Ok,
            r matches Ok(rooms) ==> rooms@.len() == self.room_count as int && placement_wf(
                rooms@,
                *catalog,
            ) && catalog.first_with_name(rooms@[0].def_index as int, entrance_name())
                && connections_valid(rooms@, *catalog),
    {
        if self.room_count == 0 {
            return Err(MapGenerationError::InvalidRoomCount);
        }
        if catalog.items.len() == 0 {
            return Err(MapGenerationError::CatalogEmpty);
        }
        let entrance_idx = match catalog.entrance_definition() {
            Ok(i) => i,
            Err(_) => {
                return Err(MapGenerationError::MissingEntranceType);
            },
        };
        let mut rooms: Vec<PlacedRoom> = Vec::new();
        rooms.push(
            PlacedRoom {
                grid_position: GridPos { x: 0, y: 0 },
                room_id: RoomId(0),
                def_index: entrance_idx,
                connections: Connections::empty(),
            },
        );
        let target = self.room_count as usize;
        let mut attempts_left = max_attempts;
        while rooms.len() < target
            invariant
                placement_wf(rooms@, *catalog),
                1 <= rooms@.len() <= target,
                target == self.room_count as int,
                target <= 255,
                catalog.items@.len() > 0,
                catalog.first_with_name(rooms@[0].def_index as int, entrance_name()),
            decreases target - rooms@.len(), attempts_left,
        {
            let cand_idx = match catalog.random_definition(rng) {
                Ok(i) => i,
                Err(e) => {
                    return Err(e);
                },
            };
            let candidate = &catalog.items[cand_idx];
            match find_open_slot(&rooms, catalog, candidate) {
                Some(p) => {
                    let id = rooms.len() as u8;
                    let ghost prev = rooms@;
                    rooms.push(
                        PlacedRoom {
                            grid_position: p,
                            room_id: RoomId(id),
                            def_index: cand_idx,
                            connections: Connections::empty(),
                        },
                    );
                    proof {
                        lemma_wf_push(prev, *catalog, rooms@[prev.len() as int]);
                        assert(rooms@[0] == prev[0]);
                    }
                    attempts_left = max_attempts;
                },
                None => {
                    if attempts_left == 0 {
                        return Err(MapGenerationError::GenerationStalled);
                    }
                    attempts_left = attempts_left - 1;
                },
            }
        }
        let out = derive_connections(&rooms, catalog);
        proof {
            assert(out@[0].def_index == rooms@[0].def_index);
        }
        Ok(out)
    }
}

} // verus!
