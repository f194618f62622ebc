//! The second generation pass: deriving each room's connection table from
//! the placement, and the laws that the derived adjacency graph obeys.

use vstd::prelude::*;

use super::generate_map::{
    allows, allows_direction, connection_direction_dif, def_of, find_room_at,
    get_opposite_direction, lemma_opposite_involution, placement_wf, spec_opposite, target_x,
    target_y,
};
use super::manifest::RoomDefinitionManifest;
use super::{Connections, PlacedRoom, RoomConnectionDirection, RoomId};

verus! {

/// Whether the adjacency graph has an edge from room `i` to room `j` through
/// direction `d`: room `i` allows `d`, room `j` occupies the adjacent cell in
/// that direction, and room `j` allows the direction leading back.
pub open spec fn edge(
    rooms: Seq<PlacedRoom>,
    catalog: RoomDefinitionManifest,
    i: int,
    j: int,
    d: RoomConnectionDirection,
) -> bool {
    &&& allows(def_of(rooms, catalog, i), d)
    &&& rooms[j].grid_position.x == target_x(rooms, i, d)
    &&& rooms[j].grid_position.y == target_y(rooms, i, d)
    &&& allows(def_of(rooms, catalog, j), spec_opposite(d))
}

/// Whether `c` is the right entry for room `i` and direction `d`: the id of
/// the room the edge leads to, or nothing when no such edge exists.
pub open spec fn connection_ok(
    rooms: Seq<PlacedRoom>,
    catalog: RoomDefinitionManifest,
    i: int,
    d: RoomConnectionDirection,
    c: Option<RoomId>,
) -> bool {
    match c {
        Some(id) => exists|j: int|
            0 <= j < rooms.len() && #[trigger] edge(rooms, catalog, i, j, d) && rooms[j].room_id
                == id,
        None => forall|j: int| 0 <= j < rooms.len() ==> !#[trigger] edge(rooms, catalog, i, j, d),
    }
}

/// Whether every room's connection table matches the adjacency that the
/// placement itself dictates.
pub open spec fn connections_valid(
    rooms: Seq<PlacedRoom>,
    catalog: RoomDefinitionManifest,
) -> bool {
    forall|i: int, d: RoomConnectionDirection|
        0 <= i < rooms.len() ==> connection_ok(
            rooms,
            catalog,
            i,
            d,
            #[trigger] rooms[i].connections.spec_get(d),
        )
}

/// Whether two placed rooms agree on everything but their connection tables.
pub open spec fn same_placement(a: PlacedRoom, b: PlacedRoom) -> bool {
    a.grid_position == b.grid_position && a.room_id == b.room_id && a.def_index == b.def_index
}

/// The connection entry that the placement dictates for room `i` and
/// direction `d`.
pub fn connection_for(
    rooms: &Vec<PlacedRoom>,
    catalog: &RoomDefinitionManifest,
    i: usize,
    d: RoomConnectionDirection,
) -> (r: Option<RoomId>)
    requires
        placement_wf(rooms@, *catalog),
        i < rooms@.len(),
    ensures
        connection_ok(rooms@, *catalog, i as int, d, r),
{
    let def = &catalog.items[rooms[i].def_index];
    if !allows_direction(def, d) {
        return None;
    }
    let dif = connection_direction_dif(&d);
    let tx = rooms[i].grid_position.x + dif.x;
    let ty = rooms[i].grid_position.y + dif.y;
    match find_room_at(rooms, tx, ty) {
        None => None,
        Some(j) => {
            let other_def = &catalog.items[rooms[j].def_index];
            if allows_direction(other_def, get_opposite_direction(&d)) {
                let id = rooms[j].room_id;
                proof {
                    assert(edge(rooms@, *catalog, i as int, j as int, d));
                }
                Some(id)
            } else {
                proof {
                    assert forall|j2: int|
                        0 <= j2 < rooms@.len() implies !#[trigger] edge(
                        rooms@,
                        *catalog,
                        i as int,
                        j2,
                        d,
                    ) by {
                        if rooms@[j2].grid_position.x == tx as int && rooms@[j2].grid_position.y
                            == ty as int {
                            assert(rooms@[j2].grid_position == rooms@[j as int].grid_position);
                            assert(j2 == j as int);
                        }
                    }
                }
                None
            }
        },
    }
}

/// Derives every room's connection table from the placement: the result
/// keeps each room's position, id and definition, and its connections are
/// exactly those that `connection_ok` dictates — so the pass is a function
/// of the placement alone.
pub fn derive_connections(rooms: &Vec<PlacedRoom>, catalog: &RoomDefinitionManifest) -> (out: Vec<
    PlacedRoom,
>)
    requires
        placement_wf(rooms@, *catalog),
    ensures
        out@.len() == rooms@.len(),
        forall|i: int| 0 <= i < rooms@.len() ==> same_placement(#[trigger] out@[i], rooms@[i]),
        connections_valid(out@, *catalog),
        placement_wf(out@, *catalog),
{
    let mut out: Vec<PlacedRoom> = Vec::new();
    let mut i: usize = 0;
    while i < rooms.len()
        invariant
            placement_wf(rooms@, *catalog),
            i == out@.len(),
            i <= rooms@.len(),
            forall|i2: int| 0 <= i2 < i ==> same_placement(#[trigger] out@[i2], rooms@[i2]),
            forall|i2: int, d: RoomConnectionDirection|
                0 <= i2 < i ==> connection_ok(
                    rooms@,
                    *catalog,
                    i2,
                    d,
                    #[trigger] out@[i2].connections.spec_get(d),
                ),
        decreases rooms@.len() - i,
    {
        let c = Connections {
            north: connection_for(rooms, catalog, i, RoomConnectionDirection::North),
            east: connection_for(rooms, catalog, i, RoomConnectionDirection::East),
            south: connection_for(rooms, catalog, i, RoomConnectionDirection::South),
            west: connection_for(rooms, catalog, i, RoomConnectionDirection::West),
        };
        let room = rooms[i];
        out.push(
            PlacedRoom {
                grid_position: room.grid_position,
                room_id: room.room_id,
                def_index: room.def_index,
                connections: c,
            },
        );
        proof {
            assert forall|d: RoomConnectionDirection| connection_ok(
                rooms@,
                *catalog,
                i as int,
                d,
                out@[i as int].connections.spec_get(d),
            ) by {
                match d {
                    RoomConnectionDirection::North => assert(out@[i as int].connections.spec_get(d)
                        == c.north),
                    RoomConnectionDirection::East => assert(out@[i as int].connections.spec_get(d)
                        == c.east),
                    RoomConnectionDirection::South => assert(out@[i as int].connections.spec_get(d)
                        == c.south),
                    RoomConnectionDirection::West => assert(out@[i as int].connections.spec_get(d)
                        == c.west),
                }
            }
        }
        i += 1;
    }
    proof {
        lemma_wf_same_placement(rooms@, out@, *catalog);
        assert forall|i2: int, d: RoomConnectionDirection|
            0 <= i2 < out@.len() implies connection_ok(
            out@,
            *catalog,
            i2,
            d,
            #[trigger] out@[i2].connections.spec_get(d),
        ) by {
            lemma_connection_ok_same_placement(
                rooms@,
                out@,
                *catalog,
                i2,
                d,
                out@[i2].connections.spec_get(d),
            );
        }
    }
    out
}

/// An edge, and so a whole connection entry, reads only a room's position,
/// id and definition: any table that is right for one placement is right for
/// another with the same rooms in the same cells.
pub proof fn lemma_connection_ok_same_placement(
    r1: Seq<PlacedRoom>,
    r2: Seq<PlacedRoom>,
    catalog: RoomDefinitionManifest,
    i: int,
    d: RoomConnectionDirection,
    c: Option<RoomId>,
)
    requires
        r1.len() == r2.len(),
        forall|k: int| 0 <= k < r1.len() ==> same_placement(#[trigger] r1[k], r2[k]),
        0 <= i < r1.len(),
        connection_ok(r1, catalog, i, d, c),
    ensures
        connection_ok(r2, catalog, i, d, c),
{
    match c {
        Some(id) => {
            let j = choose|j: int|
                0 <= j < r1.len() && #[trigger] edge(r1, catalog, i, j, d) && r1[j].room_id == id;
            assert(edge(r2, catalog, i, j, d));
            assert(r2[j].room_id == id);
        },
        None => {
            assert forall|j: int| 0 <= j < r2.len() implies !#[trigger] edge(
                r2,
                catalog,
                i,
                j,
                d,
            ) by {
                if edge(r2, catalog, i, j, d) {
                    assert(edge(r1, catalog, i, j, d));
                }
            }
        },
    }
}

/// Placement well-formedness reads only positions, ids and definitions, so
/// it carries over to any placement that agrees on those.
pub proof fn lemma_wf_same_placement(
    r1: Seq<PlacedRoom>,
    r2: Seq<PlacedRoom>,
    catalog: RoomDefinitionManifest,
)
    requires
        placement_wf(r1, catalog),
        r1.len() == r2.len(),
        forall|k: int| 0 <= k < r1.len() ==> same_placement(#[trigger] r1[k], r2[k]),
    ensures
        placement_wf(r2, catalog),
{
    assert forall|i: int| 0 <= i < r2.len() implies (#[trigger] r2[i]).room_id.0 == i by {
        assert(same_placement(r1[i], r2[i]));
    }
    assert forall|i: int|
        0 <= i < r2.len() implies (#[trigger] r2[i]).def_index < catalog.items@.len() by {
        assert(same_placement(r1[i], r2[i]));
    }
    assert forall|i: int, j: int|
        0 <= i < r2.len() && 0 <= j < r2.len() && i != j implies (#[trigger] r2[i]).grid_position
        != (#[trigger] r2[j]).grid_position by {
        assert(same_placement(r1[i], r2[i]));
        assert(same_placement(r1[j], r2[j]));
        assert(r1[i].grid_position != r1[j].grid_position);
    }
    assert forall|i: int|
        0 <= i < r2.len() implies 0 <= (#[trigger] r2[i]).grid_position.y < r2.len() by {
        assert(same_placement(r1[i], r2[i]));
    }
    assert forall|i: int|
        0 <= i < r2.len() implies -(r2.len() as int) < (#[trigger] r2[i]).grid_position.x < r2.len()
        as int by {
        assert(same_placement(r1[i], r2[i]));
    }
    assert(same_placement(r1[0], r2[0]));
}

/// The adjacency graph is symmetric: when room `i`'s table leads to room `j`
/// through direction `d`, room `j`'s table leads back to room `i` through the
/// opposite direction.
pub proof fn lemma_connections_symmetric(
    rooms: Seq<PlacedRoom>,
    catalog: RoomDefinitionManifest,
    i: int,
    j: int,
    d: RoomConnectionDirection,
)
    requires
        placement_wf(rooms, catalog),
        connections_valid(rooms, catalog),
        0 <= i < rooms.len(),
        0 <= j < rooms.len(),
        rooms[i].connections.spec_get(d) == Some(rooms[j].room_id),
    ensures
        rooms[j].connections.spec_get(spec_opposite(d)) == Some(rooms[i].room_id),
{
    assert(connection_ok(rooms, catalog, i, d, rooms[i].connections.spec_get(d)));
    let jw = choose|jw: int|
        0 <= jw < rooms.len() && #[trigger] edge(rooms, catalog, i, jw, d) && rooms[jw].room_id
            == rooms[j].room_id;
    assert(rooms[jw].room_id.0 == jw && rooms[j].room_id.0 == j);
    assert(jw == j);
    lemma_opposite_involution(d);
    assert(edge(rooms, catalog, j, i, spec_opposite(d)));
    let c = rooms[j].connections.spec_get(spec_opposite(d));
    assert(connection_ok(rooms, catalog, j, spec_opposite(d), c));
    if c is None {
        assert(!edge(rooms, catalog, j, i, spec_opposite(d)));
    }
    let j2 = choose|j2: int|
        0 <= j2 < rooms.len() && #[trigger] edge(rooms, catalog, j, j2, spec_opposite(d))
            && rooms[j2].room_id == c->Some_0;
    assert(rooms[j2].grid_position == rooms[i].grid_position);
    assert(j2 == i);
}

/// No edge without mutual compatibility: for rooms on adjacent cells, the
/// table of one leads to the other exactly when each allows the direction
/// facing the other.
pub proof fn lemma_edge_iff_compatible(
    rooms: Seq<PlacedRoom>,
    catalog: RoomDefinitionManifest,
    i: int,
    j: int,
    d: RoomConnectionDirection,
)
    requires
        placement_wf(rooms, catalog),
        connections_valid(rooms, catalog),
        0 <= i < rooms.len(),
        0 <= j < rooms.len(),
        rooms[j].grid_position.x == target_x(rooms, i, d),
        rooms[j].grid_position.y == target_y(rooms, i, d),
    ensures
        rooms[i].connections.spec_get(d) == Some(rooms[j].room_id) <==> allows(
            def_of(rooms, catalog, i),
            d,
        ) && allows(def_of(rooms, catalog, j), spec_opposite(d)),
{
    let c = rooms[i].connections.spec_get(d);
    assert(connection_ok(rooms, catalog, i, d, c));
    if c == Some::<RoomId>(rooms[j].room_id) {
        let jw = choose|jw: int|
            0 <= jw < rooms.len() && #[trigger] edge(rooms, catalog, i, jw, d) && rooms[jw].room_id
                == rooms[j].room_id;
        assert(jw == j);
    }
    if allows(def_of(rooms, catalog, i), d) && allows(def_of(rooms, catalog, j), spec_opposite(d)) {
        assert(edge(rooms, catalog, i, j, d));
        if c is None {
            assert(!edge(rooms, catalog, i, j, d));
        }
        let jw = choose|jw: int|
            0 <= jw < rooms.len() && #[trigger] edge(rooms, catalog, i, jw, d) && rooms[jw].room_id
                == c->Some_0;
        assert(rooms[jw].grid_position == rooms[j].grid_position);
        assert(jw == j);
    }
}

/// A placement dictates each connection entry uniquely: two entries that are
/// both right for the same room and direction are the same entry.
pub proof fn lemma_connection_ok_unique(
    rooms: Seq<PlacedRoom>,
    catalog: RoomDefinitionManifest,
    i: int,
    d: RoomConnectionDirection,
    c1: Option<RoomId>,
    c2: Option<RoomId>,
)
    requires
        placement_wf(rooms, catalog),
        0 <= i < rooms.len(),
        connection_ok(rooms, catalog, i, d, c1),
        connection_ok(rooms, catalog, i, d, c2),
    ensures
        c1 == c2,
{
    if c1 is Some {
        let j1 = choose|j1: int|
            0 <= j1 < rooms.len() && #[trigger] edge(rooms, catalog, i, j1, d) && rooms[j1].room_id
                == c1->Some_0;
        if c2 is None {
            assert(!edge(rooms, catalog, i, j1, d));
        }
        let j2 = choose|j2: int|
            0 <= j2 < rooms.len() && #[trigger] edge(rooms, catalog, i, j2, d) && rooms[j2].room_id
                == c2->Some_0;
        assert(rooms[j1].grid_position == rooms[j2].grid_position);
        assert(j1 == j2);
    } else if c2 is Some {
        let j2 = choose|j2: int|
            0 <= j2 < rooms.len() && #[trigger] edge(rooms, catalog, i, j2, d) && rooms[j2].room_id
                == c2->Some_0;
        assert(!edge(rooms, catalog, i, j2, d));
    }
}

/// Re-deriving the adjacency from a fixed placement is deterministic: any
/// two room sets with the same placement whose tables are both right have
/// identical tables everywhere.
pub proof fn lemma_derivation_deterministic(
    r1: Seq<PlacedRoom>,
    r2: Seq<PlacedRoom>,
    catalog: RoomDefinitionManifest,
)
    requires
        placement_wf(r1, catalog),
        r1.len() == r2.len(),
        forall|k: int| 0 <= k < r1.len() ==> same_placement(#[trigger] r1[k], r2[k]),
        connections_valid(r1, catalog),
        connections_valid(r2, catalog),
    ensures
        forall|i: int, d: RoomConnectionDirection|
            0 <= i < r1.len() ==> #[trigger] r1[i].connections.spec_get(d)
                == r2[i].connections.spec_get(d),
{
    assert forall|k: int| 0 <= k < r2.len() implies same_placement(#[trigger] r2[k], r1[k]) by {
        assert(same_placement(r1[k], r2[k]));
    }
    assert forall|i: int, d: RoomConnectionDirection|
        0 <= i < r1.len() implies #[trigger] r1[i].connections.spec_get(d)
        == r2[i].connections.spec_get(d) by {
        let c1 = r1[i].connections.spec_get(d);
        let c2 = r2[i].connections.spec_get(d);
        assert(connection_ok(r1, catalog, i, d, c1));
        assert(connection_ok(r2, catalog, i, d, c2));
        lemma_connection_ok_same_placement(r2, r1, catalog, i, d, c2);
        lemma_connection_ok_unique(r1, catalog, i, d, c1, c2);
    }
}

} // verus!
