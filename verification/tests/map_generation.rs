use eldritch_house::map::adjacency::derive_connections;
use eldritch_house::map::generate_map::{connection_direction_dif, get_opposite_direction};
use eldritch_house::map::manifest::RoomDefinitionManifest;
use eldritch_house::map::{
    GenerateMap, MapGenerationError, PlacedRoom, RoomConnectionDirection, RoomDefinition, RoomId,
};
use rand::rngs::StdRng;
use rand::SeedableRng;
use RoomConnectionDirection::{East, North, South, West};

fn def(name: &str, dirs: &[RoomConnectionDirection]) -> RoomDefinition {
    RoomDefinition { room_name: name.to_string(), allowed_directions: dirs.to_vec() }
}

fn entrance_only() -> RoomDefinitionManifest {
    RoomDefinitionManifest { items: vec![def("entrance", &[North])] }
}

fn straight_catalog() -> RoomDefinitionManifest {
    RoomDefinitionManifest { items: vec![def("entrance", &[North]), def("straight", &[North, South])] }
}

fn open_catalog() -> RoomDefinitionManifest {
    RoomDefinitionManifest {
        items: vec![def("entrance", &[North, East, West]), def("cross", &[North, East, South, West])],
    }
}

fn rng(seed: u64) -> StdRng {
    StdRng::seed_from_u64(seed)
}

fn generate(catalog: &RoomDefinitionManifest, count: u8, seed: u64) -> Vec<PlacedRoom> {
    GenerateMap { room_count: count }
        .apply(catalog, &mut rng(seed), 10_000)
        .expect("generation should succeed")
}

#[test]
fn single_room_map() {
    let catalog = entrance_only();
    let rooms = generate(&catalog, 1, 0);
    assert_eq!(rooms.len(), 1);
    assert_eq!(rooms[0].room_id, RoomId(0));
    assert_eq!(rooms[0].grid_position.x, 0);
    assert_eq!(rooms[0].grid_position.y, 0);
    for d in [North, East, South, West] {
        assert_eq!(rooms[0].connections.get(d), None);
    }
}

#[test]
fn entrance_straight_column() {
    let catalog = straight_catalog();
    let rooms = generate(&catalog, 3, 42);
    assert_eq!(rooms.len(), 3);
    // The only layout this catalog admits is a column above the entrance.
    for (i, room) in rooms.iter().enumerate() {
        assert_eq!(room.room_id, RoomId(i as u8));
        assert_eq!(room.grid_position.x, 0);
        assert_eq!(room.grid_position.y, i as i32);
    }
    assert_eq!(catalog.items[rooms[0].def_index].room_name, "entrance");
    assert_eq!(catalog.items[rooms[1].def_index].room_name, "straight");
    assert_eq!(catalog.items[rooms[2].def_index].room_name, "straight");
    assert_eq!(rooms[0].connections.get(North), Some(RoomId(1)));
    assert_eq!(rooms[0].connections.get(East), None);
    assert_eq!(rooms[0].connections.get(South), None);
    assert_eq!(rooms[0].connections.get(West), None);
    assert_eq!(rooms[1].connections.get(South), Some(RoomId(0)));
    assert_eq!(rooms[1].connections.get(North), Some(RoomId(2)));
    assert_eq!(rooms[1].connections.get(East), None);
    assert_eq!(rooms[1].connections.get(West), None);
    assert_eq!(rooms[2].connections.get(South), Some(RoomId(1)));
    assert_eq!(rooms[2].connections.get(North), None);
}

#[test]
fn stall_terminates() {
    // No definition is compatible with any open slot: the entrance allows
    // North, but the only candidate never allows South back.
    let catalog = entrance_only();
    let r = GenerateMap { room_count: 3 }.apply(&catalog, &mut rng(7), 100);
    assert_eq!(r.unwrap_err(), MapGenerationError::GenerationStalled);
}

#[test]
fn zero_rooms_rejected() {
    let catalog = straight_catalog();
    let r = GenerateMap { room_count: 0 }.apply(&catalog, &mut rng(1), 100);
    assert_eq!(r.unwrap_err(), MapGenerationError::InvalidRoomCount);
}

#[test]
fn empty_catalog_rejected() {
    let catalog = RoomDefinitionManifest { items: Vec::new() };
    let r = GenerateMap { room_count: 2 }.apply(&catalog, &mut rng(1), 100);
    assert_eq!(r.unwrap_err(), MapGenerationError::CatalogEmpty);
}

#[test]
fn missing_entrance_rejected() {
    let catalog = RoomDefinitionManifest { items: vec![def("straight", &[North, South])] };
    let r = GenerateMap { room_count: 2 }.apply(&catalog, &mut rng(1), 100);
    assert_eq!(r.unwrap_err(), MapGenerationError::MissingEntranceType);
}

#[test]
fn full_map_reaches_count() {
    let catalog = open_catalog();
    let rooms = generate(&catalog, 40, 3);
    assert_eq!(rooms.len(), 40);
}

#[test]
fn largest_map_size() {
    // Room ids are a byte wide, so 255 rooms is the most a map can hold.
    let catalog = open_catalog();
    let rooms = generate(&catalog, 255, 23);
    assert_eq!(rooms.len(), 255);
    assert_eq!(rooms[254].room_id, RoomId(254));
}

#[test]
fn ids_and_positions_unique() {
    let catalog = open_catalog();
    let rooms = generate(&catalog, 25, 11);
    for (i, room) in rooms.iter().enumerate() {
        assert_eq!(room.room_id, RoomId(i as u8));
    }
    for i in 0..rooms.len() {
        for j in 0..rooms.len() {
            if i != j {
                assert!(
                    rooms[i].grid_position != rooms[j].grid_position,
                    "rooms {i} and {j} share a cell"
                );
            }
        }
    }
}

#[test]
fn entrance_fixed_point() {
    for seed in 0..5 {
        let catalog = open_catalog();
        let rooms = generate(&catalog, 12, seed);
        assert_eq!(rooms[0].room_id, RoomId(0));
        assert_eq!(rooms[0].grid_position.x, 0);
        assert_eq!(rooms[0].grid_position.y, 0);
        assert_eq!(catalog.items[rooms[0].def_index].room_name, "entrance");
    }
}

#[test]
fn row_constraint() {
    let catalog = open_catalog();
    let rooms = generate(&catalog, 30, 5);
    for room in &rooms {
        assert!(room.grid_position.y >= 0);
    }
}

#[test]
fn connections_symmetric() {
    let catalog = open_catalog();
    let rooms = generate(&catalog, 30, 9);
    for room in &rooms {
        for d in [North, East, South, West] {
            if let Some(n) = room.connections.get(d) {
                let neighbor = &rooms[n.0 as usize];
                let back = get_opposite_direction(&d);
                assert_eq!(neighbor.connections.get(back), Some(room.room_id));
            }
        }
    }
}

#[test]
fn edges_iff_compatible() {
    let catalog = open_catalog();
    let rooms = generate(&catalog, 30, 13);
    for room in &rooms {
        for d in [North, East, South, West] {
            let step = connection_direction_dif(&d);
            let tx = room.grid_position.x + step.x;
            let ty = room.grid_position.y + step.y;
            let neighbor = rooms
                .iter()
                .find(|r| r.grid_position.x == tx && r.grid_position.y == ty);
            match neighbor {
                None => assert_eq!(room.connections.get(d), None),
                Some(n) => {
                    let here = &catalog.items[room.def_index].allowed_directions;
                    let there = &catalog.items[n.def_index].allowed_directions;
                    let expected = here.contains(&d)
                        && there.contains(&get_opposite_direction(&d));
                    assert_eq!(room.connections.get(d) == Some(n.room_id), expected);
                    if !expected {
                        assert_eq!(room.connections.get(d), None);
                    }
                },
            }
        }
    }
}

#[test]
fn rederivation_deterministic() {
    let catalog = open_catalog();
    let rooms = generate(&catalog, 20, 17);
    let once = derive_connections(&rooms, &catalog);
    let twice = derive_connections(&rooms, &catalog);
    let from_derived = derive_connections(&once, &catalog);
    for i in 0..rooms.len() {
        assert_eq!(once[i].connections, rooms[i].connections);
        assert_eq!(twice[i].connections, rooms[i].connections);
        assert_eq!(from_derived[i].connections, rooms[i].connections);
    }
}
