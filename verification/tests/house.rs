use eldritch_house::map::manifest::RoomDefinitionManifest;
use eldritch_house::map::{
    build_house, Connections, GenerateMap, House, Room, RoomConnectionDirection, RoomDefinition,
    RoomId, SpawnRoom,
};
use rand::rngs::StdRng;
use rand::SeedableRng;
use RoomConnectionDirection::{East, North, South, West};

fn table(south: Option<RoomId>) -> Connections {
    Connections { north: None, east: None, south, west: None }
}

#[test]
fn spawn_room_registers() {
    let mut house = House::new();
    SpawnRoom { room_id: RoomId(2), room_connections: table(Some(RoomId(1))), room_def_id: 4 }
        .apply(&mut house);
    assert_eq!(house.rooms.len(), 3);
    assert_eq!(
        house.get(RoomId(2)),
        Some(&Room { connections: table(Some(RoomId(1))), room_def_id: 4 })
    );
    assert_eq!(house.get(RoomId(0)), None);
    assert_eq!(house.focused, None);
}

#[test]
fn spawn_focuses_entrance() {
    let mut house = House::new();
    SpawnRoom { room_id: RoomId(0), room_connections: table(None), room_def_id: 0 }
        .apply(&mut house);
    assert_eq!(house.focused, Some(RoomId(0)));
    assert!(house.get(RoomId(0)).is_some());
}

#[test]
fn house_get_missing() {
    let house = House::new();
    assert_eq!(house.get(RoomId(0)), None);
    assert_eq!(house.get(RoomId(200)), None);
}

#[test]
fn build_house_registers_all() {
    let catalog = RoomDefinitionManifest {
        items: vec![
            RoomDefinition {
                room_name: "entrance".to_string(),
                allowed_directions: vec![North, East, West],
            },
            RoomDefinition {
                room_name: "cross".to_string(),
                allowed_directions: vec![North, East, South, West],
            },
        ],
    };
    let mut rng = StdRng::seed_from_u64(19);
    let rooms = GenerateMap { room_count: 15 }
        .apply(&catalog, &mut rng, 10_000)
        .expect("generation should succeed");
    let house = build_house(&rooms);
    assert_eq!(house.rooms.len(), rooms.len());
    assert_eq!(house.focused, Some(RoomId(0)));
    for room in &rooms {
        let got = house.get(room.room_id).expect("every generated room is in the house");
        assert_eq!(got.connections, room.connections);
        assert_eq!(got.room_def_id, room.def_index);
    }
}
