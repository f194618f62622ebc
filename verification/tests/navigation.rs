use eldritch_house::map::map_navigation::change_room_index;
use eldritch_house::map::{ChangeRoom, Connections, MapRoomIndex, RoomConnectionDirection, RoomId};
use RoomConnectionDirection::{East, North, South, West};

fn sample_table() -> Connections {
    Connections { north: Some(RoomId(2)), east: None, south: Some(RoomId(0)), west: Some(RoomId(5)) }
}

#[test]
fn change_room_follows_connection() {
    let mut index = MapRoomIndex(RoomId(1));
    change_room_index(&mut index, &sample_table(), &ChangeRoom { new_room_id: RoomId(5) });
    assert_eq!(index.0, RoomId(5));
}

#[test]
fn change_room_ignores_unknown_target() {
    let mut index = MapRoomIndex(RoomId(1));
    change_room_index(&mut index, &sample_table(), &ChangeRoom { new_room_id: RoomId(9) });
    assert_eq!(index.0, RoomId(1));
}

#[test]
fn connection_table_get() {
    let c = sample_table();
    assert_eq!(c.get(North), Some(RoomId(2)));
    assert_eq!(c.get(East), None);
    assert_eq!(c.get(South), Some(RoomId(0)));
    assert_eq!(c.get(West), Some(RoomId(5)));
    let e = Connections::empty();
    for d in [North, East, South, West] {
        assert_eq!(e.get(d), None);
    }
}

#[test]
fn connection_table_contains_room() {
    let c = sample_table();
    assert!(c.contains_room(RoomId(2)));
    assert!(c.contains_room(RoomId(0)));
    assert!(c.contains_room(RoomId(5)));
    assert!(!c.contains_room(RoomId(4)));
}
