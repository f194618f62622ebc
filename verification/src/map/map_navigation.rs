//! Navigation over the generated map: one room is focused at a time, and a
//! change-room request moves the focus along an existing connection.

use vstd::prelude::*;

use super::{Connections, RoomConnectionDirection, RoomId};

verus! {

/// The id of the room the player currently occupies; starts at the entrance.
#[derive(Clone, Copy, PartialEq, Eq, Structural, Debug)]
pub struct MapRoomIndex(pub RoomId);

/// A request to move the focus to the named room.
#[derive(Clone, Copy, PartialEq, Eq, Structural, Debug)]
pub struct ChangeRoom {
    pub new_room_id: RoomId,
}

/// Honors a change-room request against the focused room's connection table:
/// the focus moves only if some direction of the table leads to the requested
/// room; a request naming any other room is silently ignored.
pub fn change_room_index(
    room_index: &mut MapRoomIndex,
    connections: &Connections,
    event: &ChangeRoom,
)
    ensures
        (exists|d: RoomConnectionDirection| connections.spec_get(d) == Some(event.new_room_id))
            ==> final(room_index).0 == event.new_room_id,
        !(exists|d: RoomConnectionDirection| connections.spec_get(d) == Some(event.new_room_id))
            ==> *final(room_index) == *old(room_index),
{
    if connections.contains_room(event.new_room_id) {
        room_index.0 = event.new_room_id;
    }
}

} // verus!
