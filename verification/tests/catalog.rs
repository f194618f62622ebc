use eldritch_house::map::manifest::RoomDefinitionManifest;
use eldritch_house::map::{MapGenerationError, RoomConnectionDirection, RoomDefinition};
use rand::rngs::StdRng;
use rand::SeedableRng;
use RoomConnectionDirection::{North, South};

fn def(name: &str, dirs: &[RoomConnectionDirection]) -> RoomDefinition {
    RoomDefinition { room_name: name.to_string(), allowed_directions: dirs.to_vec() }
}

fn catalog() -> RoomDefinitionManifest {
    RoomDefinitionManifest {
        items: vec![
            def("entrance", &[North]),
            def("straight", &[North, South]),
            def("attic", &[South]),
        ],
    }
}

#[test]
fn lookup_known_name() {
    let m = catalog();
    assert_eq!(m.lookup(&"straight".to_string()), Ok(1));
    assert_eq!(m.lookup(&"attic".to_string()), Ok(2));
}

#[test]
fn lookup_unknown_name() {
    let m = catalog();
    assert_eq!(m.lookup(&"cellar".to_string()), Err(MapGenerationError::UnknownRoomType));
}

#[test]
fn entrance_definition_found() {
    let m = catalog();
    assert_eq!(m.entrance_definition(), Ok(0));
}

#[test]
fn entrance_definition_missing() {
    let m = RoomDefinitionManifest { items: vec![def("straight", &[North, South])] };
    assert_eq!(m.entrance_definition(), Err(MapGenerationError::MissingEntranceType));
}

#[test]
fn get_by_index() {
    let m = catalog();
    assert_eq!(m.get(2).map(|d| d.room_name.as_str()), Some("attic"));
    assert!(m.get(3).is_none());
}

#[test]
fn random_definition_in_range() {
    let m = catalog();
    let mut rng = StdRng::seed_from_u64(21);
    for _ in 0..200 {
        let i = m.random_definition(&mut rng).expect("catalog is not empty");
        assert!(i < m.items.len());
    }
}

#[test]
fn random_definition_varies() {
    // The draw must actually come from the random number generator: over
    // many draws every index of a three-entry catalog shows up.
    let m = catalog();
    let mut rng = StdRng::seed_from_u64(33);
    let mut seen = [false; 3];
    for _ in 0..200 {
        let i = m.random_definition(&mut rng).expect("catalog is not empty");
        seen[i] = true;
    }
    assert_eq!(seen, [true, true, true]);
}

#[test]
fn random_definition_empty_catalog() {
    let m = RoomDefinitionManifest { items: Vec::new() };
    let mut rng = StdRng::seed_from_u64(1);
    assert_eq!(m.random_definition(&mut rng), Err(MapGenerationError::CatalogEmpty));
}
