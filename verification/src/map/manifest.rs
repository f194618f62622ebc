//! The room catalog: the read-only table of room definitions that the
//! generator draws candidates from and resolves names against.

use vstd::prelude::*;

use super::rng::pick_index;
use super::{MapGenerationError, RoomDefinition};

verus! {

/// The name that the catalog must hold by convention: the definition used
/// for room 0.
pub open spec fn entrance_name() -> Seq<char> {
    "entrance"@
}

/// The catalog of room definitions. Definitions are addressed by index; a
/// name resolves to the first definition carrying it.
pub struct RoomDefinitionManifest {
    pub items: Vec<RoomDefinition>,
}

impl RoomDefinitionManifest {
    /// Whether the definition at `i` carries `name`.
    pub open spec fn name_at(self, i: int, name: Seq<char>) -> bool {
        0 <= i < self.items@.len() && self.items@[i].room_name@ == name
    }

    /// Whether some definition of the catalog carries `name`.
    pub open spec fn has_name(self, name: Seq<char>) -> bool {
        exists|i: int| self.name_at(i, name)
    }

    /// Whether `i` is the first index whose definition carries `name`.
    pub open spec fn first_with_name(self, i: int, name: Seq<char>) -> bool {
        self.name_at(i, name) && forall|j: int|
            0 <= j < i ==> self.items@[j].room_name@ != name
    }

    /// The definition at index `id`, if the catalog is that large.
    pub fn get(&self, id: usize) -> (r: Option<&RoomDefinition>)
        ensures
            match r {
                Some(def) => id < self.items@.len() && *def == self.items@[id as int],
                None => id >= self.items@.len(),
            },
    {
        if id < self.items.len() {
            Some(&self.items[id])
        } else {
            None
        }
    }

    /// The index of the first definition named `name`, if any.
    pub fn find_name(&self, name: &String) -> (r: Option<usize>)
        ensures
            match r {
                Some(i) => self.first_with_name(i as int, name@),
                None => !self.has_name(name@),
            },
    {
        let mut i: usize = 0;
        while i < self.items.len()
            invariant
                i <= self.items@.len(),
                forall|j: int| 0 <= j < i ==> self.items@[j].room_name@ != name@,
            decreases self.items@.len() - i,
        {
            if self.items[i].room_name == *name {
                return Some(i);
            }
            i += 1;
        }
        None
    }

    /// Deterministic lookup of a definition index by name; a name the catalog
    /// does not hold is the `UnknownRoomType` failure.
    pub fn lookup(&self, name: &String) -> (r: Result<usize, MapGenerationError>)
        ensures
            match r {
                Ok(i) => self.first_with_name(i as int, name@),
                Err(e) => e == MapGenerationError::UnknownRoomType && !self.has_name(name@),
            },
            r is Ok <==> self.has_name(name@),
    {
        match self.find_name(name) {
            Some(i) => Ok(i),
            None => Err(MapGenerationError::UnknownRoomType),
        }
    }

    /// The index of the definition used for room 0: the first one named
    /// "entrance". A catalog without one is the `MissingEntranceType` failure.
    pub fn entrance_definition(&self) -> (r: Result<usize, MapGenerationError>)
        ensures
            match r {
                Ok(i) => self.first_with_name(i as int, entrance_name()),
                Err(e) => e == MapGenerationError::MissingEntranceType && !self.has_name(
                    entrance_name(),
                ),
            },
            r is Ok <==> self.has_name(entrance_name()),
    {
        let needle = String::from_str("entrance");
        match self.find_name(&needle) {
            Some(i) => Ok(i),
            None => Err(MapGenerationError::MissingEntranceType),
        }
    }

    /// The index of a definition drawn at random from the catalog; an empty
    /// catalog is the `CatalogEmpty` failure. Which index comes back is not
    /// specified: callers must be correct for every draw.
    pub fn random_definition(&self, rng: &mut rand::rngs::StdRng) -> (r: Result<
        usize,
        MapGenerationError,
    >)
        ensures
            match r {
                Ok(i) => i < self.items@.len(),
                Err(e) => e == MapGenerationError::CatalogEmpty && self.items@.len() == 0,
            },
            r is Ok <==> self.items@.len() > 0,
    {
        if self.items.len() == 0 {
            Err(MapGenerationError::CatalogEmpty)
        } else {
            Ok(pick_index(rng, self.items.len()))
        }
    }
}

} // verus!
