//! Unique reference of a tag in the database: zone, tag number and three
//! indices.

use vstd::prelude::*;

verus! {

/// Unique key of a database tag.
#[derive(Clone, Copy, Debug, Default, Hash, PartialEq, Eq, Structural)]
pub struct IdTag {
    pub zone: u8,
    pub num_tag: u16,
    pub indice_0: u8,
    pub indice_1: u8,
    pub indice_2: u8,
}

impl IdTag {
    /// Builds a key from a zone, a tag number and the three indices.
    pub fn new(zone: u8, tag: u16, indices: [u8; 3]) -> (r: IdTag)
        ensures
            r.zone == zone,
            r.num_tag == tag,
            r.indice_0 == indices[0],
            r.indice_1 == indices[1],
            r.indice_2 == indices[2],
    {
        IdTag {
            zone,
            num_tag: tag,
            indice_0: indices[0],
            indice_1: indices[1],
            indice_2: indices[2],
        }
    }
}

} // verus!
