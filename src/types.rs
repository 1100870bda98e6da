//! The records that replies decode into.

use vstd::prelude::*;

verus! {

/// The tax rate, in percent, of each of the seven cities.
#[derive(Clone, Copy, Debug, PartialEq, Eq, Structural)]
pub struct TaxRatesValue {
    pub limsa_lominsa: u8,
    pub gridania: u8,
    pub uldah: u8,
    pub ishgard: u8,
    pub kugane: u8,
    pub crystarium: u8,
    pub old_sharlayan: u8,
}

/// Item ids in the order the store keeps them.
#[derive(Debug)]
pub struct RecentlyUpdated {
    pub items: Vec<u32>,
}

/// When an item was last uploaded on a world, in seconds since the epoch.
#[derive(Clone, Copy, Debug, PartialEq, Eq, Structural)]
pub struct WorldItemUpload {
    pub world_id: u32,
    pub item_id: u32,
    pub last_upload_time: i64,
}

impl WorldItemUpload {
    /// The upload with every field zero.
    pub fn new() -> (r: Self)
        ensures
            r.world_id == 0,
            r.item_id == 0,
            r.last_upload_time == 0,
    {
        WorldItemUpload { world_id: 0, item_id: 0, last_upload_time: 0 }
    }
}

/// Uploads ranked by their time, in the order the store returned them.
#[derive(Debug)]
pub struct MostLeastRecentlyUpdated {
    pub items: Vec<WorldItemUpload>,
}

} // verus!
