//! Static data of vessels, kept by MMSI until the message that continues it
//! has come.

use vstd::prelude::*;
use hashbrown::HashMap;
use crate::fragments::counts;

verus! {

/// What a vessel says of itself once and for long: who it is and how large.
#[derive(Clone, Debug, PartialEq)]
pub struct VesselStaticData {
    /// Whether the data is about the own vessel.
    pub own_vessel: bool,
    /// MMSI of the vessel (30 bits).
    pub mmsi: u32,
    /// Name of the vessel.
    pub name: Option<String>,
    /// Call sign of the vessel.
    pub call_sign: Option<String>,
    /// Type of ship and cargo, as the code that is sent.
    pub ship_type: u8,
    /// Distance from the reference point to the bow, in metres.
    pub dimension_to_bow: Option<u16>,
    /// Distance from the reference point to the stern, in metres.
    pub dimension_to_stern: Option<u16>,
    /// Distance from the reference point to port, in metres.
    pub dimension_to_port: Option<u16>,
    /// Distance from the reference point to starboard, in metres.
    pub dimension_to_starboard: Option<u16>,
}

impl Default for VesselStaticData {
    fn default() -> (data: VesselStaticData)
        ensures
            data.mmsi == 0,
            !data.own_vessel,
            data.name is None,
            data.call_sign is None,
            data.ship_type == 0,
            data.dimension_to_bow is None,
            data.dimension_to_stern is None,
            data.dimension_to_port is None,
            data.dimension_to_starboard is None,
    {
        VesselStaticData {
            own_vessel: false,
            mmsi: 0,
            name: None,
            call_sign: None,
            ship_type: 0,
            dimension_to_bow: None,
            dimension_to_stern: None,
            dimension_to_port: None,
            dimension_to_starboard: None,
        }
    }
}

/// Static data by MMSI, kept in a `hashbrown::HashMap`.
#[verifier::external_body]
pub struct StaticDataCache {
    map: HashMap<u32, VesselStaticData>,
}

/// The records that a `StaticDataCache` holds, by MMSI.
pub uninterp spec fn cached(cache: StaticDataCache) -> Map<u32, VesselStaticData>;

impl View for StaticDataCache {
    type V = Map<u32, VesselStaticData>;

    open spec fn view(&self) -> Map<u32, VesselStaticData> {
        cached(*self)
    }
}

impl Clone for StaticDataCache {
    fn clone(&self) -> (copy: Self)
        ensures
            copy@ == self@,
    {
        self.raw_clone()
    }
}

impl StaticDataCache {
    /// `HashMap::clone`: the copy holds the same records under the same keys.
    #[verifier::external_body]
    pub(crate) fn raw_clone(&self) -> (copy: StaticDataCache)
        ensures
            cached(copy) == cached(*self),
    {
        StaticDataCache { map: self.map.clone() }
    }

    /// `HashMap::new`: a map without entries.
    #[verifier::external_body]
    pub(crate) fn raw_new() -> (cache: StaticDataCache)
        ensures
            cached(cache) == (Map::<u32, VesselStaticData>::empty()),
    {
        StaticDataCache { map: HashMap::new() }
    }

    /// `HashMap::insert`: `data` stands under `mmsi`, in place of what stood
    /// there; the other entries stay.
    #[verifier::external_body]
    pub(crate) fn raw_insert(&mut self, mmsi: u32, data: VesselStaticData)
        ensures
            cached(*final(self)) == cached(*old(self)).insert(mmsi, data),
    {
        self.map.insert(mmsi, data);
    }

    /// `HashMap::remove`: the entry under `mmsi` leaves the map and is
    /// returned; `None`, and the map as it was, where there is none.
    #[verifier::external_body]
    pub(crate) fn raw_remove(&mut self, mmsi: u32) -> (data: Option<VesselStaticData>)
        ensures
            cached(*final(self)) == cached(*old(self)).remove(mmsi),
            data == if cached(*old(self)).contains_key(mmsi) {
                Some(cached(*old(self))[mmsi])
            } else {
                None
            },
    {
        self.map.remove(&mmsi)
    }

    /// `HashMap::len`: the number of entries, of which a map holds finitely
    /// many.
    #[verifier::external_body]
    pub(crate) fn raw_len(&self) -> (n: usize)
        ensures
            counts(cached(*self), n),
    {
        self.map.len()
    }

    /// `HashMap::clear`: no entry stays.
    #[verifier::external_body]
    pub(crate) fn raw_clear(&mut self)
        ensures
            cached(*final(self)) == (Map::<u32, VesselStaticData>::empty()),
    {
        self.map.clear()
    }
}

} // verus!
