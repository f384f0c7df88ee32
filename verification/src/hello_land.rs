//! Lands that carry the right of their building inside their own data:
//! minting a land with a house mints the building right first and stores
//! it in the land right.
use vstd::prelude::*;
use crate::decimal::Decimal;
use crate::estate::{Building, BuildingProof};
use crate::resource::ResourceAddress;

verus! {

/// A land right's data: its size, its location and the building right it
/// holds.
#[derive(Clone, Debug)]
pub struct Land {
    pub size: Decimal,
    pub location: String,
    pub contain: BuildingProof,
}

/// A land right: its resource, its id and its data.
#[derive(Clone, Debug)]
pub struct LandToken {
    pub resource: ResourceAddress,
    pub id: u64,
    pub data: Land,
}

/// The component: the land and building resources it mints.
pub struct Hello {
    land: ResourceAddress,
    building: ResourceAddress,
}

impl Hello {
    pub closed spec fn land_res(&self) -> ResourceAddress {
        self.land
    }

    pub closed spec fn building_res(&self) -> ResourceAddress {
        self.building
    }

    /// A component minting lands of `land` and buildings of `building`.
    pub fn instantiate_hello(land: ResourceAddress, building: ResourceAddress) -> (r: Hello)
        ensures
            r.land_res() == land,
            r.building_res() == building,
    {
        Hello { land, building }
    }

    /// Mints a building of `building_size` and `building_floor` floors with
    /// the id `building_id`, and the land of `land_size` at `location`, with
    /// the id `land_id`, that holds it.
    pub fn new_land_with_house(
        &mut self,
        building_size: Decimal,
        building_floor: u32,
        land_size: Decimal,
        location: String,
        building_id: u64,
        land_id: u64,
    ) -> (r: LandToken)
        ensures
            r == (LandToken {
                resource: old(self).land_res(),
                id: land_id,
                data: Land {
                    size: land_size,
                    location,
                    contain: BuildingProof {
                        resource: old(self).building_res(),
                        id: building_id,
                        data: Building { size: building_size, floor: building_floor },
                    },
                },
            }),
            final(self).land_res() == old(self).land_res(),
            final(self).building_res() == old(self).building_res(),
    {
        let building_right = BuildingProof {
            resource: self.building,
            id: building_id,
            data: Building { size: building_size, floor: building_floor },
        };
        LandToken { resource: self.land, id: land_id, data: Land { size: land_size, location, contain: building_right } }
    }
}

} // verus!
