//! Proofs of real estate: a land right, alone or with the right of the
//! building the land contains, checked against the resources of the
//! service and read into the data of the real estate.
use vstd::prelude::*;
use crate::decimal::Decimal;
use crate::resource::ResourceAddress;

verus! {

/// A land right's data: its size, its location and the building it
/// contains, if any.
#[derive(Clone, Debug)]
pub struct Land {
    pub size: Decimal,
    pub location: String,
    pub contain: Option<u64>,
}

/// A building right's data.
#[derive(Clone, Copy, Debug, PartialEq, Eq, Structural)]
pub struct Building {
    pub size: Decimal,
    pub floor: u32,
}

/// A land right: the token's resource and id, and its data. It stands for
/// the token held in a bucket, or for a proof of holding it.
#[derive(Clone, Debug)]
pub struct LandProof {
    pub resource: ResourceAddress,
    pub id: u64,
    pub data: Land,
}

/// A building right, held or shown, like a land right.
#[derive(Clone, Copy, Debug, PartialEq, Eq, Structural)]
pub struct BuildingProof {
    pub resource: ResourceAddress,
    pub id: u64,
    pub data: Building,
}

/// The proofs of a real estate: a land right, with the building right when
/// the land contains a building.
pub enum RealEstateProof {
    Land(LandProof),
    LandandBuilding(LandProof, BuildingProof),
}

/// The data of a real estate: land size and location, and building size
/// and floors when there is a building.
#[derive(Clone, Debug)]
pub enum RealEstateData {
    Land(Decimal, String),
    LandandBuilding(Decimal, String, Decimal, u32),
}

/// Why a real estate proof is refused.
#[derive(Clone, Copy, Debug, PartialEq, Eq, Structural)]
pub enum EstateError {
    /// A proof of another resource than the service's land or building.
    WrongResource,
    /// The land contains a building, whose right must be shown too.
    ContainsBuilding,
    /// The land contains no building.
    NoBuilding,
    /// The land contains another building than the one shown.
    BuildingMismatch,
}

/// What checking a land right that stands alone gives: its id and data, or
/// why it is refused.
pub open spec fn land_check(land_right: LandProof, land: ResourceAddress) -> Result<(u64, Land), EstateError> {
    if land_right.resource != land {
        Err(EstateError::WrongResource)
    } else if land_right.data.contain is Some {
        Err(EstateError::ContainsBuilding)
    } else {
        Ok((land_right.id, land_right.data))
    }
}

/// What checking a land right with the right of its building gives.
pub open spec fn land_building_check(
    land_right: LandProof,
    building_right: BuildingProof,
    land: ResourceAddress,
    building: ResourceAddress,
) -> Result<(u64, Land, u64, Building), EstateError> {
    if land_right.resource != land || building_right.resource != building {
        Err(EstateError::WrongResource)
    } else {
        match land_right.data.contain {
            None => Err(EstateError::NoBuilding),
            Some(b) => if b != building_right.id {
                Err(EstateError::BuildingMismatch)
            } else {
                Ok((land_right.id, land_right.data, building_right.id, building_right.data))
            },
        }
    }
}

/// What reading a real estate from its proofs gives: the land's id, the
/// building's id when there is one, and the data.
pub open spec fn real_estate_of(real_estate: RealEstateProof, land: ResourceAddress, building: ResourceAddress) -> Result<
    (u64, Option<u64>, RealEstateData),
    EstateError,
> {
    match real_estate {
        RealEstateProof::Land(l) => match land_check(l, land) {
            Err(e) => Err(e),
            Ok((id, d)) => Ok((id, None, RealEstateData::Land(d.size, d.location))),
        },
        RealEstateProof::LandandBuilding(l, b) => match land_building_check(l, b, land, building) {
            Err(e) => Err(e),
            Ok((id, d, bid, bd)) => Ok((id, Some(bid), RealEstateData::LandandBuilding(d.size, d.location, bd.size, bd.floor))),
        },
    }
}

/// Checks a land right that stands alone: of the land resource, and with
/// no building on it. Returns the land's id and data.
pub fn assert_land_proof(land_right: LandProof, land: ResourceAddress) -> (r: Result<(u64, Land), EstateError>)
    ensures
        r == land_check(land_right, land),
{
    if land_right.resource != land {
        return Err(EstateError::WrongResource);
    }
    if land_right.data.contain.is_some() {
        return Err(EstateError::ContainsBuilding);
    }
    Ok((land_right.id, land_right.data))
}

/// Checks a land right with the right of the building on it. Returns the
/// ids and data of both.
pub fn assert_landandbuilding_proof(land_right: LandProof, building_right: BuildingProof, land: ResourceAddress, building: ResourceAddress) -> (r: Result<
    (u64, Land, u64, Building),
    EstateError,
>)
    ensures
        r == land_building_check(land_right, building_right, land, building),
{
    if land_right.resource != land || building_right.resource != building {
        return Err(EstateError::WrongResource);
    }
    match land_right.data.contain {
        None => Err(EstateError::NoBuilding),
        Some(b) => if b != building_right.id {
            Err(EstateError::BuildingMismatch)
        } else {
            Ok((land_right.id, land_right.data, building_right.id, building_right.data))
        },
    }
}

/// Reads a real estate from its proofs: the land's id, the building's id
/// when there is one, and the data.
pub fn get_real_estate_data(real_estate: RealEstateProof, land: ResourceAddress, building: ResourceAddress) -> (r: Result<
    (u64, Option<u64>, RealEstateData),
    EstateError,
>)
    ensures
        r == real_estate_of(real_estate, land, building),
{
    match real_estate {
        RealEstateProof::Land(land_right) => {
            let (land_id, land_data) = assert_land_proof(land_right, land)?;
            Ok((land_id, None, RealEstateData::Land(land_data.size, land_data.location)))
        },
        RealEstateProof::LandandBuilding(land_right, building_right) => {
            let (land_id, land_data, building_id, building_data) = assert_landandbuilding_proof(
                land_right,
                building_right,
                land,
                building,
            )?;
            Ok((land_id, Some(building_id), RealEstateData::LandandBuilding(land_data.size, land_data.location, building_data.size, building_data.floor)))
        },
    }
}

} // verus!
