//! The real estate service of an authority: it issues land rights, keeps a
//! book of citizens' requests to divide or merge lands, authorizes them
//! into land modify badges, and divides or merges the lands against those
//! badges for a fixed rate paid in the medium token.
use vstd::prelude::*;
use std::collections::HashMap;
use std::collections::HashSet;
use crate::decimal::{dec_of, dec_one, ddiv, whole, Decimal};
use crate::estate::{
    assert_land_proof, assert_landandbuilding_proof, get_real_estate_data, land_building_check, land_check,
    real_estate_of, BuildingProof, EstateError, Land, LandProof, RealEstateData, RealEstateProof,
};
use crate::estate_institute::{Construction, ConstructionType, RealEstateConstructionInstitute};
use crate::resource::{group_bucket, Bucket, ComponentAddress, NonFungible, Proof, ResourceAddress};

verus! {

broadcast use {vstd::std_specs::hash::group_hash_axioms, group_bucket};

/// What an oracle says of a change: that two real estates lie next to each
/// other, that a new one overlaps nothing, or that a construction does no
/// harm.
#[derive(Clone, Copy, Debug, PartialEq, Eq, Structural)]
pub enum Feasible {
    IsNextTo(bool),
    IsNotOverLap(bool),
    IsOk(bool),
}

/// Which of the two divided lands the building of the divided land stands
/// on, if it had one.
#[derive(Clone, Copy, Debug, PartialEq, Eq, Structural)]
pub enum BuildingOnLand {
    NoBuilding,
    Land1,
    Land2,
}

/// A change to a land: a division into two lands (requested, or authorized
/// with where the building goes), or a merge with another land.
#[derive(Clone, Debug)]
pub enum LandModifyType {
    Divide(RealEstateData, RealEstateData, Option<u64>, BuildingOnLand),
    DivideRequest(RealEstateData, RealEstateData, Option<u64>),
    Merge(u64, Option<u64>),
}

/// The data of a land modify badge: the land it is for and the change.
#[derive(Clone, Debug)]
pub struct LandModify {
    pub land_id: u64,
    pub land_modify: LandModifyType,
}

/// A land modify badge: its resource, its id and its data.
#[derive(Clone, Debug)]
pub struct LandModifyBadge {
    pub resource: ResourceAddress,
    pub id: u64,
    pub data: LandModify,
}

/// The resources the service makes when it is instantiated.
#[derive(Clone, Copy, Debug, PartialEq, Eq, Structural)]
pub struct ServiceResources {
    pub id_badge: ResourceAddress,
    pub move_badge: ResourceAddress,
    pub market_controller_badge: ResourceAddress,
    pub institute_controller_badge: ResourceAddress,
    pub building: ResourceAddress,
    pub land: ResourceAddress,
    pub land_modify_badge: ResourceAddress,
    pub request_badge: ResourceAddress,
    pub institute_badge: ResourceAddress,
    pub market_host_badge: ResourceAddress,
    pub authority_badge: ResourceAddress,
}

/// Why a call of the service is refused. A refused call changes nothing.
#[derive(Clone, Copy, Debug, PartialEq, Eq, Structural)]
pub enum ServiceError {
    /// A bucket or a badge of another resource than the one expected.
    WrongResource,
    /// A real estate proof is refused.
    Estate(EstateError),
    /// The oracle's data is of another kind than the change needs.
    WrongOracleData,
    /// The new land overlaps an existing real estate.
    Overlapped,
    /// The two lands to merge do not lie next to each other.
    NotNextTo,
    /// A land size is not positive, or the divided sizes do not add up.
    InvalidLandSize,
    /// A divided land is described with a building.
    WrongRealEstateData,
    /// Two lands that both hold a building cannot merge.
    TwoBuildings,
    UnknownRequest,
    /// A request the book holds is not one that can be authorized.
    WrongLandModifyData,
    /// The request is still in the book.
    NotReviewed,
    /// The payment is less than the rate.
    NotEnoughPayment,
    /// The land modify badge is for another change.
    WrongLandModifyBadge,
    WrongBuildingProof,
    /// The land right is not the one the badge is for.
    WrongLandRight,
    /// The citizen already holds an ID badge.
    DuplicateCitizen,
    /// A sum or a percentage does not fit.
    Overflow,
    /// The call needs a proof of the authority badge, or of a citizen's ID badge.
    Unauthorized,
}

/// `percent` percent as a fraction.
pub open spec fn fraction(percent: Decimal) -> Option<Decimal> {
    dec_of(ddiv(percent@, 100 * dec_one()))
}

/// The land right of the land with id `id` and data `data`.
pub open spec fn land_token(land: ResourceAddress, id: u64, size: Decimal, location: String, contain: Option<u64>) -> LandProof {
    LandProof { resource: land, id, data: Land { size, location, contain } }
}

/// A proof of one move badge, which lets real estate rights be deposited.
pub open spec fn move_proof(move_badge: ResourceAddress) -> Proof {
    Proof { resource: move_badge, amount: whole(1) }
}

/// The two lands a land of `size` divides into, by the data `d1` and `d2`:
/// both without a building, with positive sizes that add up to `size`. The
/// new lands get the ids in `ids` and hold the buildings `placement` gives;
/// no placement means the oracle's data on the building was wrong.
pub open spec fn split_lands(
    d1: RealEstateData,
    d2: RealEstateData,
    size: Decimal,
    land: ResourceAddress,
    ids: (u64, u64),
    placement: Option<(Option<u64>, Option<u64>)>,
) -> Result<(LandProof, LandProof), ServiceError> {
    match (d1, d2) {
        (RealEstateData::Land(s1, l1), RealEstateData::Land(s2, l2)) => if !(s1@ + s2@ == size@ && s1@ > 0 && s2@ > 0) {
            Err(ServiceError::InvalidLandSize)
        } else {
            match placement {
                None => Err(ServiceError::WrongOracleData),
                Some((c1, c2)) => Ok((land_token(land, ids.0, s1, l1, c1), land_token(land, ids.1, s2, l2, c2))),
            }
        },
        _ => Err(ServiceError::WrongRealEstateData),
    }
}

/// Where the building `b` goes when its land is divided.
pub open spec fn placement_of(b: u64, on: BuildingOnLand) -> Option<(Option<u64>, Option<u64>)> {
    match on {
        BuildingOnLand::Land1 => Some((Some(b), None)),
        BuildingOnLand::Land2 => Some((None, Some(b))),
        BuildingOnLand::NoBuilding => None,
    }
}

/// The real estate service of an authority.
pub struct RealEstateService {
    address: ComponentAddress,
    resources: ServiceResources,
    tax: Decimal,
    rate: Decimal,
    token: ResourceAddress,
    citizens: HashSet<u64>,
    construction_institutes: HashSet<u64>,
    market_places: HashSet<u64>,
    tax_vault: Decimal,
    request_book: HashMap<u64, (u64, LandModifyType)>,
    land_modify_badge_vault: HashMap<u64, LandModify>,
    request_counter: u64,
}

impl RealEstateService {
    pub closed spec fn component(&self) -> ComponentAddress {
        self.address
    }

    pub closed spec fn res(&self) -> ServiceResources {
        self.resources
    }

    /// The tax on trades, as a fraction.
    pub closed spec fn tax_fraction(&self) -> Decimal {
        self.tax
    }

    /// The rate paid for each land change, in the medium token.
    pub closed spec fn service_rate(&self) -> Decimal {
        self.rate
    }

    pub closed spec fn medium_token(&self) -> ResourceAddress {
        self.token
    }

    /// The citizens holding an ID badge.
    pub closed spec fn citizen_set(&self) -> Set<u64> {
        self.citizens@
    }

    pub closed spec fn institutes(&self) -> Set<u64> {
        self.construction_institutes@
    }

    pub closed spec fn markets(&self) -> Set<u64> {
        self.market_places@
    }

    /// The tax collected and not yet taken.
    pub closed spec fn collected(&self) -> Decimal {
        self.tax_vault
    }

    /// The requests awaiting review, by request id: the land and the change.
    pub closed spec fn requests(&self) -> Map<u64, (u64, LandModifyType)> {
        self.request_book@
    }

    /// The authorized land modify badges awaiting their citizens, by id.
    pub closed spec fn authorized(&self) -> Map<u64, LandModify> {
        self.land_modify_badge_vault@
    }

    /// The id of the next request.
    pub closed spec fn counter(&self) -> u64 {
        self.request_counter
    }

    /// The tax collected is not negative.
    pub closed spec fn wf(&self) -> bool {
        self.tax_vault@ >= 0
    }

    /// The address, resources, tax, rate and medium token are those of `o`.
    pub open spec fn same_setup(&self, o: &Self) -> bool {
        &&& self.component() == o.component()
        &&& self.res() == o.res()
        &&& self.tax_fraction() == o.tax_fraction()
        &&& self.service_rate() == o.service_rate()
        &&& self.medium_token() == o.medium_token()
    }

    /// The citizens, institutes and market places are those of `o`.
    pub open spec fn same_registry(&self, o: &Self) -> bool {
        &&& self.citizen_set() == o.citizen_set()
        &&& self.institutes() == o.institutes()
        &&& self.markets() == o.markets()
    }

    /// The requests, the authorized badges and the request counter are those
    /// of `o`.
    pub open spec fn same_book(&self, o: &Self) -> bool {
        &&& self.requests() == o.requests()
        &&& self.authorized() == o.authorized()
        &&& self.counter() == o.counter()
    }

    /// Why the rate cannot be paid from `payment`, if it cannot: a payment
    /// in another token, too small a payment, or a tax vault that would
    /// overflow.
    pub open spec fn rate_error(&self, payment: Bucket) -> Option<ServiceError> {
        if payment.res() != self.medium_token() {
            Some(ServiceError::WrongResource)
        } else if !(0 <= self.service_rate()@ <= payment.amt()@) {
            Some(ServiceError::NotEnoughPayment)
        } else if dec_of(self.collected()@ + self.service_rate()@) is None {
            Some(ServiceError::Overflow)
        } else {
            None
        }
    }

    /// The payment less the rate.
    pub open spec fn change_of(&self, payment: Bucket) -> Bucket {
        Bucket::spec_new(payment.res(), Decimal((payment.amt()@ - self.service_rate()@) as i128))
    }

    /// What merging the lands of `land_right1` and `land_right2` with `badge`
    /// gives: the merged land, which keeps the location of the land the
    /// badge is for, or why the merge is refused.
    pub open spec fn merge_result(
        &self,
        land_right1: LandProof,
        land_right2: LandProof,
        building_proof: Option<BuildingProof>,
        badge: LandModifyBadge,
        new_id: u64,
    ) -> Result<LandProof, ServiceError> {
        let id = badge.data.land_id;
        if land_right1.id != id && land_right2.id != id {
            Err(ServiceError::WrongLandRight)
        } else {
            let (first, second) = if land_right1.id == id {
                (land_right1, land_right2)
            } else {
                (land_right2, land_right1)
            };
            match badge.data.land_modify {
                LandModifyType::Merge(other, building_id) => {
                    let checked: Result<Option<u64>, ServiceError> = match building_id {
                        None => if building_proof is Some {
                            Err(ServiceError::WrongBuildingProof)
                        } else {
                            Ok(None)
                        },
                        Some(b) => match building_proof {
                            None => Err(ServiceError::WrongBuildingProof),
                            Some(bp) => if bp.id != b {
                                Err(ServiceError::WrongBuildingProof)
                            } else {
                                Ok(Some(b))
                            },
                        },
                    };
                    match checked {
                        Err(e) => Err(e),
                        Ok(contain) => if second.id != other {
                            Err(ServiceError::WrongLandRight)
                        } else {
                            match dec_of(first.data.size@ + second.data.size@) {
                                None => Err(ServiceError::Overflow),
                                Some(size) => Ok(land_token(self.res().land, new_id, size, first.data.location, contain)),
                            }
                        },
                    }
                },
                _ => Err(ServiceError::WrongLandModifyBadge),
            }
        }
    }

    /// What dividing `land_right` with `badge` gives: the two new lands, or
    /// why the division is refused.
    pub open spec fn divide_result(
        &self,
        land_right: LandProof,
        building_proof: Option<BuildingProof>,
        badge: LandModifyBadge,
        ids: (u64, u64),
    ) -> Result<(LandProof, LandProof), ServiceError> {
        let land = self.res().land;
        match badge.data.land_modify {
            LandModifyType::Divide(d1, d2, building_id, on) => match building_id {
                None => if building_proof is Some {
                    Err(ServiceError::WrongBuildingProof)
                } else {
                    match land_check(land_right, land) {
                        Err(e) => Err(ServiceError::Estate(e)),
                        Ok((id, data)) => if id != badge.data.land_id {
                            Err(ServiceError::WrongLandRight)
                        } else {
                            split_lands(d1, d2, data.size, land, ids, Some((None, None)))
                        },
                    }
                },
                Some(b) => match building_proof {
                    None => Err(ServiceError::WrongBuildingProof),
                    Some(bp) => if bp.id != b {
                        Err(ServiceError::WrongBuildingProof)
                    } else {
                        match land_building_check(land_right, bp, land, self.res().building) {
                            Err(e) => Err(ServiceError::Estate(e)),
                            Ok((id, data, _, _)) => if id != badge.data.land_id {
                                Err(ServiceError::WrongLandRight)
                            } else {
                                split_lands(d1, d2, data.size, land, ids, placement_of(b, on))
                            },
                        }
                    },
                },
            },
            _ => Err(ServiceError::WrongLandModifyBadge),
        }
    }

    /// A service at `address` taxing trades at `tax` percent and charging
    /// `rate` for each land change, paid in `medium_token`. The authority
    /// badge goes to the caller.
    pub fn new(
        tax: Decimal,
        rate: Decimal,
        medium_token: ResourceAddress,
        address: ComponentAddress,
        resources: ServiceResources,
    ) -> (r: Result<(RealEstateService, Bucket), ServiceError>)
        ensures
            match fraction(tax) {
                None => r == Err::<(RealEstateService, Bucket), ServiceError>(ServiceError::Overflow),
                Some(t) => r matches Ok((s, badge)) && {
                    &&& s.wf()
                    &&& s.component() == address
                    &&& s.res() == resources
                    &&& s.tax_fraction() == t
                    &&& s.service_rate() == rate
                    &&& s.medium_token() == medium_token
                    &&& s.citizen_set() == Set::<u64>::empty()
                    &&& s.institutes() == Set::<u64>::empty()
                    &&& s.markets() == Set::<u64>::empty()
                    &&& s.collected()@ == 0
                    &&& s.requests() == Map::<u64, (u64, LandModifyType)>::empty()
                    &&& s.authorized() == Map::<u64, LandModify>::empty()
                    &&& s.counter() == 0
                    &&& badge == Bucket::spec_new(resources.authority_badge, whole(1))
                },
            },
    {
        let t = match tax.checked_div(Decimal(100 * 1_000_000_000_000_000_000)) {
            Some(t) => t,
            None => return Err(ServiceError::Overflow),
        };
        let s = RealEstateService {
            address,
            resources,
            tax: t,
            rate,
            token: medium_token,
            citizens: HashSet::new(),
            construction_institutes: HashSet::new(),
            market_places: HashSet::new(),
            tax_vault: Decimal(0),
            request_book: HashMap::new(),
            land_modify_badge_vault: HashMap::new(),
            request_counter: 0,
        };
        Ok((s, Bucket::of(resources.authority_badge, Decimal(1_000_000_000_000_000_000))))
    }

    /// Issues the ID badge of the citizen `citizen_id`, which lets the
    /// citizen use the services.
    pub fn authorize_citizen(&mut self, auth: Proof, citizen_id: u64) -> (r: Result<NonFungible, ServiceError>)
        ensures
            !(auth.shows(old(self).res().authority_badge)) ==> r == Err::<NonFungible, ServiceError>(ServiceError::Unauthorized) && *final(self) == *old(self),
            (auth.shows(old(self).res().authority_badge)) ==> (if old(self).citizen_set().contains(citizen_id) {
                r == Err::<NonFungible, ServiceError>(ServiceError::DuplicateCitizen) && *final(self) == *old(self)
            } else {
                &&& r == Ok::<NonFungible, ServiceError>(NonFungible { resource: old(self).res().id_badge, id: citizen_id })
                &&& final(self).citizen_set() == old(self).citizen_set().insert(citizen_id)
                &&& final(self).same_setup(old(self))
                &&& final(self).institutes() == old(self).institutes()
                &&& final(self).markets() == old(self).markets()
                &&& final(self).collected() == old(self).collected()
                &&& final(self).same_book(old(self))
            }),
    {
        if !auth.check(self.resources.authority_badge) {
            return Err(ServiceError::Unauthorized);
        }
        if self.citizens.contains(&citizen_id) {
            return Err(ServiceError::DuplicateCitizen);
        }
        self.citizens.insert(citizen_id);
        Ok(NonFungible { resource: self.resources.id_badge, id: citizen_id })
    }

    /// Issues the right of a new land of `land_size` at `location`, with the
    /// id `land_id`, when the oracle says it overlaps nothing; with it comes
    /// a proof of a move badge to deposit the right.
    pub fn new_land(&self, auth: Proof, land_size: Decimal, location: String, is_not_overlap: Feasible, land_id: u64) -> (r: Result<
        (LandProof, Proof),
        ServiceError,
    >)
        ensures
            !(auth.shows(self.res().authority_badge)) ==> r == Err::<(LandProof, Proof), ServiceError>(ServiceError::Unauthorized),
            (auth.shows(self.res().authority_badge)) ==> (match is_not_overlap {
                Feasible::IsNotOverLap(ok) => if !ok {
                    r == Err::<(LandProof, Proof), ServiceError>(ServiceError::Overlapped)
                } else if land_size@ <= 0 {
                    r == Err::<(LandProof, Proof), ServiceError>(ServiceError::InvalidLandSize)
                } else {
                    r == Ok::<(LandProof, Proof), ServiceError>(
                        (
                            land_token(self.res().land, land_id, land_size, location, None),
                            move_proof(self.res().move_badge),
                        ),
                    )
                },
                _ => r == Err::<(LandProof, Proof), ServiceError>(ServiceError::WrongOracleData),
            }),
    {
        if !auth.check(self.resources.authority_badge) {
            return Err(ServiceError::Unauthorized);
        }
        match is_not_overlap {
            Feasible::IsNotOverLap(ok) => {
                if !ok {
                    return Err(ServiceError::Overlapped);
                }
            },
            _ => return Err(ServiceError::WrongOracleData),
        }
        if land_size.0 <= 0 {
            return Err(ServiceError::InvalidLandSize);
        }
        let land = LandProof { resource: self.resources.land, id: land_id, data: Land { size: land_size, location, contain: None } };
        Ok((land, Proof { resource: self.resources.move_badge, amount: Decimal(1_000_000_000_000_000_000) }))
    }

    /// Files a request to divide the real estate shown by `real_estate_proof`
    /// into two lands described by `divided_land1` and `divided_land2`, which
    /// hold no building. Returns the request badge, whose id is the
    /// request's.
    pub fn new_land_divide_request(
        &mut self,
        id: Proof,
        real_estate_proof: RealEstateProof,
        divided_land1: RealEstateData,
        divided_land2: RealEstateData,
    ) -> (r: Result<NonFungible, ServiceError>)
        ensures
            !(id.shows(old(self).res().id_badge)) ==> r == Err::<NonFungible, ServiceError>(ServiceError::Unauthorized) && *final(self) == *old(self),
            r is Err ==> *final(self) == *old(self),
            (id.shows(old(self).res().id_badge)) ==> (match real_estate_of(real_estate_proof, old(self).res().land, old(self).res().building) {
                Err(e) => r == Err::<NonFungible, ServiceError>(ServiceError::Estate(e)),
                Ok((land_id, building_id, _)) => if divided_land1 is LandandBuilding || divided_land2 is LandandBuilding {
                    r == Err::<NonFungible, ServiceError>(ServiceError::WrongRealEstateData)
                } else if old(self).counter() == u64::MAX {
                    r == Err::<NonFungible, ServiceError>(ServiceError::Overflow)
                } else {
                    let id = old(self).counter();
                    &&& r == Ok::<NonFungible, ServiceError>(NonFungible { resource: old(self).res().request_badge, id })
                    &&& final(self).requests() == old(self).requests().insert(
                        id,
                        (land_id, LandModifyType::DivideRequest(divided_land1, divided_land2, building_id)),
                    )
                    &&& final(self).counter() == id + 1
                    &&& final(self).authorized() == old(self).authorized()
                    &&& final(self).same_setup(old(self))
                    &&& final(self).same_registry(old(self))
                    &&& final(self).collected() == old(self).collected()
                },
            }),
    {
        if !id.check(self.resources.id_badge) {
            return Err(ServiceError::Unauthorized);
        }
        let (land_id, building_id, _data) = match get_real_estate_data(
            real_estate_proof,
            self.resources.land,
            self.resources.building,
        ) {
            Ok(v) => v,
            Err(e) => return Err(ServiceError::Estate(e)),
        };
        if let RealEstateData::LandandBuilding(..) = divided_land1 {
            return Err(ServiceError::WrongRealEstateData);
        }
        if let RealEstateData::LandandBuilding(..) = divided_land2 {
            return Err(ServiceError::WrongRealEstateData);
        }
        if self.request_counter == u64::MAX {
            return Err(ServiceError::Overflow);
        }
        let id = self.request_counter;
        self.request_book.insert(id, (land_id, LandModifyType::DivideRequest(divided_land1, divided_land2, building_id)));
        self.request_counter = id + 1;
        Ok(NonFungible { resource: self.resources.request_badge, id })
    }

    /// Files a request to merge the real estate shown by `real_estate_proof1`
    /// with the one shown by `real_estate_proof2`; at most one of them may
    /// hold a building. Returns the request badge.
    pub fn new_land_merge_request(&mut self, id: Proof, real_estate_proof1: RealEstateProof, real_estate_proof2: RealEstateProof) -> (r:
        Result<NonFungible, ServiceError>)
        ensures
            !(id.shows(old(self).res().id_badge)) ==> r == Err::<NonFungible, ServiceError>(ServiceError::Unauthorized) && *final(self) == *old(self),
            r is Err ==> *final(self) == *old(self),
            (id.shows(old(self).res().id_badge)) ==> (({
                let land = old(self).res().land;
                let building = old(self).res().building;
                let checked: Result<(u64, u64, Option<u64>), ServiceError> = match real_estate_proof1 {
                    RealEstateProof::Land(p1) => match land_check(p1, land) {
                        Err(e) => Err(ServiceError::Estate(e)),
                        Ok((id1, _)) => match real_estate_proof2 {
                            RealEstateProof::Land(p2) => match land_check(p2, land) {
                                Err(e) => Err(ServiceError::Estate(e)),
                                Ok((id2, _)) => Ok((id1, id2, None)),
                            },
                            RealEstateProof::LandandBuilding(p2, b2) => match land_building_check(p2, b2, land, building) {
                                Err(e) => Err(ServiceError::Estate(e)),
                                Ok((id2, _, bid, _)) => Ok((id1, id2, Some(bid))),
                            },
                        },
                    },
                    RealEstateProof::LandandBuilding(p1, b1) => match land_building_check(p1, b1, land, building) {
                        Err(e) => Err(ServiceError::Estate(e)),
                        Ok((id1, _, bid, _)) => match real_estate_proof2 {
                            RealEstateProof::Land(p2) => match land_check(p2, land) {
                                Err(e) => Err(ServiceError::Estate(e)),
                                Ok((id2, _)) => Ok((id1, id2, Some(bid))),
                            },
                            RealEstateProof::LandandBuilding(_, _) => Err(ServiceError::TwoBuildings),
                        },
                    },
                };
                match checked {
                    Err(e) => r == Err::<NonFungible, ServiceError>(e),
                    Ok((id1, id2, bid)) => if old(self).counter() == u64::MAX {
                        r == Err::<NonFungible, ServiceError>(ServiceError::Overflow)
                    } else {
                        let id = old(self).counter();
                        &&& r == Ok::<NonFungible, ServiceError>(NonFungible { resource: old(self).res().request_badge, id })
                        &&& final(self).requests() == old(self).requests().insert(id, (id1, LandModifyType::Merge(id2, bid)))
                        &&& final(self).counter() == id + 1
                        &&& final(self).authorized() == old(self).authorized()
                        &&& final(self).same_setup(old(self))
                        &&& final(self).same_registry(old(self))
                        &&& final(self).collected() == old(self).collected()
                    },
                }
            })),
    {
        if !id.check(self.resources.id_badge) {
            return Err(ServiceError::Unauthorized);
        }
        let land = self.resources.land;
        let building = self.resources.building;
        let (land_id1, land_id2, building_id) = match real_estate_proof1 {
            RealEstateProof::Land(proof) => {
                let (land_id1, _data1) = match assert_land_proof(proof, land) {
                    Ok(v) => v,
                    Err(e) => return Err(ServiceError::Estate(e)),
                };
                match real_estate_proof2 {
                    RealEstateProof::Land(proof2) => {
                        let (land_id2, _data2) = match assert_land_proof(proof2, land) {
                            Ok(v) => v,
                            Err(e) => return Err(ServiceError::Estate(e)),
                        };
                        (land_id1, land_id2, None)
                    },
                    RealEstateProof::LandandBuilding(proof2, building_proof2) => {
                        let (land_id2, _data2, building_id, _b) = match assert_landandbuilding_proof(
                            proof2,
                            building_proof2,
                            land,
                            building,
                        ) {
                            Ok(v) => v,
                            Err(e) => return Err(ServiceError::Estate(e)),
                        };
                        (land_id1, land_id2, Some(building_id))
                    },
                }
            },
            RealEstateProof::LandandBuilding(proof, building_proof) => {
                let (land_id1, _data1, building_id, _b) = match assert_landandbuilding_proof(
                    proof,
                    building_proof,
                    land,
                    building,
                ) {
                    Ok(v) => v,
                    Err(e) => return Err(ServiceError::Estate(e)),
                };
                match real_estate_proof2 {
                    RealEstateProof::Land(proof2) => {
                        let (land_id2, _data2) = match assert_land_proof(proof2, land) {
                            Ok(v) => v,
                            Err(e) => return Err(ServiceError::Estate(e)),
                        };
                        (land_id1, land_id2, Some(building_id))
                    },
                    RealEstateProof::LandandBuilding(_, _) => return Err(ServiceError::TwoBuildings),
                }
            },
        };
        if self.request_counter == u64::MAX {
            return Err(ServiceError::Overflow);
        }
        let id = self.request_counter;
        self.request_book.insert(id, (land_id1, LandModifyType::Merge(land_id2, building_id)));
        self.request_counter = id + 1;
        Ok(NonFungible { resource: self.resources.request_badge, id })
    }

    /// Reviews the request `id` with the oracle's data: a division needs
    /// `IsNotOverLap` and a merge `IsNextTo`. A favourable review takes the
    /// request out of the book and keeps its land modify badge, with the
    /// id of the request, for the citizen; a division's badge also records
    /// `building_on_land`. An unfavourable one is refused and leaves the
    /// request in the book.
    pub fn authorize_land_modify(&mut self, auth: Proof, id: u64, is_ok: Feasible, building_on_land: BuildingOnLand) -> (r: Result<
        (),
        ServiceError,
    >)
        ensures
            !(auth.shows(old(self).res().authority_badge)) ==> r == Err::<(), ServiceError>(ServiceError::Unauthorized) && *final(self) == *old(self),
            r is Err ==> *final(self) == *old(self),
            (auth.shows(old(self).res().authority_badge)) ==> (!old(self).requests().contains_key(id) ==> r == Err::<(), ServiceError>(ServiceError::UnknownRequest)),
            (auth.shows(old(self).res().authority_badge)) ==> (old(self).requests().contains_key(id) ==> ({
                let (land_id, change) = old(self).requests()[id];
                let passed = |m: LandModifyType| {
                    &&& r is Ok
                    &&& final(self).requests() == old(self).requests().remove(id)
                    &&& final(self).authorized() == old(self).authorized().insert(
                        id,
                        LandModify { land_id, land_modify: m },
                    )
                    &&& final(self).counter() == old(self).counter()
                    &&& final(self).same_setup(old(self))
                    &&& final(self).same_registry(old(self))
                    &&& final(self).collected() == old(self).collected()
                };
                match change {
                    LandModifyType::DivideRequest(d1, d2, b) => match is_ok {
                        Feasible::IsNotOverLap(true) => passed(LandModifyType::Divide(d1, d2, b, building_on_land)),
                        Feasible::IsNotOverLap(false) => r == Err::<(), ServiceError>(ServiceError::Overlapped),
                        _ => r == Err::<(), ServiceError>(ServiceError::WrongOracleData),
                    },
                    LandModifyType::Merge(l2, b) => match is_ok {
                        Feasible::IsNextTo(true) => passed(LandModifyType::Merge(l2, b)),
                        Feasible::IsNextTo(false) => r == Err::<(), ServiceError>(ServiceError::NotNextTo),
                        _ => r == Err::<(), ServiceError>(ServiceError::WrongOracleData),
                    },
                    LandModifyType::Divide(..) => r == Err::<(), ServiceError>(ServiceError::WrongLandModifyData),
                }
            })),
    {
        if !auth.check(self.resources.authority_badge) {
            return Err(ServiceError::Unauthorized);
        }
        let is_divide = match self.request_book.get(&id) {
            None => return Err(ServiceError::UnknownRequest),
            Some(entry) => match &entry.1 {
                LandModifyType::DivideRequest(..) => true,
                LandModifyType::Merge(..) => false,
                LandModifyType::Divide(..) => return Err(ServiceError::WrongLandModifyData),
            },
        };
        if is_divide {
            match is_ok {
                Feasible::IsNotOverLap(ok) => {
                    if !ok {
                        return Err(ServiceError::Overlapped);
                    }
                },
                _ => return Err(ServiceError::WrongOracleData),
            }
        } else {
            match is_ok {
                Feasible::IsNextTo(ok) => {
                    if !ok {
                        return Err(ServiceError::NotNextTo);
                    }
                },
                _ => return Err(ServiceError::WrongOracleData),
            }
        }
        let (land_id, change) = match self.request_book.remove(&id) {
            Some(entry) => entry,
            None => return Err(ServiceError::UnknownRequest),
        };
        let land_modify = match change {
            LandModifyType::DivideRequest(d1, d2, b) => LandModifyType::Divide(d1, d2, b, building_on_land),
            other => other,
        };
        self.land_modify_badge_vault.insert(id, LandModify { land_id, land_modify });
        Ok(())
    }

    /// Gives the citizen the outcome of a reviewed request, against its
    /// request badge: the land modify badge if the request passed, nothing
    /// if it did not.
    pub fn get_land_modify_badge(&mut self, id: Proof, request_badge: NonFungible) -> (r: Result<Option<LandModifyBadge>, ServiceError>)
        ensures
            !(id.shows(old(self).res().id_badge)) ==> r == Err::<Option<LandModifyBadge>, ServiceError>(ServiceError::Unauthorized) && *final(self) == *old(self),
            r is Err ==> *final(self) == *old(self),
            (id.shows(old(self).res().id_badge)) ==> (if request_badge.resource != old(self).res().request_badge {
                r == Err::<Option<LandModifyBadge>, ServiceError>(ServiceError::WrongResource)
            } else if old(self).requests().contains_key(request_badge.id) {
                r == Err::<Option<LandModifyBadge>, ServiceError>(ServiceError::NotReviewed)
            } else if old(self).authorized().contains_key(request_badge.id) {
                &&& r == Ok::<Option<LandModifyBadge>, ServiceError>(
                    Some(
                        LandModifyBadge {
                            resource: old(self).res().land_modify_badge,
                            id: request_badge.id,
                            data: old(self).authorized()[request_badge.id],
                        },
                    ),
                )
                &&& final(self).authorized() == old(self).authorized().remove(request_badge.id)
                &&& final(self).requests() == old(self).requests()
                &&& final(self).counter() == old(self).counter()
                &&& final(self).same_setup(old(self))
                &&& final(self).same_registry(old(self))
                &&& final(self).collected() == old(self).collected()
            } else {
                r == Ok::<Option<LandModifyBadge>, ServiceError>(None) && *final(self) == *old(self)
            }),
    {
        if !id.check(self.resources.id_badge) {
            return Err(ServiceError::Unauthorized);
        }
        if request_badge.resource != self.resources.request_badge {
            return Err(ServiceError::WrongResource);
        }
        let id = request_badge.id;
        if self.request_book.contains_key(&id) {
            return Err(ServiceError::NotReviewed);
        }
        if !self.land_modify_badge_vault.contains_key(&id) {
            return Ok(None);
        }
        match self.land_modify_badge_vault.remove(&id) {
            Some(data) => Ok(Some(LandModifyBadge { resource: self.resources.land_modify_badge, id, data })),
            None => Ok(None),
        }
    }

    /// Divides the land of `land_right` as the land modify badge says,
    /// against the rate paid from `payment`: the land right and the badge
    /// are burnt, and the rights of the two new lands, with the ids in
    /// `new_ids`, come back with the change and a proof of a move badge.
    /// The building of the land, if any, is shown by `building_proof` and
    /// goes to the land the badge names.
    pub fn divide_land(
        &mut self,
        id: Proof,
        land_right: LandProof,
        building_proof: Option<BuildingProof>,
        land_modify_badge: LandModifyBadge,
        payment: Bucket,
        new_ids: (u64, u64),
    ) -> (r: Result<(LandProof, LandProof, Bucket, Proof), ServiceError>)
        requires
            old(self).wf(),
        ensures
            !(id.shows(old(self).res().id_badge)) ==> r == Err::<(LandProof, LandProof, Bucket, Proof), ServiceError>(ServiceError::Unauthorized) && *final(self) == *old(self),
            final(self).wf(),
            r is Err ==> *final(self) == *old(self),
            (id.shows(old(self).res().id_badge)) ==> (({
                let expected: Result<(LandProof, LandProof, Bucket, Proof), ServiceError> = if land_modify_badge.resource
                    != old(self).res().land_modify_badge {
                    Err(ServiceError::WrongResource)
                } else if old(self).rate_error(payment) is Some {
                    Err(old(self).rate_error(payment)->0)
                } else {
                    match old(self).divide_result(land_right, building_proof, land_modify_badge, new_ids) {
                        Err(e) => Err(e),
                        Ok((l1, l2)) => Ok((l1, l2, old(self).change_of(payment), move_proof(old(self).res().move_badge))),
                    }
                };
                r == expected
            })),
            (id.shows(old(self).res().id_badge)) ==> (r is Ok ==> {
                &&& final(self).collected()@ == old(self).collected()@ + old(self).service_rate()@
                &&& final(self).same_setup(old(self))
                &&& final(self).same_registry(old(self))
                &&& final(self).same_book(old(self))
            }),
    {
        if !id.check(self.resources.id_badge) {
            return Err(ServiceError::Unauthorized);
        }
        if land_modify_badge.resource != self.resources.land_modify_badge || payment.resource_address() != self.token {
            return Err(ServiceError::WrongResource);
        }
        let amount = payment.amount();
        if !(0 <= self.rate.0 && self.rate.0 <= amount.0) {
            return Err(ServiceError::NotEnoughPayment);
        }
        let new_vault = match self.tax_vault.checked_add(self.rate) {
            Some(v) => v,
            None => return Err(ServiceError::Overflow),
        };
        let land = self.resources.land;
        let LandModifyBadge { resource: _, id: _, data: LandModify { land_id: badge_land, land_modify } } = land_modify_badge;
        let (d1, d2, building_id, on) = match land_modify {
            LandModifyType::Divide(d1, d2, building_id, on) => (d1, d2, building_id, on),
            _ => return Err(ServiceError::WrongLandModifyBadge),
        };
        let (size, placement) = match building_id {
            None => {
                if building_proof.is_some() {
                    return Err(ServiceError::WrongBuildingProof);
                }
                let (id, data) = match assert_land_proof(land_right, land) {
                    Ok(v) => v,
                    Err(e) => return Err(ServiceError::Estate(e)),
                };
                if id != badge_land {
                    return Err(ServiceError::WrongLandRight);
                }
                (data.size, Some((None, None)))
            },
            Some(b) => {
                let bp = match building_proof {
                    None => return Err(ServiceError::WrongBuildingProof),
                    Some(bp) => bp,
                };
                if bp.id != b {
                    return Err(ServiceError::WrongBuildingProof);
                }
                let (id, data, _bid, _bdata) = match assert_landandbuilding_proof(land_right, bp, land, self.resources.building) {
                    Ok(v) => v,
                    Err(e) => return Err(ServiceError::Estate(e)),
                };
                if id != badge_land {
                    return Err(ServiceError::WrongLandRight);
                }
                let placement = match on {
                    BuildingOnLand::Land1 => Some((Some(b), None)),
                    BuildingOnLand::Land2 => Some((None, Some(b))),
                    BuildingOnLand::NoBuilding => None,
                };
                (data.size, placement)
            },
        };
        let (s1, l1, s2, l2) = match (d1, d2) {
            (RealEstateData::Land(s1, l1), RealEstateData::Land(s2, l2)) => (s1, l1, s2, l2),
            _ => return Err(ServiceError::WrongRealEstateData),
        };
        let adds_up = match s1.checked_add(s2) {
            Some(t) => t.0 == size.0,
            None => false,
        };
        if !(adds_up && s1.0 > 0 && s2.0 > 0) {
            return Err(ServiceError::InvalidLandSize);
        }
        let (c1, c2) = match placement {
            Some(p) => p,
            None => return Err(ServiceError::WrongOracleData),
        };
        let mut change = payment;
        let _paid = change.take(self.rate);
        self.tax_vault = new_vault;
        let land1 = LandProof { resource: land, id: new_ids.0, data: Land { size: s1, location: l1, contain: c1 } };
        let land2 = LandProof { resource: land, id: new_ids.1, data: Land { size: s2, location: l2, contain: c2 } };
        Ok((land1, land2, change, Proof { resource: self.resources.move_badge, amount: Decimal(1_000_000_000_000_000_000) }))
    }

    /// Merges the lands of `land_right1` and `land_right2` as the land modify
    /// badge says, against the rate paid from `payment`: both land rights
    /// and the badge are burnt, and the right of the merged land, with the
    /// id `new_id`, comes back with the change and a proof of a move badge.
    /// The building of the first land, if any, is shown by `building_proof`
    /// and stands on the merged land.
    pub fn merge_land(
        &mut self,
        id: Proof,
        land_right1: LandProof,
        land_right2: LandProof,
        building_proof: Option<BuildingProof>,
        land_modify_badge: LandModifyBadge,
        payment: Bucket,
        new_id: u64,
    ) -> (r: Result<(LandProof, Bucket, Proof), ServiceError>)
        requires
            old(self).wf(),
        ensures
            !(id.shows(old(self).res().id_badge)) ==> r == Err::<(LandProof, Bucket, Proof), ServiceError>(ServiceError::Unauthorized) && *final(self) == *old(self),
            final(self).wf(),
            r is Err ==> *final(self) == *old(self),
            (id.shows(old(self).res().id_badge)) ==> (({
                let expected: Result<(LandProof, Bucket, Proof), ServiceError> = if land_modify_badge.resource
                    != old(self).res().land_modify_badge || land_right1.resource != old(self).res().land
                    || land_right2.resource != old(self).res().land {
                    Err(ServiceError::WrongResource)
                } else if old(self).rate_error(payment) is Some {
                    Err(old(self).rate_error(payment)->0)
                } else {
                    match old(self).merge_result(land_right1, land_right2, building_proof, land_modify_badge, new_id) {
                        Err(e) => Err(e),
                        Ok(l) => Ok((l, old(self).change_of(payment), move_proof(old(self).res().move_badge))),
                    }
                };
                r == expected
            })),
            (id.shows(old(self).res().id_badge)) ==> (r is Ok ==> {
                &&& final(self).collected()@ == old(self).collected()@ + old(self).service_rate()@
                &&& final(self).same_setup(old(self))
                &&& final(self).same_registry(old(self))
                &&& final(self).same_book(old(self))
            }),
    {
        if !id.check(self.resources.id_badge) {
            return Err(ServiceError::Unauthorized);
        }
        let land = self.resources.land;
        if land_modify_badge.resource != self.resources.land_modify_badge || payment.resource_address() != self.token
            || land_right1.resource != land || land_right2.resource != land {
            return Err(ServiceError::WrongResource);
        }
        let amount = payment.amount();
        if !(0 <= self.rate.0 && self.rate.0 <= amount.0) {
            return Err(ServiceError::NotEnoughPayment);
        }
        let new_vault = match self.tax_vault.checked_add(self.rate) {
            Some(v) => v,
            None => return Err(ServiceError::Overflow),
        };
        let LandModifyBadge { resource: _, id: _, data: LandModify { land_id: id, land_modify } } = land_modify_badge;
        let (first, second) = if land_right1.id == id {
            (land_right1, land_right2)
        } else if land_right2.id == id {
            (land_right2, land_right1)
        } else {
            return Err(ServiceError::WrongLandRight);
        };
        let (other, building_id) = match land_modify {
            LandModifyType::Merge(other, building_id) => (other, building_id),
            _ => return Err(ServiceError::WrongLandModifyBadge),
        };
        let contain = match building_id {
            None => {
                if building_proof.is_some() {
                    return Err(ServiceError::WrongBuildingProof);
                }
                None
            },
            Some(b) => {
                match building_proof {
                    None => return Err(ServiceError::WrongBuildingProof),
                    Some(bp) => {
                        if bp.id != b {
                            return Err(ServiceError::WrongBuildingProof);
                        }
                    },
                }
                Some(b)
            },
        };
        if second.id != other {
            return Err(ServiceError::WrongLandRight);
        }
        let size = match first.data.size.checked_add(second.data.size) {
            Some(v) => v,
            None => return Err(ServiceError::Overflow),
        };
        let mut change = payment;
        let _paid = change.take(self.rate);
        self.tax_vault = new_vault;
        let merged = LandProof { resource: land, id: new_id, data: Land { size, location: first.data.location, contain } };
        Ok((merged, change, Proof { resource: self.resources.move_badge, amount: Decimal(1_000_000_000_000_000_000) }))
    }

    /// Records the market place at `market` and gives its host badge, with
    /// the id `host_id`.
    pub fn authorize_marketplace(&mut self, auth: Proof, host_id: u64, market: ComponentAddress) -> (r: Result<NonFungible, ServiceError>)
        ensures
            !(auth.shows(old(self).res().authority_badge)) ==> r == Err::<NonFungible, ServiceError>(ServiceError::Unauthorized) && *final(self) == *old(self),
            (auth.shows(old(self).res().authority_badge)) ==> (r == Ok::<NonFungible, ServiceError>(NonFungible { resource: old(self).res().market_host_badge, id: host_id })),
            (auth.shows(old(self).res().authority_badge)) ==> (final(self).markets() == old(self).markets().insert(market.0)),
            (auth.shows(old(self).res().authority_badge)) ==> (final(self).citizen_set() == old(self).citizen_set()),
            (auth.shows(old(self).res().authority_badge)) ==> (final(self).institutes() == old(self).institutes()),
            (auth.shows(old(self).res().authority_badge)) ==> (final(self).same_setup(old(self))),
            (auth.shows(old(self).res().authority_badge)) ==> (final(self).same_book(old(self))),
            (auth.shows(old(self).res().authority_badge)) ==> (final(self).collected() == old(self).collected()),
    {
        if !auth.check(self.resources.authority_badge) {
            return Err(ServiceError::Unauthorized);
        }
        self.market_places.insert(market.0);
        Ok(NonFungible { resource: self.resources.market_host_badge, id: host_id })
    }

    /// Sets the tax on trades to `tax` percent.
    pub fn edit_tax(&mut self, auth: Proof, tax: Decimal) -> (r: Result<(), ServiceError>)
        ensures
            !(auth.shows(old(self).res().authority_badge)) ==> r == Err::<(), ServiceError>(ServiceError::Unauthorized) && *final(self) == *old(self),
            (auth.shows(old(self).res().authority_badge)) ==> (match fraction(tax) {
                None => r == Err::<(), ServiceError>(ServiceError::Overflow) && *final(self) == *old(self),
                Some(t) => {
                    &&& r is Ok
                    &&& final(self).tax_fraction() == t
                    &&& final(self).component() == old(self).component()
                    &&& final(self).res() == old(self).res()
                    &&& final(self).service_rate() == old(self).service_rate()
                    &&& final(self).medium_token() == old(self).medium_token()
                    &&& final(self).same_registry(old(self))
                    &&& final(self).same_book(old(self))
                    &&& final(self).collected() == old(self).collected()
                },
            }),
    {
        if !auth.check(self.resources.authority_badge) {
            return Err(ServiceError::Unauthorized);
        }
        match tax.checked_div(Decimal(100 * 1_000_000_000_000_000_000)) {
            Some(t) => {
                self.tax = t;
                Ok(())
            },
            None => Err(ServiceError::Overflow),
        }
    }

    /// Sets the rate paid for each land change or construction.
    pub fn edit_rate(&mut self, auth: Proof, rate: Decimal) -> (r: Result<(), ServiceError>)
        ensures
            !(auth.shows(old(self).res().authority_badge)) ==> r == Err::<(), ServiceError>(ServiceError::Unauthorized) && *final(self) == *old(self),
            (auth.shows(old(self).res().authority_badge)) ==> (r is Ok),
            (auth.shows(old(self).res().authority_badge)) ==> (final(self).service_rate() == rate),
            (auth.shows(old(self).res().authority_badge)) ==> (final(self).component() == old(self).component()),
            (auth.shows(old(self).res().authority_badge)) ==> (final(self).res() == old(self).res()),
            (auth.shows(old(self).res().authority_badge)) ==> (final(self).tax_fraction() == old(self).tax_fraction()),
            (auth.shows(old(self).res().authority_badge)) ==> (final(self).medium_token() == old(self).medium_token()),
            (auth.shows(old(self).res().authority_badge)) ==> (final(self).same_registry(old(self))),
            (auth.shows(old(self).res().authority_badge)) ==> (final(self).same_book(old(self))),
            (auth.shows(old(self).res().authority_badge)) ==> (final(self).collected() == old(self).collected()),
    {
        if !auth.check(self.resources.authority_badge) {
            return Err(ServiceError::Unauthorized);
        }
        self.rate = rate;
        Ok(())
    }

    /// Takes all the tax collected.
    pub fn collect_tax(&mut self, auth: Proof) -> (r: Result<Bucket, ServiceError>)
        requires
            old(self).wf(),
        ensures
            !(auth.shows(old(self).res().authority_badge)) ==> r == Err::<Bucket, ServiceError>(ServiceError::Unauthorized) && *final(self) == *old(self),
            final(self).wf(),
            (auth.shows(old(self).res().authority_badge)) ==> (r == Ok::<Bucket, ServiceError>(Bucket::spec_new(old(self).medium_token(), old(self).collected()))),
            (auth.shows(old(self).res().authority_badge)) ==> (final(self).collected()@ == 0),
            (auth.shows(old(self).res().authority_badge)) ==> (final(self).same_setup(old(self))),
            (auth.shows(old(self).res().authority_badge)) ==> (final(self).same_registry(old(self))),
            (auth.shows(old(self).res().authority_badge)) ==> (final(self).same_book(old(self))),
    {
        if !auth.check(self.resources.authority_badge) {
            return Err(ServiceError::Unauthorized);
        }
        let all = Bucket::of(self.token, self.tax_vault);
        self.tax_vault = Decimal(0);
        Ok(all)
    }

    /// Adds the tax in `tax`, which is in the medium token, to the tax
    /// collected.
    pub fn deposit_tax(&mut self, tax: Bucket) -> (r: Result<(), ServiceError>)
        requires
            old(self).wf(),
        ensures
            final(self).wf(),
            r is Err ==> *final(self) == *old(self),
            if tax.res() != old(self).medium_token() {
                r == Err::<(), ServiceError>(ServiceError::WrongResource)
            } else if dec_of(old(self).collected()@ + tax.amt()@) is None {
                r == Err::<(), ServiceError>(ServiceError::Overflow)
            } else {
                &&& r is Ok
                &&& final(self).collected()@ == old(self).collected()@ + tax.amt()@
                &&& final(self).same_setup(old(self))
                &&& final(self).same_registry(old(self))
                &&& final(self).same_book(old(self))
            },
    {
        if tax.resource_address() != self.token {
            return Err(ServiceError::WrongResource);
        }
        let amount = tax.amount();
        match self.tax_vault.checked_add(amount) {
            Some(v) => {
                self.tax_vault = v;
                Ok(())
            },
            None => Err(ServiceError::Overflow),
        }
    }

    /// The tax on trades, as a fraction.
    pub fn tax(&self) -> (r: Decimal)
        ensures
            r == self.tax_fraction(),
    {
        self.tax
    }

    /// The rate paid for each land change or construction.
    pub fn rate(&self) -> (r: Decimal)
        ensures
            r == self.service_rate(),
    {
        self.rate
    }

    /// Authorizes a construction institute charging `fee` for each
    /// construction: its host badge, with the id `institute_id`, goes to the
    /// caller, and the institute, at `institute`, gets a controller badge
    /// and makes `construction_badge` and `request_badge` its badges.
    pub fn authorize_construction_institute(
        &mut self,
        auth: Proof,
        fee: Decimal,
        institute_id: u64,
        institute: ComponentAddress,
        construction_badge: ResourceAddress,
        request_badge: ResourceAddress,
    ) -> (r: Result<(NonFungible, RealEstateConstructionInstitute), ServiceError>)
        ensures
            !(auth.shows(old(self).res().authority_badge)) ==> r == Err::<(NonFungible, RealEstateConstructionInstitute), ServiceError>(ServiceError::Unauthorized) && *final(self) == *old(self),
            (auth.shows(old(self).res().authority_badge)) ==> (r is Ok),
            (auth.shows(old(self).res().authority_badge)) ==> (r->Ok_0.0 == (NonFungible { resource: old(self).res().institute_badge, id: institute_id })),
            (auth.shows(old(self).res().authority_badge)) ==> (r->Ok_0.1.wf()),
            (auth.shows(old(self).res().authority_badge)) ==> (r->Ok_0.1.component() == institute),
            (auth.shows(old(self).res().authority_badge)) ==> (r->Ok_0.1.host_badge() == r->Ok_0.0),
            (auth.shows(old(self).res().authority_badge)) ==> (r->Ok_0.1.citizen_badge() == old(self).res().id_badge),
            (auth.shows(old(self).res().authority_badge)) ==> (r->Ok_0.1.authority() == old(self).component()),
            (auth.shows(old(self).res().authority_badge)) ==> (r->Ok_0.1.controller() == old(self).res().institute_controller_badge),
            (auth.shows(old(self).res().authority_badge)) ==> (r->Ok_0.1.move_res() == old(self).res().move_badge),
            (auth.shows(old(self).res().authority_badge)) ==> (r->Ok_0.1.building_res() == old(self).res().building),
            (auth.shows(old(self).res().authority_badge)) ==> (r->Ok_0.1.land_res() == old(self).res().land),
            (auth.shows(old(self).res().authority_badge)) ==> (r->Ok_0.1.fee_amount() == fee),
            (auth.shows(old(self).res().authority_badge)) ==> (r->Ok_0.1.medium_token() == old(self).medium_token()),
            (auth.shows(old(self).res().authority_badge)) ==> (r->Ok_0.1.fees()@ == 0),
            (auth.shows(old(self).res().authority_badge)) ==> (r->Ok_0.1.construction_res() == construction_badge),
            (auth.shows(old(self).res().authority_badge)) ==> (r->Ok_0.1.request_res() == request_badge),
            (auth.shows(old(self).res().authority_badge)) ==> (r->Ok_0.1.requests() == Map::<u64, (u64, ConstructionType)>::empty()),
            (auth.shows(old(self).res().authority_badge)) ==> (r->Ok_0.1.authorized() == Map::<u64, Construction>::empty()),
            (auth.shows(old(self).res().authority_badge)) ==> (r->Ok_0.1.counter() == 0),
            (auth.shows(old(self).res().authority_badge)) ==> (final(self).institutes() == old(self).institutes().insert(institute.0)),
            (auth.shows(old(self).res().authority_badge)) ==> (final(self).citizen_set() == old(self).citizen_set()),
            (auth.shows(old(self).res().authority_badge)) ==> (final(self).markets() == old(self).markets()),
            (auth.shows(old(self).res().authority_badge)) ==> (final(self).same_setup(old(self))),
            (auth.shows(old(self).res().authority_badge)) ==> (final(self).same_book(old(self))),
            (auth.shows(old(self).res().authority_badge)) ==> (final(self).collected() == old(self).collected()),
    {
        if !auth.check(self.resources.authority_badge) {
            return Err(ServiceError::Unauthorized);
        }
        let host_badge = NonFungible { resource: self.resources.institute_badge, id: institute_id };
        let controller = Bucket::of(self.resources.institute_controller_badge, Decimal(1_000_000_000_000_000_000));
        let comp = RealEstateConstructionInstitute::new(
            host_badge,
            self.resources.id_badge,
            self.address,
            fee,
            controller,
            self.token,
            self.resources.land,
            self.resources.building,
            self.resources.move_badge,
            institute,
            construction_badge,
            request_badge,
        );
        self.construction_institutes.insert(institute.0);
        Ok((host_badge, comp))
    }
}

/// A division gives two lands of positive sizes that add up to the size of
/// the divided land, and at most one of them holds a building: the one
/// the divided land held.
pub proof fn lemma_division_conserves_land(
    svc: RealEstateService,
    land_right: LandProof,
    building_proof: Option<BuildingProof>,
    badge: LandModifyBadge,
    ids: (u64, u64),
)
    ensures
        svc.divide_result(land_right, building_proof, badge, ids) matches Ok((l1, l2)) ==> {
            &&& l1.data.size@ + l2.data.size@ == land_right.data.size@
            &&& l1.data.size@ > 0 && l2.data.size@ > 0
            &&& !(l1.data.contain is Some && l2.data.contain is Some)
            &&& l1.data.contain is Some ==> l1.data.contain == land_right.data.contain
            &&& l2.data.contain is Some ==> l2.data.contain == land_right.data.contain
        },
{
}

/// Merging back the two lands a division gave yields a land of the size
/// of the land that was divided.
pub proof fn lemma_divide_then_merge_size(
    svc: RealEstateService,
    land_right: LandProof,
    building_proof: Option<BuildingProof>,
    badge: LandModifyBadge,
    ids: (u64, u64),
    merge_building_proof: Option<BuildingProof>,
    merge_badge: LandModifyBadge,
    new_id: u64,
)
    ensures
        svc.divide_result(land_right, building_proof, badge, ids) matches Ok((l1, l2)) ==> (svc.merge_result(
            l1,
            l2,
            merge_building_proof,
            merge_badge,
            new_id,
        ) matches Ok(m) ==> m.data.size == land_right.data.size),
{
    lemma_division_conserves_land(svc, land_right, building_proof, badge, ids);
}

} // verus!
