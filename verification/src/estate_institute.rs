//! A construction institute authorized by a real estate service: citizens
//! request to build on a land or to demolish its building, the institute
//! reviews the requests into construction badges, and against a badge the
//! building right is minted or burnt, for the institute's fee and the
//! service's rate.
use vstd::prelude::*;
use std::collections::HashMap;
use crate::decimal::{dec_of, whole, Decimal};
use crate::estate::{get_real_estate_data, real_estate_of, Building, BuildingProof, EstateError, LandProof, RealEstateData, RealEstateProof};
use crate::estate_service::{move_proof, Feasible, RealEstateService, ServiceError};
use crate::resource::{group_bucket, Bucket, ComponentAddress, NonFungible, Proof, ResourceAddress};

verus! {

broadcast use {vstd::std_specs::hash::group_hash_axioms, group_bucket};

/// The building a construction puts up.
#[derive(Clone, Copy, Debug, PartialEq, Eq, Structural)]
pub struct ConstructBuilding {
    pub building_size: Decimal,
    pub building_floor: u32,
}

/// A construction: a new building, or the demolition of the one there.
#[derive(Clone, Copy, Debug, PartialEq, Eq, Structural)]
pub enum ConstructionType {
    ConstructBuilding(ConstructBuilding),
    DemolishBuilding,
}

/// The data of a construction badge: the land and the construction.
#[derive(Clone, Copy, Debug, PartialEq, Eq, Structural)]
pub struct Construction {
    pub land_id: u64,
    pub construction: ConstructionType,
}

/// A construction badge: its resource, its id and its data.
#[derive(Clone, Copy, Debug, PartialEq, Eq, Structural)]
pub struct ConstructionBadge {
    pub resource: ResourceAddress,
    pub id: u64,
    pub data: Construction,
}

/// Why a call of the institute is refused. A refused call changes nothing.
#[derive(Clone, Copy, Debug, PartialEq, Eq, Structural)]
pub enum InstituteError {
    /// A bucket, proof or badge of another resource than the one expected.
    WrongResource,
    /// A real estate proof is refused, or the land does not hold the
    /// building brought.
    Estate(EstateError),
    /// A building is requested on a land that already holds one.
    CannotConstruct,
    /// A demolition is requested on a land without a building.
    CannotDemolish,
    /// The oracle's data is not about harm.
    WrongOracleData,
    UnknownRequest,
    /// The request is still in the book.
    NotReviewed,
    /// The payment is less than the fee and the rate, or one of them is
    /// negative.
    NotEnoughPayment,
    /// The land is not the one the badge is for.
    WrongLandRight,
    /// The badge is for the other kind of construction.
    WrongConstructionBadge,
    /// The service refused the tax.
    Service(ServiceError),
    /// A sum does not fit.
    Overflow,
    /// The call needs the host's badge, or a proof of a citizen's ID badge.
    Unauthorized,
}

/// A construction institute.
pub struct RealEstateConstructionInstitute {
    address: ComponentAddress,
    authority_badge: NonFungible,
    id_badge: ResourceAddress,
    authority_address: ComponentAddress,
    controller_badge: ResourceAddress,
    move_badge: ResourceAddress,
    building: ResourceAddress,
    land: ResourceAddress,
    fee: Decimal,
    token: ResourceAddress,
    fee_vault: Decimal,
    construction_badge: ResourceAddress,
    request_badge: ResourceAddress,
    request_book: HashMap<u64, (u64, ConstructionType)>,
    construction_badge_vault: HashMap<u64, Construction>,
    request_counter: u64,
}

impl RealEstateConstructionInstitute {
    pub closed spec fn component(&self) -> ComponentAddress {
        self.address
    }

    /// The badge of the institute's host, which authorizes constructions.
    pub closed spec fn host_badge(&self) -> NonFungible {
        self.authority_badge
    }

    pub closed spec fn citizen_badge(&self) -> ResourceAddress {
        self.id_badge
    }

    /// The address of the real estate service that authorized the institute.
    pub closed spec fn authority(&self) -> ComponentAddress {
        self.authority_address
    }

    pub closed spec fn controller(&self) -> ResourceAddress {
        self.controller_badge
    }

    pub closed spec fn move_res(&self) -> ResourceAddress {
        self.move_badge
    }

    pub closed spec fn building_res(&self) -> ResourceAddress {
        self.building
    }

    pub closed spec fn land_res(&self) -> ResourceAddress {
        self.land
    }

    /// The fee of each construction, in the medium token.
    pub closed spec fn fee_amount(&self) -> Decimal {
        self.fee
    }

    pub closed spec fn medium_token(&self) -> ResourceAddress {
        self.token
    }

    /// The fees collected and not yet taken.
    pub closed spec fn fees(&self) -> Decimal {
        self.fee_vault
    }

    pub closed spec fn construction_res(&self) -> ResourceAddress {
        self.construction_badge
    }

    pub closed spec fn request_res(&self) -> ResourceAddress {
        self.request_badge
    }

    /// The requests awaiting review, by request id: the land and the
    /// construction.
    pub closed spec fn requests(&self) -> Map<u64, (u64, ConstructionType)> {
        self.request_book@
    }

    /// The construction badges awaiting their citizens, by id.
    pub closed spec fn authorized(&self) -> Map<u64, Construction> {
        self.construction_badge_vault@
    }

    /// The id of the next request.
    pub closed spec fn counter(&self) -> u64 {
        self.request_counter
    }

    /// The fees collected are not negative.
    pub closed spec fn wf(&self) -> bool {
        self.fee_vault@ >= 0
    }

    /// Everything but the fee, the fees collected and the book is that of `o`.
    pub open spec fn same_setup(&self, o: &Self) -> bool {
        &&& self.component() == o.component()
        &&& self.host_badge() == o.host_badge()
        &&& self.citizen_badge() == o.citizen_badge()
        &&& self.authority() == o.authority()
        &&& self.controller() == o.controller()
        &&& self.move_res() == o.move_res()
        &&& self.building_res() == o.building_res()
        &&& self.land_res() == o.land_res()
        &&& self.medium_token() == o.medium_token()
        &&& self.construction_res() == o.construction_res()
        &&& self.request_res() == o.request_res()
    }

    /// The requests, the authorized badges and the counter are those of `o`.
    pub open spec fn same_book(&self, o: &Self) -> bool {
        &&& self.requests() == o.requests()
        &&& self.authorized() == o.authorized()
        &&& self.counter() == o.counter()
    }

    /// Why the fee and the rate `rate` cannot be paid from `payment`, when
    /// the payment was found large enough: a negative fee or rate, or a
    /// vault that would overflow, here or at the service, which has
    /// collected `service_collected`.
    pub open spec fn pay_error(&self, rate: Decimal, service_collected: Decimal) -> Option<InstituteError> {
        if self.fee_amount()@ < 0 || rate@ < 0 {
            Some(InstituteError::NotEnoughPayment)
        } else if dec_of(self.fees()@ + self.fee_amount()@) is None {
            Some(InstituteError::Overflow)
        } else if dec_of(service_collected@ + rate@) is None {
            Some(InstituteError::Service(ServiceError::Overflow))
        } else {
            None
        }
    }

    /// Why `payment` does not cover the fee and the rate `rate`, if it does
    /// not: their sum does not fit, or is more than the payment.
    pub open spec fn cover_error(&self, rate: Decimal, payment: Bucket) -> Option<InstituteError> {
        if dec_of(rate@ + self.fee_amount()@) is None {
            Some(InstituteError::Overflow)
        } else if payment.amt()@ < rate@ + self.fee_amount()@ {
            Some(InstituteError::NotEnoughPayment)
        } else {
            None
        }
    }

    /// The payment less the fee and the rate `rate`.
    pub open spec fn change_of(&self, rate: Decimal, payment: Bucket) -> Bucket {
        Bucket::spec_new(payment.res(), Decimal((payment.amt()@ - self.fee_amount()@ - rate@) as i128))
    }

    /// An institute at `address`, hosted by the holder of
    /// `construction_authority_badge`, for the service at
    /// `authority_address`, charging `fee` in `medium_token` for each
    /// construction. It keeps `controller_badge` to mint and burn, and its
    /// construction and request badges are `construction_badge` and
    /// `request_badge`.
    pub fn new(
        construction_authority_badge: NonFungible,
        id_badge: ResourceAddress,
        authority_address: ComponentAddress,
        fee: Decimal,
        controller_badge: Bucket,
        medium_token: ResourceAddress,
        land: ResourceAddress,
        building: ResourceAddress,
        move_badge: ResourceAddress,
        address: ComponentAddress,
        construction_badge: ResourceAddress,
        request_badge: ResourceAddress,
    ) -> (r: RealEstateConstructionInstitute)
        ensures
            r.wf(),
            r.component() == address,
            r.host_badge() == construction_authority_badge,
            r.citizen_badge() == id_badge,
            r.authority() == authority_address,
            r.controller() == controller_badge.res(),
            r.move_res() == move_badge,
            r.building_res() == building,
            r.land_res() == land,
            r.fee_amount() == fee,
            r.medium_token() == medium_token,
            r.fees()@ == 0,
            r.construction_res() == construction_badge,
            r.request_res() == request_badge,
            r.requests() == Map::<u64, (u64, ConstructionType)>::empty(),
            r.authorized() == Map::<u64, Construction>::empty(),
            r.counter() == 0,
    {
        RealEstateConstructionInstitute {
            address,
            authority_badge: construction_authority_badge,
            id_badge,
            authority_address,
            controller_badge: controller_badge.resource_address(),
            move_badge,
            building,
            land,
            fee,
            token: medium_token,
            fee_vault: Decimal(0),
            construction_badge,
            request_badge,
            request_book: HashMap::new(),
            construction_badge_vault: HashMap::new(),
            request_counter: 0,
        }
    }

    /// Files a request for `construction` on the real estate shown by
    /// `real_estate_proof`: a building on a land without one, or the
    /// demolition of the building of a land. Returns the request badge,
    /// whose id is the request's.
    pub fn new_construction_request(&mut self, id: Proof, real_estate_proof: RealEstateProof, construction: ConstructionType) -> (r:
        Result<NonFungible, InstituteError>)
        ensures
            !(id.shows(old(self).citizen_badge())) ==> r == Err::<NonFungible, InstituteError>(InstituteError::Unauthorized) && *final(self) == *old(self),
            r is Err ==> *final(self) == *old(self),
            (id.shows(old(self).citizen_badge())) ==> (match real_estate_of(real_estate_proof, old(self).land_res(), old(self).building_res()) {
                Err(e) => r == Err::<NonFungible, InstituteError>(InstituteError::Estate(e)),
                Ok((land_id, _, data)) => if construction is ConstructBuilding && data is LandandBuilding {
                    r == Err::<NonFungible, InstituteError>(InstituteError::CannotConstruct)
                } else if construction is DemolishBuilding && data is Land {
                    r == Err::<NonFungible, InstituteError>(InstituteError::CannotDemolish)
                } else if old(self).counter() == u64::MAX {
                    r == Err::<NonFungible, InstituteError>(InstituteError::Overflow)
                } else {
                    let id = old(self).counter();
                    &&& r == Ok::<NonFungible, InstituteError>(NonFungible { resource: old(self).request_res(), id })
                    &&& final(self).requests() == old(self).requests().insert(id, (land_id, construction))
                    &&& final(self).counter() == id + 1
                    &&& final(self).authorized() == old(self).authorized()
                    &&& final(self).same_setup(old(self))
                    &&& final(self).fee_amount() == old(self).fee_amount()
                    &&& final(self).fees() == old(self).fees()
                },
            }),
    {
        if !id.check(self.id_badge) {
            return Err(InstituteError::Unauthorized);
        }
        let (land_id, _building_id, data) = match get_real_estate_data(real_estate_proof, self.land, self.building) {
            Ok(v) => v,
            Err(e) => return Err(InstituteError::Estate(e)),
        };
        match construction {
            ConstructionType::ConstructBuilding(_) => {
                if let RealEstateData::LandandBuilding(..) = data {
                    return Err(InstituteError::CannotConstruct);
                }
            },
            ConstructionType::DemolishBuilding => {
                if let RealEstateData::Land(..) = data {
                    return Err(InstituteError::CannotDemolish);
                }
            },
        }
        if self.request_counter == u64::MAX {
            return Err(InstituteError::Overflow);
        }
        let id = self.request_counter;
        self.request_book.insert(id, (land_id, construction));
        self.request_counter = id + 1;
        Ok(NonFungible { resource: self.request_badge, id })
    }

    /// Reviews the request `id` with the oracle's word on harm: the request
    /// leaves the book, and when the construction does no harm its badge,
    /// with the id of the request, is kept for the citizen.
    pub fn authorize_construction(&mut self, auth: NonFungible, id: u64, is_ok: Feasible) -> (r: Result<(), InstituteError>)
        ensures
            !(auth == old(self).host_badge()) ==> r == Err::<(), InstituteError>(InstituteError::Unauthorized) && *final(self) == *old(self),
            r is Err ==> *final(self) == *old(self),
            (auth == old(self).host_badge()) ==> (match is_ok {
                Feasible::IsOk(ok) => if !old(self).requests().contains_key(id) {
                    r == Err::<(), InstituteError>(InstituteError::UnknownRequest)
                } else {
                    let (land_id, construction) = old(self).requests()[id];
                    &&& r is Ok
                    &&& final(self).requests() == old(self).requests().remove(id)
                    &&& final(self).authorized() == if ok {
                        old(self).authorized().insert(id, Construction { land_id, construction })
                    } else {
                        old(self).authorized()
                    }
                    &&& final(self).counter() == old(self).counter()
                    &&& final(self).same_setup(old(self))
                    &&& final(self).fee_amount() == old(self).fee_amount()
                    &&& final(self).fees() == old(self).fees()
                },
                _ => r == Err::<(), InstituteError>(InstituteError::WrongOracleData),
            }),
    {
        if !(auth == self.authority_badge) {
            return Err(InstituteError::Unauthorized);
        }
        let ok = match is_ok {
            Feasible::IsOk(ok) => ok,
            _ => return Err(InstituteError::WrongOracleData),
        };
        if !self.request_book.contains_key(&id) {
            return Err(InstituteError::UnknownRequest);
        }
        let (land_id, construction) = match self.request_book.remove(&id) {
            Some(entry) => entry,
            None => return Err(InstituteError::UnknownRequest),
        };
        if ok {
            self.construction_badge_vault.insert(id, Construction { land_id, construction });
        }
        Ok(())
    }

    /// Gives the citizen the outcome of a reviewed request, against its
    /// request badge: the construction badge if the request passed,
    /// nothing if it did not.
    pub fn get_construction_badge(&mut self, id: Proof, request_badge: NonFungible) -> (r: Result<Option<ConstructionBadge>, InstituteError>)
        ensures
            !(id.shows(old(self).citizen_badge())) ==> r == Err::<Option<ConstructionBadge>, InstituteError>(InstituteError::Unauthorized) && *final(self) == *old(self),
            r is Err ==> *final(self) == *old(self),
            (id.shows(old(self).citizen_badge())) ==> (if request_badge.resource != old(self).request_res() {
                r == Err::<Option<ConstructionBadge>, InstituteError>(InstituteError::WrongResource)
            } else if old(self).requests().contains_key(request_badge.id) {
                r == Err::<Option<ConstructionBadge>, InstituteError>(InstituteError::NotReviewed)
            } else if old(self).authorized().contains_key(request_badge.id) {
                &&& r == Ok::<Option<ConstructionBadge>, InstituteError>(
                    Some(
                        ConstructionBadge {
                            resource: old(self).construction_res(),
                            id: request_badge.id,
                            data: old(self).authorized()[request_badge.id],
                        },
                    ),
                )
                &&& final(self).authorized() == old(self).authorized().remove(request_badge.id)
                &&& final(self).requests() == old(self).requests()
                &&& final(self).counter() == old(self).counter()
                &&& final(self).same_setup(old(self))
                &&& final(self).fee_amount() == old(self).fee_amount()
                &&& final(self).fees() == old(self).fees()
            } else {
                r == Ok::<Option<ConstructionBadge>, InstituteError>(None) && *final(self) == *old(self)
            }),
    {
        if !id.check(self.id_badge) {
            return Err(InstituteError::Unauthorized);
        }
        if request_badge.resource != self.request_badge {
            return Err(InstituteError::WrongResource);
        }
        let id = request_badge.id;
        if self.request_book.contains_key(&id) {
            return Err(InstituteError::NotReviewed);
        }
        if !self.construction_badge_vault.contains_key(&id) {
            return Ok(None);
        }
        match self.construction_badge_vault.remove(&id) {
            Some(data) => Ok(Some(ConstructionBadge { resource: self.construction_badge, id, data })),
            None => Ok(None),
        }
    }

    /// Takes all the fees collected.
    pub fn take_fee(&mut self, auth: NonFungible) -> (r: Result<Bucket, InstituteError>)
        requires
            old(self).wf(),
        ensures
            !(auth == old(self).host_badge()) ==> r == Err::<Bucket, InstituteError>(InstituteError::Unauthorized) && *final(self) == *old(self),
            final(self).wf(),
            (auth == old(self).host_badge()) ==> (r == Ok::<Bucket, InstituteError>(Bucket::spec_new(old(self).medium_token(), old(self).fees()))),
            (auth == old(self).host_badge()) ==> (final(self).fees()@ == 0),
            (auth == old(self).host_badge()) ==> (final(self).fee_amount() == old(self).fee_amount()),
            (auth == old(self).host_badge()) ==> (final(self).same_setup(old(self))),
            (auth == old(self).host_badge()) ==> (final(self).same_book(old(self))),
    {
        if !(auth == self.authority_badge) {
            return Err(InstituteError::Unauthorized);
        }
        let all = Bucket::of(self.token, self.fee_vault);
        self.fee_vault = Decimal(0);
        Ok(all)
    }

    /// Sets the fee of each construction.
    pub fn edit_fee(&mut self, auth: NonFungible, fee: Decimal) -> (r: Result<(), InstituteError>)
        ensures
            !(auth == old(self).host_badge()) ==> r == Err::<(), InstituteError>(InstituteError::Unauthorized) && *final(self) == *old(self),
            (auth == old(self).host_badge()) ==> (r is Ok),
            (auth == old(self).host_badge()) ==> (final(self).fee_amount() == fee),
            (auth == old(self).host_badge()) ==> (final(self).fees() == old(self).fees()),
            (auth == old(self).host_badge()) ==> (final(self).same_setup(old(self))),
            (auth == old(self).host_badge()) ==> (final(self).same_book(old(self))),
    {
        if !(auth == self.authority_badge) {
            return Err(InstituteError::Unauthorized);
        }
        self.fee = fee;
        Ok(())
    }

    /// Checks the fee and the rate against `payment` and collects them: the
    /// fee here and the rate as tax at `service`. Returns the change.
    fn collect(&mut self, service: &mut RealEstateService, payment: Bucket) -> (r: Result<Bucket, InstituteError>)
        requires
            old(self).wf(),
            old(service).wf(),
            old(service).medium_token() == old(self).medium_token(),
            payment.res() == old(self).medium_token(),
            old(self).cover_error(old(service).service_rate(), payment) is None,
        ensures
            final(self).wf(),
            final(service).wf(),
            match old(self).pay_error(old(service).service_rate(), old(service).collected()) {
                Some(e) => r == Err::<Bucket, InstituteError>(e) && *final(self) == *old(self) && *final(service) == *old(
                    service,
                ),
                None => {
                    &&& r == Ok::<Bucket, InstituteError>(old(self).change_of(old(service).service_rate(), payment))
                    &&& final(self).fees()@ == old(self).fees()@ + old(self).fee_amount()@
                    &&& final(self).fee_amount() == old(self).fee_amount()
                    &&& final(self).same_setup(old(self))
                    &&& final(self).same_book(old(self))
                    &&& final(service).collected()@ == old(service).collected()@ + old(service).service_rate()@
                    &&& final(service).same_setup(old(service))
                    &&& final(service).same_registry(old(service))
                    &&& final(service).same_book(old(service))
                },
            },
    {
        let rate = service.rate();
        if self.fee.0 < 0 || rate.0 < 0 {
            return Err(InstituteError::NotEnoughPayment);
        }
        let new_fees = match self.fee_vault.checked_add(self.fee) {
            Some(v) => v,
            None => return Err(InstituteError::Overflow),
        };
        let mut change = payment;
        let _fee = change.take(self.fee);
        assert(change.res() == payment.res());
        let tax = match change.take(rate) {
            Some(t) => t,
            None => return Err(InstituteError::NotEnoughPayment),
        };
        match service.deposit_tax(tax) {
            Ok(()) => {},
            Err(e) => return Err(InstituteError::Service(e)),
        }
        self.fee_vault = new_fees;
        Ok(change)
    }

    /// Puts up the building the construction badge is for on the land of
    /// `land_right`, against the fee and the rate of `service`, the service
    /// that authorized the institute: the badge is burnt, the land now
    /// holds the building, whose right, with the id `building_id`, comes
    /// back with the change and a proof of a move badge.
    pub fn construct_new_building(
        &mut self,
        id: Proof,
        service: &mut RealEstateService,
        land_right: &mut LandProof,
        construction_badge: ConstructionBadge,
        payment: Bucket,
        building_id: u64,
    ) -> (r: Result<(BuildingProof, Bucket, Proof), InstituteError>)
        requires
            old(self).wf(),
            old(service).wf(),
            old(service).component() == old(self).authority(),
            old(service).medium_token() == old(self).medium_token(),
        ensures
            !(id.shows(old(self).citizen_badge())) ==> r == Err::<(BuildingProof, Bucket, Proof), InstituteError>(InstituteError::Unauthorized) && *final(self) == *old(self),
            final(self).wf(),
            (id.shows(old(self).citizen_badge())) ==> (final(service).wf()),
            r is Err ==> *final(self) == *old(self) && *final(service) == *old(service) && *final(land_right) == *old(
                land_right,
            ),
            (id.shows(old(self).citizen_badge())) ==> (({
                let rate = old(service).service_rate();
                let expected: Result<(BuildingProof, Bucket, Proof), InstituteError> = if old(land_right).resource
                    != old(self).land_res() || construction_badge.resource != old(self).construction_res() || payment.res()
                    != old(self).medium_token() {
                    Err(InstituteError::WrongResource)
                } else if old(self).cover_error(rate, payment) is Some {
                    Err(old(self).cover_error(rate, payment)->0)
                } else if construction_badge.data.land_id != old(land_right).id {
                    Err(InstituteError::WrongLandRight)
                } else {
                    match construction_badge.data.construction {
                        ConstructionType::ConstructBuilding(cb) => match old(self).pay_error(rate, old(service).collected()) {
                            Some(e) => Err(e),
                            None => Ok(
                                (
                                    BuildingProof {
                                        resource: old(self).building_res(),
                                        id: building_id,
                                        data: Building { size: cb.building_size, floor: cb.building_floor },
                                    },
                                    old(self).change_of(rate, payment),
                                    move_proof(old(self).move_res()),
                                ),
                            ),
                        },
                        ConstructionType::DemolishBuilding => Err(InstituteError::WrongConstructionBadge),
                    }
                };
                r == expected
            })),
            (id.shows(old(self).citizen_badge())) ==> (r is Ok ==> {
                &&& final(land_right).resource == old(land_right).resource
                &&& final(land_right).id == old(land_right).id
                &&& final(land_right).data.size == old(land_right).data.size
                &&& final(land_right).data.location == old(land_right).data.location
                &&& final(land_right).data.contain == Some(building_id)
                &&& final(self).fees()@ == old(self).fees()@ + old(self).fee_amount()@
                &&& final(self).fee_amount() == old(self).fee_amount()
                &&& final(self).same_setup(old(self))
                &&& final(self).same_book(old(self))
                &&& final(service).collected()@ == old(service).collected()@ + old(service).service_rate()@
                &&& final(service).same_setup(old(service))
                &&& final(service).same_registry(old(service))
                &&& final(service).same_book(old(service))
            }),
    {
        if !id.check(self.id_badge) {
            return Err(InstituteError::Unauthorized);
        }
        if land_right.resource != self.land || construction_badge.resource != self.construction_badge
            || payment.resource_address() != self.token {
            return Err(InstituteError::WrongResource);
        }
        let rate = service.rate();
        let need = match rate.checked_add(self.fee) {
            Some(v) => v,
            None => return Err(InstituteError::Overflow),
        };
        if payment.amount().0 < need.0 {
            return Err(InstituteError::NotEnoughPayment);
        }
        if construction_badge.data.land_id != land_right.id {
            return Err(InstituteError::WrongLandRight);
        }
        let cb = match construction_badge.data.construction {
            ConstructionType::ConstructBuilding(cb) => cb,
            ConstructionType::DemolishBuilding => return Err(InstituteError::WrongConstructionBadge),
        };
        let change = self.collect(service, payment)?;
        land_right.data.contain = Some(building_id);
        let building_right = BuildingProof {
            resource: self.building,
            id: building_id,
            data: Building { size: cb.building_size, floor: cb.building_floor },
        };
        Ok((building_right, change, Proof { resource: self.move_badge, amount: Decimal(1_000_000_000_000_000_000) }))
    }

    /// Demolishes the building of `building`, which stands on the land of
    /// `land_right`, as the construction badge says, against the fee and
    /// the rate of `service`, the service that authorized the institute:
    /// the badge and the building right are burnt and the land no longer
    /// holds a building. Returns the change.
    pub fn demolish_building(
        &mut self,
        id: Proof,
        service: &mut RealEstateService,
        land_right: &mut LandProof,
        building: BuildingProof,
        construction_badge: ConstructionBadge,
        payment: Bucket,
    ) -> (r: Result<Bucket, InstituteError>)
        requires
            old(self).wf(),
            old(service).wf(),
            old(service).component() == old(self).authority(),
            old(service).medium_token() == old(self).medium_token(),
        ensures
            !(id.shows(old(self).citizen_badge())) ==> r == Err::<Bucket, InstituteError>(InstituteError::Unauthorized) && *final(self) == *old(self),
            final(self).wf(),
            (id.shows(old(self).citizen_badge())) ==> (final(service).wf()),
            r is Err ==> *final(self) == *old(self) && *final(service) == *old(service) && *final(land_right) == *old(
                land_right,
            ),
            (id.shows(old(self).citizen_badge())) ==> (({
                let rate = old(service).service_rate();
                let expected: Result<Bucket, InstituteError> = if old(land_right).resource != old(self).land_res()
                    || building.resource != old(self).building_res() || construction_badge.resource != old(
                    self,
                ).construction_res() || payment.res() != old(self).medium_token() {
                    Err(InstituteError::WrongResource)
                } else if old(self).cover_error(rate, payment) is Some {
                    Err(old(self).cover_error(rate, payment)->0)
                } else if old(land_right).data.contain is None {
                    Err(InstituteError::Estate(EstateError::NoBuilding))
                } else if old(land_right).data.contain != Some(building.id) {
                    Err(InstituteError::Estate(EstateError::BuildingMismatch))
                } else if construction_badge.data.land_id != old(land_right).id {
                    Err(InstituteError::WrongLandRight)
                } else if construction_badge.data.construction !is DemolishBuilding {
                    Err(InstituteError::WrongConstructionBadge)
                } else {
                    match old(self).pay_error(rate, old(service).collected()) {
                        Some(e) => Err(e),
                        None => Ok(old(self).change_of(rate, payment)),
                    }
                };
                r == expected
            })),
            (id.shows(old(self).citizen_badge())) ==> (r is Ok ==> {
                &&& final(land_right).resource == old(land_right).resource
                &&& final(land_right).id == old(land_right).id
                &&& final(land_right).data.size == old(land_right).data.size
                &&& final(land_right).data.location == old(land_right).data.location
                &&& final(land_right).data.contain is None
                &&& final(self).fees()@ == old(self).fees()@ + old(self).fee_amount()@
                &&& final(self).fee_amount() == old(self).fee_amount()
                &&& final(self).same_setup(old(self))
                &&& final(self).same_book(old(self))
                &&& final(service).collected()@ == old(service).collected()@ + old(service).service_rate()@
                &&& final(service).same_setup(old(service))
                &&& final(service).same_registry(old(service))
                &&& final(service).same_book(old(service))
            }),
    {
        if !id.check(self.id_badge) {
            return Err(InstituteError::Unauthorized);
        }
        if land_right.resource != self.land || building.resource != self.building
            || construction_badge.resource != self.construction_badge || payment.resource_address() != self.token {
            return Err(InstituteError::WrongResource);
        }
        let rate = service.rate();
        let need = match rate.checked_add(self.fee) {
            Some(v) => v,
            None => return Err(InstituteError::Overflow),
        };
        if payment.amount().0 < need.0 {
            return Err(InstituteError::NotEnoughPayment);
        }
        match land_right.data.contain {
            None => return Err(InstituteError::Estate(EstateError::NoBuilding)),
            Some(b) => {
                if b != building.id {
                    return Err(InstituteError::Estate(EstateError::BuildingMismatch));
                }
            },
        }
        if construction_badge.data.land_id != land_right.id {
            return Err(InstituteError::WrongLandRight);
        }
        match construction_badge.data.construction {
            ConstructionType::DemolishBuilding => {},
            ConstructionType::ConstructBuilding(_) => return Err(InstituteError::WrongConstructionBadge),
        }
        let change = self.collect(service, payment)?;
        land_right.data.contain = None;
        Ok(change)
    }
}

} // verus!
