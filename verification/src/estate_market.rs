//! A real estate manager: an authority issues land and house rights and
//! keeps their data, and citizens sell real estate on its market, where a
//! buyer pays the price and a tax on it in the medium token.
use vstd::prelude::*;
use std::collections::HashMap;
use crate::decimal::{dec_of, dec_one, ddiv, dmul, whole, Decimal};
use crate::resource::{group_bucket, Bucket, NonFungible, Proof, ResourceAddress};

verus! {

broadcast use {vstd::std_specs::hash::group_hash_axioms, group_bucket};

/// A house right's data: its size and its floors.
#[derive(Clone, Copy, Debug, PartialEq, Eq, Structural)]
pub struct House {
    pub size: Decimal,
    pub floor: u32,
}

/// A land right's data: its size and location, and the house it holds,
/// with the house right's id.
#[derive(Clone, Debug)]
pub struct Land {
    pub size: Decimal,
    pub location: String,
    pub contain: Option<(u64, House)>,
}

/// The data of an order badge: the order, which is the id of the land on
/// sale.
#[derive(Clone, Copy, Debug, PartialEq, Eq, Structural)]
pub struct Order {
    pub order_id: u64,
}

/// A land right: its resource, its id and its data, held or shown.
#[derive(Clone, Debug)]
pub struct LandRight {
    pub resource: ResourceAddress,
    pub id: u64,
    pub data: Land,
}

/// A house right: its resource, its id and its data, held or shown.
#[derive(Clone, Copy, Debug, PartialEq, Eq, Structural)]
pub struct HouseRight {
    pub resource: ResourceAddress,
    pub id: u64,
    pub data: House,
}

/// The rights of a real estate: a land, with its house when it has one.
pub enum RealEstate {
    Land(LandRight),
    LandandHouse(LandRight, HouseRight),
}

/// The data of a new real estate: land size and location, and house size
/// and floors when there is a house.
#[derive(Clone, Debug)]
pub enum RealEstateData {
    Land(Decimal, String),
    LandandHouse(Decimal, String, Decimal, u32),
}

/// The resources the manager makes when it is instantiated.
#[derive(Clone, Copy, Debug, PartialEq, Eq, Structural)]
pub struct ManagerResources {
    pub controller_badge: ResourceAddress,
    pub land: ResourceAddress,
    pub house: ResourceAddress,
    pub authority_badge: ResourceAddress,
    pub order_badge: ResourceAddress,
}

/// Why a call of the manager is refused. A refused call changes nothing.
#[derive(Clone, Copy, Debug, PartialEq, Eq, Structural)]
pub enum ManagerError {
    /// A right, badge or payment of another resource than the one expected.
    WrongResource,
    /// The land size is not positive.
    InvalidLandSize,
    /// The house size or its floors are not positive.
    InvalidHouse,
    /// The land already holds a house.
    HasHouse,
    /// The land holds no house.
    NoHouse,
    /// The land holds another house than the one given.
    HouseMismatch,
    /// A land with a house is sold without the house.
    ContainsHouse,
    /// The order badge's id is already in use.
    DuplicateBadge,
    /// No order, or no live order badge, has the id.
    UnknownOrder,
    AlreadyBought,
    NotBought,
    /// The payment is less than the price and the tax.
    NotEnoughPayment,
    /// The price or the tax is negative.
    NegativeAmount,
    /// The rights of the order are not in the market's vaults.
    MissingRealEstate,
    /// The market holds less payment than the price.
    InsufficientFunds,
    /// A product, a sum or a percentage does not fit.
    Overflow,
    /// The call needs a proof of the authority badge.
    Unauthorized,
}

/// `percent` percent as a fraction.
pub open spec fn fraction_of(percent: Decimal) -> Option<Decimal> {
    dec_of(ddiv(percent@, 100 * dec_one()))
}

/// The real estate manager.
pub struct RealEstateManager {
    resources: ManagerResources,
    tax: Decimal,
    token: ResourceAddress,
    book: HashMap<u64, (Decimal, Option<u64>, bool)>,
    order_vault: HashMap<u64, LandRight>,
    order_contain_house: HashMap<u64, HouseRight>,
    order_badges: HashMap<u64, u64>,
    payment_vault: Decimal,
    tax_vault: Decimal,
}

impl RealEstateManager {
    pub closed spec fn res(&self) -> ManagerResources {
        self.resources
    }

    /// The tax on each sale, as a fraction of the price.
    pub closed spec fn tax_fraction(&self) -> Decimal {
        self.tax
    }

    pub closed spec fn medium_token(&self) -> ResourceAddress {
        self.token
    }

    /// The orders by the id of the land on sale: the price, the house sold
    /// with the land, and whether it was bought.
    pub closed spec fn orders(&self) -> Map<u64, (Decimal, Option<u64>, bool)> {
        self.book@
    }

    /// The land rights on sale, by id.
    pub closed spec fn lands(&self) -> Map<u64, LandRight> {
        self.order_vault@
    }

    /// The house rights on sale, by id.
    pub closed spec fn houses(&self) -> Map<u64, HouseRight> {
        self.order_contain_house@
    }

    /// The order badges given and not yet burnt: their order.
    pub closed spec fn badges(&self) -> Map<u64, u64> {
        self.order_badges@
    }

    /// The payments of buyers not yet taken by sellers.
    pub closed spec fn payments(&self) -> Decimal {
        self.payment_vault
    }

    /// The tax collected and not yet taken.
    pub closed spec fn collected(&self) -> Decimal {
        self.tax_vault
    }

    /// The vaults hold no negative amount.
    pub closed spec fn wf(&self) -> bool {
        &&& self.payment_vault@ >= 0
        &&& self.tax_vault@ >= 0
    }

    /// The resources, tax and medium token are those of `o`.
    pub open spec fn same_setup(&self, o: &Self) -> bool {
        &&& self.res() == o.res()
        &&& self.tax_fraction() == o.tax_fraction()
        &&& self.medium_token() == o.medium_token()
    }

    /// Whether the rights of the order for the land `id`, with the house
    /// `house`, are in the market's vaults.
    pub open spec fn holds(&self, id: u64, house: Option<u64>) -> bool {
        &&& self.lands().contains_key(id)
        &&& house matches Some(h) ==> self.houses().contains_key(h)
    }

    /// The rights of the order for the land `id`, with the house `house`.
    pub open spec fn estate_of(&self, id: u64, house: Option<u64>) -> RealEstate {
        match house {
            None => RealEstate::Land(self.lands()[id]),
            Some(h) => RealEstate::LandandHouse(self.lands()[id], self.houses()[h]),
        }
    }

    /// The house rights on sale once the house `house`, if any, has left.
    pub open spec fn houses_without(&self, house: Option<u64>) -> Map<u64, HouseRight> {
        match house {
            None => self.houses(),
            Some(h) => self.houses().remove(h),
        }
    }

    /// The tax on a sale at `price`.
    pub open spec fn tax_on(&self, price: Decimal) -> Option<Decimal> {
        dec_of(dmul(price@, self.tax_fraction()@))
    }

    /// A manager taxing sales at `tax` percent, paid in `medium_token`. The
    /// authority badge goes to the caller.
    pub fn new(tax: Decimal, medium_token: ResourceAddress, resources: ManagerResources) -> (r: Result<
        (RealEstateManager, Bucket),
        ManagerError,
    >)
        ensures
            match fraction_of(tax) {
                None => r == Err::<(RealEstateManager, Bucket), ManagerError>(ManagerError::Overflow),
                Some(t) => r matches Ok((m, badge)) && {
                    &&& m.wf()
                    &&& m.res() == resources
                    &&& m.tax_fraction() == t
                    &&& m.medium_token() == medium_token
                    &&& m.orders() == Map::<u64, (Decimal, Option<u64>, bool)>::empty()
                    &&& m.lands() == Map::<u64, LandRight>::empty()
                    &&& m.houses() == Map::<u64, HouseRight>::empty()
                    &&& m.badges() == Map::<u64, u64>::empty()
                    &&& m.payments()@ == 0
                    &&& m.collected()@ == 0
                    &&& badge == Bucket::spec_new(resources.authority_badge, whole(1))
                },
            },
    {
        let t = match tax.checked_div(Decimal(100 * 1_000_000_000_000_000_000)) {
            Some(t) => t,
            None => return Err(ManagerError::Overflow),
        };
        let m = RealEstateManager {
            resources,
            tax: t,
            token: medium_token,
            book: HashMap::new(),
            order_vault: HashMap::new(),
            order_contain_house: HashMap::new(),
            order_badges: HashMap::new(),
            payment_vault: Decimal(0),
            tax_vault: Decimal(0),
        };
        Ok((m, Bucket::of(resources.authority_badge, Decimal(1_000_000_000_000_000_000))))
    }

    /// Issues the rights of a new real estate described by `data`: the land
    /// right with the id `land_id`, and, for a land with a house, the house
    /// right with the id `house_id`.
    pub fn new_land(&self, auth: Proof, data: RealEstateData, land_id: u64, house_id: u64) -> (r: Result<RealEstate, ManagerError>)
        ensures
            !(auth.shows(self.res().authority_badge)) ==> r == Err::<RealEstate, ManagerError>(ManagerError::Unauthorized),
            (auth.shows(self.res().authority_badge)) ==> (match data {
                RealEstateData::Land(size, location) => if size@ <= 0 {
                    r == Err::<RealEstate, ManagerError>(ManagerError::InvalidLandSize)
                } else {
                    r == Ok::<RealEstate, ManagerError>(
                        RealEstate::Land(
                            LandRight { resource: self.res().land, id: land_id, data: Land { size, location, contain: None } },
                        ),
                    )
                },
                RealEstateData::LandandHouse(size, location, house_size, house_floor) => if size@ <= 0 {
                    r == Err::<RealEstate, ManagerError>(ManagerError::InvalidLandSize)
                } else if !(house_size@ > 0 && house_floor > 0) {
                    r == Err::<RealEstate, ManagerError>(ManagerError::InvalidHouse)
                } else {
                    let house = House { size: house_size, floor: house_floor };
                    r == Ok::<RealEstate, ManagerError>(
                        RealEstate::LandandHouse(
                            LandRight {
                                resource: self.res().land,
                                id: land_id,
                                data: Land { size, location, contain: Some((house_id, house)) },
                            },
                            HouseRight { resource: self.res().house, id: house_id, data: house },
                        ),
                    )
                },
            }),
    {
        if !auth.check(self.resources.authority_badge) {
            return Err(ManagerError::Unauthorized);
        }
        match data {
            RealEstateData::Land(size, location) => {
                if size.0 <= 0 {
                    return Err(ManagerError::InvalidLandSize);
                }
                Ok(RealEstate::Land(LandRight { resource: self.resources.land, id: land_id, data: Land { size, location, contain: None } }))
            },
            RealEstateData::LandandHouse(size, location, house_size, house_floor) => {
                if size.0 <= 0 {
                    return Err(ManagerError::InvalidLandSize);
                }
                if !(house_size.0 > 0 && house_floor > 0) {
                    return Err(ManagerError::InvalidHouse);
                }
                let house = House { size: house_size, floor: house_floor };
                let land_right = LandRight {
                    resource: self.resources.land,
                    id: land_id,
                    data: Land { size, location, contain: Some((house_id, house)) },
                };
                Ok(RealEstate::LandandHouse(land_right, HouseRight { resource: self.resources.house, id: house_id, data: house }))
            },
        }
    }

    /// Adds a house of `house_size` and `house_floor` floors to the land of
    /// `land_right`, which holds none: the land's data records the house,
    /// whose right, with the id `house_id`, is returned.
    pub fn add_house_to_land(&self, auth: Proof, land_right: &mut LandRight, house_size: Decimal, house_floor: u32, house_id: u64) -> (r:
        Result<HouseRight, ManagerError>)
        ensures
            !(auth.shows(self.res().authority_badge)) ==> r == Err::<HouseRight, ManagerError>(ManagerError::Unauthorized),
            r is Err ==> *final(land_right) == *old(land_right),
            (auth.shows(self.res().authority_badge)) ==> (if old(land_right).resource != self.res().land {
                r == Err::<HouseRight, ManagerError>(ManagerError::WrongResource)
            } else if old(land_right).data.contain is Some {
                r == Err::<HouseRight, ManagerError>(ManagerError::HasHouse)
            } else {
                let house = House { size: house_size, floor: house_floor };
                &&& r == Ok::<HouseRight, ManagerError>(HouseRight { resource: self.res().house, id: house_id, data: house })
                &&& final(land_right).resource == old(land_right).resource
                &&& final(land_right).id == old(land_right).id
                &&& final(land_right).data.size == old(land_right).data.size
                &&& final(land_right).data.location == old(land_right).data.location
                &&& final(land_right).data.contain == Some((house_id, house))
            }),
    {
        if !auth.check(self.resources.authority_badge) {
            return Err(ManagerError::Unauthorized);
        }
        if land_right.resource != self.resources.land {
            return Err(ManagerError::WrongResource);
        }
        if land_right.data.contain.is_some() {
            return Err(ManagerError::HasHouse);
        }
        let house = House { size: house_size, floor: house_floor };
        land_right.data.contain = Some((house_id, house));
        Ok(HouseRight { resource: self.resources.house, id: house_id, data: house })
    }

    /// Sets the size and floors of the house of `house_right`, which stands
    /// on the land of `land_right`, in the data of both rights.
    pub fn modify_house_info(
        &self,
        auth: Proof,
        land_right: &mut LandRight,
        house_right: &mut HouseRight,
        house_size: Decimal,
        house_floor: u32,
    ) -> (r: Result<(), ManagerError>)
        ensures
            !(auth.shows(self.res().authority_badge)) ==> r == Err::<(), ManagerError>(ManagerError::Unauthorized),
            r is Err ==> *final(land_right) == *old(land_right) && *final(house_right) == *old(house_right),
            (auth.shows(self.res().authority_badge)) ==> (if old(land_right).resource != self.res().land || old(house_right).resource != self.res().house {
                r == Err::<(), ManagerError>(ManagerError::WrongResource)
            } else {
                match old(land_right).data.contain {
                    None => r == Err::<(), ManagerError>(ManagerError::NoHouse),
                    Some((h, _)) => if h != old(house_right).id {
                        r == Err::<(), ManagerError>(ManagerError::HouseMismatch)
                    } else {
                        let house = House { size: house_size, floor: house_floor };
                        &&& r is Ok
                        &&& *final(house_right) == (HouseRight { data: house, ..*old(house_right) })
                        &&& final(land_right).resource == old(land_right).resource
                        &&& final(land_right).id == old(land_right).id
                        &&& final(land_right).data.size == old(land_right).data.size
                        &&& final(land_right).data.location == old(land_right).data.location
                        &&& final(land_right).data.contain == Some((h, house))
                    },
                }
            }),
    {
        if !auth.check(self.resources.authority_badge) {
            return Err(ManagerError::Unauthorized);
        }
        if land_right.resource != self.resources.land || house_right.resource != self.resources.house {
            return Err(ManagerError::WrongResource);
        }
        let house_id = house_right.id;
        match land_right.data.contain {
            None => return Err(ManagerError::NoHouse),
            Some((h, _)) => {
                if h != house_id {
                    return Err(ManagerError::HouseMismatch);
                }
            },
        }
        let house = House { size: house_size, floor: house_floor };
        house_right.data = house;
        land_right.data.contain = Some((house_id, house));
        Ok(())
    }

    /// Puts the real estate on sale at `price`: its rights go to the
    /// market's vaults and the seller gets an order badge, with the id
    /// `badge_id`, for the order, which is the land's id.
    pub fn new_sell_order(&mut self, real_estate: RealEstate, price: Decimal, badge_id: u64) -> (r: Result<NonFungible, ManagerError>)
        ensures
            r is Err ==> *final(self) == *old(self),
            ({
                let checked: Result<(LandRight, Option<HouseRight>), ManagerError> = match real_estate {
                    RealEstate::Land(l) => if l.resource != old(self).res().land {
                        Err(ManagerError::WrongResource)
                    } else if l.data.contain is Some {
                        Err(ManagerError::ContainsHouse)
                    } else {
                        Ok((l, None))
                    },
                    RealEstate::LandandHouse(l, h) => if l.resource != old(self).res().land || h.resource != old(
                        self,
                    ).res().house {
                        Err(ManagerError::WrongResource)
                    } else {
                        match l.data.contain {
                            None => Err(ManagerError::NoHouse),
                            Some((c, _)) => if c != h.id {
                                Err(ManagerError::HouseMismatch)
                            } else {
                                Ok((l, Some(h)))
                            },
                        }
                    },
                };
                match checked {
                    Err(e) => r == Err::<NonFungible, ManagerError>(e),
                    Ok((l, h)) => if old(self).badges().contains_key(badge_id) {
                        r == Err::<NonFungible, ManagerError>(ManagerError::DuplicateBadge)
                    } else {
                        &&& r == Ok::<NonFungible, ManagerError>(NonFungible { resource: old(self).res().order_badge, id: badge_id })
                        &&& final(self).orders() == old(self).orders().insert(
                            l.id,
                            (price, match h { None => None, Some(hr) => Some(hr.id) }, false),
                        )
                        &&& final(self).lands() == old(self).lands().insert(l.id, l)
                        &&& final(self).houses() == match h {
                            None => old(self).houses(),
                            Some(hr) => old(self).houses().insert(hr.id, hr),
                        }
                        &&& final(self).badges() == old(self).badges().insert(badge_id, l.id)
                        &&& final(self).payments() == old(self).payments()
                        &&& final(self).collected() == old(self).collected()
                        &&& final(self).same_setup(old(self))
                    },
                }
            }),
    {
        let (land_right, house_right) = match real_estate {
            RealEstate::Land(l) => {
                if l.resource != self.resources.land {
                    return Err(ManagerError::WrongResource);
                }
                if l.data.contain.is_some() {
                    return Err(ManagerError::ContainsHouse);
                }
                (l, None)
            },
            RealEstate::LandandHouse(l, h) => {
                if l.resource != self.resources.land || h.resource != self.resources.house {
                    return Err(ManagerError::WrongResource);
                }
                match l.data.contain {
                    None => return Err(ManagerError::NoHouse),
                    Some((c, _)) => {
                        if c != h.id {
                            return Err(ManagerError::HouseMismatch);
                        }
                    },
                }
                (l, Some(h))
            },
        };
        if self.order_badges.contains_key(&badge_id) {
            return Err(ManagerError::DuplicateBadge);
        }
        let land_id = land_right.id;
        let house_id = match house_right {
            None => None,
            Some(h) => Some(h.id),
        };
        self.book.insert(land_id, (price, house_id, false));
        self.order_vault.insert(land_id, land_right);
        match house_right {
            None => {},
            Some(h) => {
                self.order_contain_house.insert(h.id, h);
            },
        }
        self.order_badges.insert(badge_id, land_id);
        Ok(NonFungible { resource: self.resources.order_badge, id: badge_id })
    }

    /// Buys the real estate of the order `order_id` with `payment`, which
    /// covers the price and the tax on it: the price waits for the seller,
    /// the tax is collected, the order is marked bought, and the rights come
    /// back with the change.
    pub fn buy(&mut self, order_id: u64, payment: Bucket) -> (r: Result<(RealEstate, Bucket), ManagerError>)
        requires
            old(self).wf(),
        ensures
            final(self).wf(),
            r is Err ==> *final(self) == *old(self),
            if payment.res() != old(self).medium_token() {
                r == Err::<(RealEstate, Bucket), ManagerError>(ManagerError::WrongResource)
            } else if !old(self).orders().contains_key(order_id) {
                r == Err::<(RealEstate, Bucket), ManagerError>(ManagerError::UnknownOrder)
            } else {
                let (price, house, bought) = old(self).orders()[order_id];
                if bought {
                    r == Err::<(RealEstate, Bucket), ManagerError>(ManagerError::AlreadyBought)
                } else {
                    match old(self).tax_on(price) {
                        None => r == Err::<(RealEstate, Bucket), ManagerError>(ManagerError::Overflow),
                        Some(tax) => if dec_of(price@ + tax@) is None {
                            r == Err::<(RealEstate, Bucket), ManagerError>(ManagerError::Overflow)
                        } else if payment.amt()@ < price@ + tax@ {
                            r == Err::<(RealEstate, Bucket), ManagerError>(ManagerError::NotEnoughPayment)
                        } else if price@ < 0 || tax@ < 0 {
                            r == Err::<(RealEstate, Bucket), ManagerError>(ManagerError::NegativeAmount)
                        } else if dec_of(old(self).payments()@ + price@) is None || dec_of(
                            old(self).collected()@ + tax@,
                        ) is None {
                            r == Err::<(RealEstate, Bucket), ManagerError>(ManagerError::Overflow)
                        } else if !old(self).holds(order_id, house) {
                            r == Err::<(RealEstate, Bucket), ManagerError>(ManagerError::MissingRealEstate)
                        } else {
                            &&& r == Ok::<(RealEstate, Bucket), ManagerError>(
                                (
                                    old(self).estate_of(order_id, house),
                                    Bucket::spec_new(payment.res(), Decimal((payment.amt()@ - price@ - tax@) as i128)),
                                ),
                            )
                            &&& final(self).orders() == old(self).orders().insert(order_id, (price, house, true))
                            &&& final(self).lands() == old(self).lands().remove(order_id)
                            &&& final(self).houses() == old(self).houses_without(house)
                            &&& final(self).badges() == old(self).badges()
                            &&& final(self).payments()@ == old(self).payments()@ + price@
                            &&& final(self).collected()@ == old(self).collected()@ + tax@
                            &&& final(self).same_setup(old(self))
                        },
                    }
                }
            },
    {
        if payment.resource_address() != self.token {
            return Err(ManagerError::WrongResource);
        }
        let (price, house, bought) = match self.book.get(&order_id) {
            None => return Err(ManagerError::UnknownOrder),
            Some(entry) => *entry,
        };
        if bought {
            return Err(ManagerError::AlreadyBought);
        }
        let tax = match price.checked_mul(self.tax) {
            Some(t) => t,
            None => return Err(ManagerError::Overflow),
        };
        let due = match price.checked_add(tax) {
            Some(d) => d,
            None => return Err(ManagerError::Overflow),
        };
        if payment.amount().0 < due.0 {
            return Err(ManagerError::NotEnoughPayment);
        }
        if price.0 < 0 || tax.0 < 0 {
            return Err(ManagerError::NegativeAmount);
        }
        let new_payments = match self.payment_vault.checked_add(price) {
            Some(v) => v,
            None => return Err(ManagerError::Overflow),
        };
        let new_taxes = match self.tax_vault.checked_add(tax) {
            Some(v) => v,
            None => return Err(ManagerError::Overflow),
        };
        if !self.order_vault.contains_key(&order_id) {
            return Err(ManagerError::MissingRealEstate);
        }
        match house {
            None => {},
            Some(h) => {
                if !self.order_contain_house.contains_key(&h) {
                    return Err(ManagerError::MissingRealEstate);
                }
            },
        }
        let mut change = payment;
        let _price = change.take(price);
        assert(change.res() == payment.res());
        let _tax = change.take(tax);
        assert(change.res() == payment.res());
        self.payment_vault = new_payments;
        self.tax_vault = new_taxes;
        self.book.insert(order_id, (price, house, true));
        let land_right = match self.order_vault.remove(&order_id) {
            Some(l) => l,
            None => return Err(ManagerError::MissingRealEstate),
        };
        let estate = match house {
            None => RealEstate::Land(land_right),
            Some(h) => {
                let house_right = match self.order_contain_house.remove(&h) {
                    Some(hr) => hr,
                    None => return Err(ManagerError::MissingRealEstate),
                };
                RealEstate::LandandHouse(land_right, house_right)
            },
        };
        Ok((estate, change))
    }

    /// Cancels the order of `order_badge`, which has not been bought: the
    /// badge is burnt, the order leaves the book, and the rights come back.
    pub fn cancel_sell_order(&mut self, order_badge: NonFungible) -> (r: Result<RealEstate, ManagerError>)
        ensures
            r is Err ==> *final(self) == *old(self),
            if order_badge.resource != old(self).res().order_badge || !old(self).badges().contains_key(order_badge.id) {
                r == Err::<RealEstate, ManagerError>(
                    if order_badge.resource != old(self).res().order_badge {
                        ManagerError::WrongResource
                    } else {
                        ManagerError::UnknownOrder
                    },
                )
            } else {
                let id = old(self).badges()[order_badge.id];
                if !old(self).orders().contains_key(id) {
                    r == Err::<RealEstate, ManagerError>(ManagerError::UnknownOrder)
                } else {
                    let (_, house, bought) = old(self).orders()[id];
                    if bought {
                        r == Err::<RealEstate, ManagerError>(ManagerError::AlreadyBought)
                    } else if !old(self).holds(id, house) {
                        r == Err::<RealEstate, ManagerError>(ManagerError::MissingRealEstate)
                    } else {
                        &&& r == Ok::<RealEstate, ManagerError>(old(self).estate_of(id, house))
                        &&& final(self).orders() == old(self).orders().remove(id)
                        &&& final(self).lands() == old(self).lands().remove(id)
                        &&& final(self).houses() == old(self).houses_without(house)
                        &&& final(self).badges() == old(self).badges().remove(order_badge.id)
                        &&& final(self).payments() == old(self).payments()
                        &&& final(self).collected() == old(self).collected()
                        &&& final(self).same_setup(old(self))
                    }
                }
            },
    {
        if order_badge.resource != self.resources.order_badge {
            return Err(ManagerError::WrongResource);
        }
        let id = match self.order_badges.get(&order_badge.id) {
            None => return Err(ManagerError::UnknownOrder),
            Some(id) => *id,
        };
        let (_price, house, bought) = match self.book.get(&id) {
            None => return Err(ManagerError::UnknownOrder),
            Some(entry) => *entry,
        };
        if bought {
            return Err(ManagerError::AlreadyBought);
        }
        if !self.order_vault.contains_key(&id) {
            return Err(ManagerError::MissingRealEstate);
        }
        match house {
            None => {},
            Some(h) => {
                if !self.order_contain_house.contains_key(&h) {
                    return Err(ManagerError::MissingRealEstate);
                }
            },
        }
        self.book.remove(&id);
        self.order_badges.remove(&order_badge.id);
        let land_right = match self.order_vault.remove(&id) {
            Some(l) => l,
            None => return Err(ManagerError::MissingRealEstate),
        };
        match house {
            None => Ok(RealEstate::Land(land_right)),
            Some(h) => match self.order_contain_house.remove(&h) {
                Some(hr) => Ok(RealEstate::LandandHouse(land_right, hr)),
                None => Err(ManagerError::MissingRealEstate),
            },
        }
    }

    /// Gives the seller the price of the bought order of `order_badge`,
    /// which is burnt.
    pub fn take_payment(&mut self, order_badge: NonFungible) -> (r: Result<Bucket, ManagerError>)
        requires
            old(self).wf(),
        ensures
            final(self).wf(),
            r is Err ==> *final(self) == *old(self),
            if order_badge.resource != old(self).res().order_badge || !old(self).badges().contains_key(order_badge.id) {
                r == Err::<Bucket, ManagerError>(
                    if order_badge.resource != old(self).res().order_badge {
                        ManagerError::WrongResource
                    } else {
                        ManagerError::UnknownOrder
                    },
                )
            } else {
                let id = old(self).badges()[order_badge.id];
                if !old(self).orders().contains_key(id) {
                    r == Err::<Bucket, ManagerError>(ManagerError::UnknownOrder)
                } else {
                    let (price, _, bought) = old(self).orders()[id];
                    if !bought {
                        r == Err::<Bucket, ManagerError>(ManagerError::NotBought)
                    } else if !(0 <= price@ <= old(self).payments()@) {
                        r == Err::<Bucket, ManagerError>(ManagerError::InsufficientFunds)
                    } else {
                        &&& r == Ok::<Bucket, ManagerError>(Bucket::spec_new(old(self).medium_token(), price))
                        &&& final(self).payments()@ == old(self).payments()@ - price@
                        &&& final(self).badges() == old(self).badges().remove(order_badge.id)
                        &&& final(self).orders() == old(self).orders()
                        &&& final(self).lands() == old(self).lands()
                        &&& final(self).houses() == old(self).houses()
                        &&& final(self).collected() == old(self).collected()
                        &&& final(self).same_setup(old(self))
                    }
                }
            },
    {
        if order_badge.resource != self.resources.order_badge {
            return Err(ManagerError::WrongResource);
        }
        let id = match self.order_badges.get(&order_badge.id) {
            None => return Err(ManagerError::UnknownOrder),
            Some(id) => *id,
        };
        let (price, _house, bought) = match self.book.get(&id) {
            None => return Err(ManagerError::UnknownOrder),
            Some(entry) => *entry,
        };
        if !bought {
            return Err(ManagerError::NotBought);
        }
        if !(0 <= price.0 && price.0 <= self.payment_vault.0) {
            return Err(ManagerError::InsufficientFunds);
        }
        self.order_badges.remove(&order_badge.id);
        self.payment_vault = Decimal(self.payment_vault.0 - price.0);
        Ok(Bucket::of(self.token, price))
    }

    /// Takes all the tax collected.
    pub fn take_tax(&mut self, auth: Proof) -> (r: Result<Bucket, ManagerError>)
        requires
            old(self).wf(),
        ensures
            !(auth.shows(old(self).res().authority_badge)) ==> r == Err::<Bucket, ManagerError>(ManagerError::Unauthorized) && *final(self) == *old(self),
            final(self).wf(),
            (auth.shows(old(self).res().authority_badge)) ==> (r == Ok::<Bucket, ManagerError>(Bucket::spec_new(old(self).medium_token(), old(self).collected()))),
            (auth.shows(old(self).res().authority_badge)) ==> (final(self).collected()@ == 0),
            (auth.shows(old(self).res().authority_badge)) ==> (final(self).payments() == old(self).payments()),
            (auth.shows(old(self).res().authority_badge)) ==> (final(self).orders() == old(self).orders()),
            (auth.shows(old(self).res().authority_badge)) ==> (final(self).lands() == old(self).lands()),
            (auth.shows(old(self).res().authority_badge)) ==> (final(self).houses() == old(self).houses()),
            (auth.shows(old(self).res().authority_badge)) ==> (final(self).badges() == old(self).badges()),
            (auth.shows(old(self).res().authority_badge)) ==> (final(self).same_setup(old(self))),
    {
        if !auth.check(self.resources.authority_badge) {
            return Err(ManagerError::Unauthorized);
        }
        let all = Bucket::of(self.token, self.tax_vault);
        self.tax_vault = Decimal(0);
        Ok(all)
    }
}

} // verus!
