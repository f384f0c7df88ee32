//! A mediated contract: a mediator component sells contract components,
//! each of which mints one seller, one buyer and one mediator badge, and
//! lets the seller and the buyer activate their badges.
use vstd::prelude::*;
use crate::bignum::in_i128;
use crate::decimal::Decimal;
use crate::resource::{group_bucket, Bucket, ComponentAddress, NonFungible, PackageAddress, Proof, ResourceAddress};

verus! {

broadcast use group_bucket;

/// The data of a seller or buyer badge.
#[derive(Clone, Copy, Debug, PartialEq, Eq, Structural)]
pub struct Info4Contract {
    pub contract_address: ComponentAddress,
    pub mediator_address: ComponentAddress,
    pub validated: bool,
}

/// The data of a mediator badge.
#[derive(Clone, Copy, Debug, PartialEq, Eq, Structural)]
pub struct Info4Mediator {
    pub contract_address: ComponentAddress,
}

/// Why a contract refuses a request.
#[derive(Clone, Copy, Debug, PartialEq, Eq, Structural)]
pub enum ContractError {
    /// The badges have already been minted.
    AlreadyInitialized,
    /// The proof is of another resource than the badge expected.
    InvalidProof,
    /// No badge with this id exists.
    UnknownBadge,
}

/// The resources a contract creates for itself.
#[derive(Clone, Copy, Debug, PartialEq, Eq, Structural)]
pub struct ContractResources {
    pub admin_badge: ResourceAddress,
    pub mediator_badge: ResourceAddress,
    pub buyer_badge: ResourceAddress,
    pub seller_badge: ResourceAddress,
}

/// The ids of the three badges a contract mints.
#[derive(Clone, Copy, Debug, PartialEq, Eq, Structural)]
pub struct BadgeIds {
    pub seller: u64,
    pub buyer: u64,
    pub mediator: u64,
}

/// A minted seller or buyer badge: its id and its data.
#[derive(Clone, Copy, Debug, PartialEq, Eq, Structural)]
pub struct PartyBadge {
    pub id: u64,
    pub data: Info4Contract,
}

/// The minted mediator badge.
#[derive(Clone, Copy, Debug, PartialEq, Eq, Structural)]
pub struct MediatorBadge {
    pub id: u64,
    pub data: Info4Mediator,
}

/// A contract between a seller and a buyer under a mediator.
#[derive(Clone, Copy, Debug, PartialEq, Eq, Structural)]
pub struct Contract {
    pub resources: ContractResources,
    pub calling_component: ComponentAddress,
    pub component_address: Option<ComponentAddress>,
    /// The minted seller badge: its id and data.
    pub seller: Option<PartyBadge>,
    /// The minted buyer badge.
    pub buyer: Option<PartyBadge>,
    /// The minted mediator badge.
    pub mediator: Option<MediatorBadge>,
}

/// The data both the seller and the buyer badge start with.
pub open spec fn initial_badge_data(contract: ComponentAddress, mediator: ComponentAddress) -> Info4Contract {
    Info4Contract { contract_address: contract, mediator_address: mediator, validated: false }
}

/// A contract instantiated by `my_caller` at `component`, its badges
/// minted.
pub open spec fn new_contract(my_caller: ComponentAddress, resources: ContractResources, component: ComponentAddress, ids: BadgeIds) -> Contract {
    Contract {
        resources,
        calling_component: my_caller,
        component_address: Some(component),
        seller: Some(PartyBadge { id: ids.seller, data: initial_badge_data(component, my_caller) }),
        buyer: Some(PartyBadge { id: ids.buyer, data: initial_badge_data(component, my_caller) }),
        mediator: Some(MediatorBadge { id: ids.mediator, data: Info4Mediator { contract_address: component } }),
    }
}

impl Contract {
    /// Does nothing; it exists to carry a royalty rule.
    pub fn dummy() {
    }

    /// A contract instantiated by `my_caller` at `component`, with its
    /// badges minted: returns it with the mediator, seller and buyer badges.
    pub fn new(my_caller: ComponentAddress, resources: ContractResources, component: ComponentAddress, ids: BadgeIds) -> (r: (
        Contract,
        NonFungible,
        NonFungible,
        NonFungible,
    ))
        ensures
            r.0 == new_contract(my_caller, resources, component, ids),
            r.1 == (NonFungible { resource: resources.mediator_badge, id: ids.mediator }),
            r.2 == (NonFungible { resource: resources.seller_badge, id: ids.seller }),
            r.3 == (NonFungible { resource: resources.buyer_badge, id: ids.buyer }),
    {
        let mut c = Contract {
            resources,
            calling_component: my_caller,
            component_address: None,
            seller: None,
            buyer: None,
            mediator: None,
        };
        match c.mint_and_init(component, ids) {
            Ok((seller, buyer, mediator)) => (c, mediator, seller, buyer),
            Err(_) => {
                (
                    c,
                    NonFungible { resource: resources.mediator_badge, id: ids.mediator },
                    NonFungible { resource: resources.seller_badge, id: ids.seller },
                    NonFungible { resource: resources.buyer_badge, id: ids.buyer },
                )
            },
        }
    }

    /// Records the contract's own address and mints the seller, buyer and
    /// mediator badges, in this order; only once.
    pub fn mint_and_init(&mut self, my_component_address: ComponentAddress, ids: BadgeIds) -> (r: Result<
        (NonFungible, NonFungible, NonFungible),
        ContractError,
    >)
        ensures
            old(self).component_address is Some ==> r == Err::<(NonFungible, NonFungible, NonFungible), ContractError>(
                ContractError::AlreadyInitialized) && *final(self) == *old(self),
            old(self).component_address is None ==> {
                &&& r == Ok::<(NonFungible, NonFungible, NonFungible), ContractError>((
                    NonFungible { resource: old(self).resources.seller_badge, id: ids.seller },
                    NonFungible { resource: old(self).resources.buyer_badge, id: ids.buyer },
                    NonFungible { resource: old(self).resources.mediator_badge, id: ids.mediator },
                ))
                &&& *final(self) == (Contract {
                    component_address: Some(my_component_address),
                    seller: Some(PartyBadge { id: ids.seller, data: initial_badge_data(my_component_address, old(self).calling_component) }),
                    buyer: Some(PartyBadge { id: ids.buyer, data: initial_badge_data(my_component_address, old(self).calling_component) }),
                    mediator: Some(MediatorBadge { id: ids.mediator, data: Info4Mediator { contract_address: my_component_address } }),
                    ..*old(self)
                })
            },
    {
        if self.component_address.is_some() {
            return Err(ContractError::AlreadyInitialized);
        }
        self.component_address = Some(my_component_address);
        let nft_data = Info4Contract {
            contract_address: my_component_address,
            mediator_address: self.calling_component,
            validated: false,
        };
        self.seller = Some(PartyBadge { id: ids.seller, data: nft_data });
        self.buyer = Some(PartyBadge { id: ids.buyer, data: nft_data });
        self.mediator = Some(MediatorBadge { id: ids.mediator, data: Info4Mediator { contract_address: my_component_address } });
        Ok((
            NonFungible { resource: self.resources.seller_badge, id: ids.seller },
            NonFungible { resource: self.resources.buyer_badge, id: ids.buyer },
            NonFungible { resource: self.resources.mediator_badge, id: ids.mediator },
        ))
    }

    /// Marks the seller badge shown by `my_badge` as validated. A seller who
    /// receives a badge that is already validated should not accept the
    /// contract.
    pub fn activate_seller_badge(&mut self, my_badge: NonFungible) -> (r: Result<(), ContractError>)
        ensures
            activation(old(self).seller, old(self).resources.seller_badge, my_badge) matches Ok(b) ==> r is Ok
                && *final(self) == (Contract { seller: b, ..*old(self) }),
            activation(old(self).seller, old(self).resources.seller_badge, my_badge) matches Err(e) ==> r == Err::<(), ContractError>(e)
                && *final(self) == *old(self),
    {
        match activate(self.seller, self.resources.seller_badge, my_badge) {
            Ok(b) => {
                self.seller = b;
                Ok(())
            },
            Err(e) => Err(e),
        }
    }

    /// Marks the buyer badge shown by `my_badge` as validated.
    pub fn activate_buyer_badge(&mut self, my_badge: NonFungible) -> (r: Result<(), ContractError>)
        ensures
            activation(old(self).buyer, old(self).resources.buyer_badge, my_badge) matches Ok(b) ==> r is Ok
                && *final(self) == (Contract { buyer: b, ..*old(self) }),
            activation(old(self).buyer, old(self).resources.buyer_badge, my_badge) matches Err(e) ==> r == Err::<(), ContractError>(e)
                && *final(self) == *old(self),
    {
        match activate(self.buyer, self.resources.buyer_badge, my_badge) {
            Ok(b) => {
                self.buyer = b;
                Ok(())
            },
            Err(e) => Err(e),
        }
    }
}

/// Validating the badge shown by `proof` among the minted `badge` of
/// resource `resource`.
pub open spec fn activation(badge: Option<PartyBadge>, resource: ResourceAddress, proof: NonFungible) -> Result<
    Option<PartyBadge>,
    ContractError,
> {
    if proof.resource != resource {
        Err(ContractError::InvalidProof)
    } else {
        match badge {
            Some(b) => if b.id == proof.id {
                Ok(Some(PartyBadge { id: b.id, data: Info4Contract { validated: true, ..b.data } }))
            } else {
                Err(ContractError::UnknownBadge)
            },
            None => Err(ContractError::UnknownBadge),
        }
    }
}

fn activate(badge: Option<PartyBadge>, resource: ResourceAddress, proof: NonFungible) -> (r: Result<
    Option<PartyBadge>,
    ContractError,
>)
    ensures
        r == activation(badge, resource, proof),
{
    if proof.resource != resource {
        return Err(ContractError::InvalidProof);
    }
    match badge {
        Some(b) => if b.id == proof.id {
            Ok(Some(PartyBadge { id: b.id, data: Info4Contract { validated: true, ..b.data } }))
        } else {
            Err(ContractError::UnknownBadge)
        },
        None => Err(ContractError::UnknownBadge),
    }
}


/// Why the mediator refuses a request.
#[derive(Clone, Copy, Debug, PartialEq, Eq, Structural)]
pub enum MediatorError {
    /// The mediator's own address is already set.
    AlreadySet,
    /// The mediator's own address is not set.
    NotInitialized,
    /// The badge vault of the package is not empty.
    BadgeAlreadyHeld,
    /// The bucket holds another resource than the vault it goes into.
    ResourceMismatch,
    /// A contract is paid for in XRD only.
    WrongPaymentResource,
    /// The payment is less than the price of a contract.
    InsufficientPayment,
    /// The mediator holds no instantiation badge for the contract package.
    NoInstantiationToken,
    /// A contract at this address is already registered.
    ContractExists,
    /// A sum leaves the decimal range.
    Arithmetic,
    /// The call needs the mediator's admin badge, and no proof of it was
    /// shown.
    Unauthorized,
}

/// The vault of instantiation badges of one contract package.
#[derive(Clone, Copy, Debug, PartialEq, Eq, Structural)]
pub struct TokenVault {
    pub package: PackageAddress,
    pub vault: Bucket,
}

/// A contract sold by the mediator, with the mediator badge it keeps.
#[derive(Clone, Copy, Debug, PartialEq, Eq, Structural)]
pub struct ContractRecord {
    pub component: ComponentAddress,
    pub badge: NonFungible,
}

/// The price of a contract: 9.99 XRD.
pub const CONTRACT_PRICE_UNITS: i128 = 9_990_000_000_000_000_000;

/// The mediator: sells contracts for XRD and keeps their mediator badges.
/// Two admin badges are made: one goes to the owner and one stays in the
/// mediator's admin vault. Withdrawing the XRD, setting the contract
/// package and returning its badge need a proof of the admin badge;
/// everything else is open to all.
pub struct Mediator {
    pub radix_resource: ResourceAddress,
    pub radix_vault: Decimal,
    pub admin_badge: ResourceAddress,
    /// The admin badges the mediator keeps.
    pub admin_vault: Decimal,
    pub contracts: Vec<ContractRecord>,
    pub price_of_contract: Decimal,
    pub contract_package_address: PackageAddress,
    pub component_address: Option<ComponentAddress>,
    pub contract_instatiation_token: Vec<TokenVault>,
}

/// The position of the badge vault of package `p`.
pub open spec fn token_index(s: Seq<TokenVault>, p: PackageAddress) -> Option<int> {
    if exists|i: int| 0 <= i < s.len() && (#[trigger] s[i]).package == p {
        Some(choose|i: int| 0 <= i < s.len() && (#[trigger] s[i]).package == p)
    } else {
        None
    }
}

/// Whether `auth` proves the mediator's admin badge `admin`.
pub open spec fn is_mediator_admin(auth: Proof, admin: ResourceAddress) -> bool {
    auth.resource == admin && auth.amount@ > 0
}

/// Whether a contract at `c` is registered.
pub open spec fn has_contract(s: Seq<ContractRecord>, c: ComponentAddress) -> bool {
    exists|i: int| 0 <= i < s.len() && (#[trigger] s[i]).component == c
}

impl Mediator {
    /// The XRD vault and the price are not negative and each package has
    /// one badge vault.
    pub open spec fn wf(&self) -> bool {
        &&& self.radix_vault@ >= 0
        &&& self.price_of_contract@ >= 0
        &&& forall|i: int, j: int|
            0 <= i < j < self.contract_instatiation_token@.len() ==> (#[trigger] self.contract_instatiation_token@[i]).package
                != (#[trigger] self.contract_instatiation_token@[j]).package
    }

    /// Does nothing; it exists to carry a royalty rule.
    pub fn dummy() {
    }

    /// A mediator at `component` that sells contracts of `package` for
    /// XRD. Of its two admin badges it keeps one and returns the other.
    pub fn instantiate(radix: ResourceAddress, admin_badge: ResourceAddress, package: PackageAddress, component: ComponentAddress) -> (r: (
        Mediator,
        Bucket,
    ))
        ensures
            r.0.wf(),
            r.0.radix_resource == radix,
            r.0.radix_vault@ == 0,
            r.0.admin_badge == admin_badge,
            r.0.admin_vault@ == crate::decimal::ONE_UNITS,
            r.0.contracts@.len() == 0,
            r.0.price_of_contract@ == CONTRACT_PRICE_UNITS,
            r.0.contract_package_address == package,
            r.0.component_address == Some(component),
            r.0.contract_instatiation_token@.len() == 0,
            r.1 == Bucket::spec_new(admin_badge, Decimal(crate::decimal::ONE_UNITS)),
    {
        let mut m = Mediator {
            radix_resource: radix,
            radix_vault: Decimal(0),
            admin_badge,
            admin_vault: Decimal(crate::decimal::ONE_UNITS),
            contracts: Vec::new(),
            price_of_contract: Decimal(CONTRACT_PRICE_UNITS),
            contract_package_address: package,
            component_address: None,
            contract_instatiation_token: Vec::new(),
        };
        let _ = m.set_component_address(component);
        (m, Bucket::of(admin_badge, Decimal(crate::decimal::ONE_UNITS)))
    }

    /// Records the mediator's own address; only once.
    pub fn set_component_address(&mut self, address: ComponentAddress) -> (r: Result<(), MediatorError>)
        ensures
            old(self).component_address is None ==> r is Ok && *final(self) == (Mediator {
                component_address: Some(address),
                ..*old(self)
            }),
            old(self).component_address is Some ==> r == Err::<(), MediatorError>(MediatorError::AlreadySet) && *final(self)
                == *old(self),
    {
        if self.component_address.is_some() {
            return Err(MediatorError::AlreadySet);
        }
        self.component_address = Some(address);
        Ok(())
    }

    /// Takes all the XRD out of the mediator; the admin only.
    pub fn withdrawal(&mut self, auth: Proof) -> (r: Result<Bucket, MediatorError>)
        requires
            old(self).wf(),
        ensures
            final(self).wf(),
            !is_mediator_admin(auth, old(self).admin_badge) ==> r == Err::<Bucket, MediatorError>(MediatorError::Unauthorized)
                && *final(self) == *old(self),
            is_mediator_admin(auth, old(self).admin_badge) ==> {
                &&& r == Ok::<Bucket, MediatorError>(Bucket::spec_new(old(self).radix_resource, old(self).radix_vault))
                &&& *final(self) == (Mediator { radix_vault: Decimal(0), ..*old(self) })
            },
    {
        if auth.resource != self.admin_badge || auth.amount.0 <= 0 {
            return Err(MediatorError::Unauthorized);
        }
        let all = self.radix_vault;
        self.radix_vault = Decimal(0);
        Ok(Bucket::of(self.radix_resource, all))
    }

    fn find_token(&self, p: PackageAddress) -> (r: Option<usize>)
        requires
            self.wf(),
        ensures
            match r {
                Some(i) => i < self.contract_instatiation_token@.len() && token_index(self.contract_instatiation_token@, p) == Some(i as int),
                None => token_index(self.contract_instatiation_token@, p) is None,
            },
    {
        let ghost s = self.contract_instatiation_token@;
        let mut i: usize = 0;
        while i < self.contract_instatiation_token.len()
            invariant
                i <= s.len(),
                s == self.contract_instatiation_token@,
                self.wf(),
                forall|j: int| 0 <= j < i ==> (#[trigger] s[j]).package != p,
            decreases s.len() - i,
        {
            if self.contract_instatiation_token[i].package == p {
                proof {
                    let c = choose|c: int| 0 <= c < s.len() && (#[trigger] s[c]).package == p;
                    if c > i {
                        assert(s[i as int].package != s[c].package);
                    }
                }
                return Some(i);
            }
            i = i + 1;
        }
        None
    }

    /// Makes `contractaddr` the package of the contracts sold and keeps its
    /// instantiation badge: in a new vault, or in the package's empty one.
    /// The admin only.
    pub fn set_contract_package_info(&mut self, auth: Proof, contractaddr: PackageAddress, contractbadge: Bucket) -> (r: Result<
        (),
        MediatorError,
    >)
        requires
            old(self).wf(),
        ensures
            final(self).wf(),
            r is Err ==> *final(self) == *old(self),
            !is_mediator_admin(auth, old(self).admin_badge) ==> r == Err::<(), MediatorError>(MediatorError::Unauthorized),
            is_mediator_admin(auth, old(self).admin_badge) ==> ({
                let s = old(self).contract_instatiation_token@;
                match token_index(s, contractaddr) {
                    None => r is Ok && final(self).contract_instatiation_token@ == s.push(
                        TokenVault { package: contractaddr, vault: contractbadge },
                    ),
                    Some(i) => if s[i].vault.amt()@ != 0 {
                        r == Err::<(), MediatorError>(MediatorError::BadgeAlreadyHeld)
                    } else if contractbadge.res() != s[i].vault.res() {
                        r == Err::<(), MediatorError>(MediatorError::ResourceMismatch)
                    } else {
                        r is Ok && final(self).contract_instatiation_token@ == s.update(
                            i,
                            TokenVault { package: contractaddr, vault: contractbadge },
                        )
                    },
                }
            }),
            r is Ok ==> *final(self) == (Mediator {
                contract_package_address: contractaddr,
                contract_instatiation_token: final(self).contract_instatiation_token,
                ..*old(self)
            }),
    {
        if auth.resource != self.admin_badge || auth.amount.0 <= 0 {
            return Err(MediatorError::Unauthorized);
        }
        let ghost s = self.contract_instatiation_token@;
        match self.find_token(contractaddr) {
            None => {
                self.contract_instatiation_token.push(TokenVault { package: contractaddr, vault: contractbadge });
                proof {
                    let t = self.contract_instatiation_token@;
                    assert forall|i: int, j: int| 0 <= i < j < t.len() implies (#[trigger] t[i]).package != (#[trigger] t[j]).package by {
                        if j == s.len() {
                            assert(t[i] == s[i]);
                            if s[i].package == contractaddr {
                                assert(token_index(s, contractaddr) is Some);
                            }
                        } else {
                            assert(t[i] == s[i] && t[j] == s[j]);
                        }
                    }
                }
            },
            Some(i) => {
                let v = self.contract_instatiation_token[i].vault;
                if !v.is_empty() {
                    return Err(MediatorError::BadgeAlreadyHeld);
                }
                if contractbadge.resource_address() != v.resource_address() {
                    return Err(MediatorError::ResourceMismatch);
                }
                self.contract_instatiation_token.set(i, TokenVault { package: contractaddr, vault: contractbadge });
                proof {
                    let t = self.contract_instatiation_token@;
                    assert forall|a: int, b: int| 0 <= a < b < t.len() implies (#[trigger] t[a]).package != (#[trigger] t[b]).package by {
                        assert(s[a].package != s[b].package);
                    }
                }
            },
        }
        self.contract_package_address = contractaddr;
        Ok(())
    }

    fn has_contract_exec(&self, c: ComponentAddress) -> (r: bool)
        ensures
            r == has_contract(self.contracts@, c),
    {
        let ghost s = self.contracts@;
        let mut i: usize = 0;
        while i < self.contracts.len()
            invariant
                i <= s.len(),
                s == self.contracts@,
                forall|j: int| 0 <= j < i ==> (#[trigger] s[j]).component != c,
            decreases s.len() - i,
        {
            if self.contracts[i].component == c {
                assert(s[i as int].component == c);
                return true;
            }
            i = i + 1;
        }
        false
    }

    /// Sells a contract: takes its price out of the payment, instantiates
    /// the contract with the badge of the current package, keeps its
    /// mediator badge, and returns the contract, its buyer and seller badges
    /// and the change.
    pub fn get_new_contract(&mut self, payment: Bucket, resources: ContractResources, component: ComponentAddress, ids: BadgeIds) -> (r: Result<
        (Contract, NonFungible, NonFungible, Bucket),
        MediatorError,
    >)
        requires
            old(self).wf(),
        ensures
            final(self).wf(),
            r is Err ==> *final(self) == *old(self),
            ({
                let m = old(self);
                let s = m.contract_instatiation_token@;
                if payment.res() != m.radix_resource {
                    r == Err::<(Contract, NonFungible, NonFungible, Bucket), MediatorError>(MediatorError::WrongPaymentResource)
                } else if payment.amt()@ < m.price_of_contract@ {
                    r == Err::<(Contract, NonFungible, NonFungible, Bucket), MediatorError>(MediatorError::InsufficientPayment)
                } else if !in_i128(m.radix_vault@ + m.price_of_contract@) {
                    r == Err::<(Contract, NonFungible, NonFungible, Bucket), MediatorError>(MediatorError::Arithmetic)
                } else if !(token_index(s, m.contract_package_address) matches Some(i) && s[i].vault.amt()@ != 0) {
                    r == Err::<(Contract, NonFungible, NonFungible, Bucket), MediatorError>(MediatorError::NoInstantiationToken)
                } else if m.component_address is None {
                    r == Err::<(Contract, NonFungible, NonFungible, Bucket), MediatorError>(MediatorError::NotInitialized)
                } else if has_contract(m.contracts@, component) {
                    r == Err::<(Contract, NonFungible, NonFungible, Bucket), MediatorError>(MediatorError::ContractExists)
                } else {
                    &&& r == Ok::<(Contract, NonFungible, NonFungible, Bucket), MediatorError>((
                        new_contract(m.component_address.unwrap(), resources, component, ids),
                        NonFungible { resource: resources.buyer_badge, id: ids.buyer },
                        NonFungible { resource: resources.seller_badge, id: ids.seller },
                        Bucket::spec_new(m.radix_resource, Decimal((payment.amt()@ - m.price_of_contract@) as i128)),
                    ))
                    &&& *final(self) == (Mediator {
                        radix_vault: Decimal((m.radix_vault@ + m.price_of_contract@) as i128),
                        contracts: final(self).contracts,
                        ..*m
                    })
                    &&& final(self).contracts@ == m.contracts@.push(ContractRecord {
                        component,
                        badge: NonFungible { resource: resources.mediator_badge, id: ids.mediator },
                    })
                }
            }),
    {
        if payment.resource_address() != self.radix_resource {
            return Err(MediatorError::WrongPaymentResource);
        }
        if payment.amount().0 < self.price_of_contract.0 {
            return Err(MediatorError::InsufficientPayment);
        }
        let radix = match self.radix_vault.checked_add(self.price_of_contract) {
            Some(v) => v,
            None => return Err(MediatorError::Arithmetic),
        };
        match self.find_token(self.contract_package_address) {
            None => return Err(MediatorError::NoInstantiationToken),
            Some(i) => {
                if self.contract_instatiation_token[i].vault.is_empty() {
                    return Err(MediatorError::NoInstantiationToken);
                }
            },
        }
        let me = match self.component_address {
            Some(a) => a,
            None => return Err(MediatorError::NotInitialized),
        };
        let (contract, mediator_badge, seller_badge, buyer_badge) = Contract::new(me, resources, component, ids);
        if self.has_contract_exec(component) {
            return Err(MediatorError::ContractExists);
        }
        let mut change = payment;
        let _ = change.take(self.price_of_contract);
        self.radix_vault = radix;
        self.contracts.push(ContractRecord { component, badge: mediator_badge });
        Ok((contract, buyer_badge, seller_badge, change))
    }

    /// Takes the badge vault of the current contract package empty; the
    /// admin only.
    pub fn return_owner_badge(&mut self, auth: Proof) -> (r: Result<Bucket, MediatorError>)
        requires
            old(self).wf(),
        ensures
            final(self).wf(),
            !is_mediator_admin(auth, old(self).admin_badge) ==> r == Err::<Bucket, MediatorError>(MediatorError::Unauthorized)
                && *final(self) == *old(self),
            is_mediator_admin(auth, old(self).admin_badge) ==> ({
                let s = old(self).contract_instatiation_token@;
                match token_index(s, old(self).contract_package_address) {
                    None => r == Err::<Bucket, MediatorError>(MediatorError::NoInstantiationToken) && *final(self) == *old(self),
                    Some(i) => {
                        &&& r == Ok::<Bucket, MediatorError>(s[i].vault)
                        &&& final(self).contract_instatiation_token@ == s.update(
                            i,
                            TokenVault { package: s[i].package, vault: Bucket::spec_new(s[i].vault.res(), Decimal(0)) },
                        )
                        &&& *final(self) == (Mediator {
                            contract_instatiation_token: final(self).contract_instatiation_token,
                            ..*old(self)
                        })
                    },
                }
            }),
    {
        if auth.resource != self.admin_badge || auth.amount.0 <= 0 {
            return Err(MediatorError::Unauthorized);
        }
        let ghost s = self.contract_instatiation_token@;
        match self.find_token(self.contract_package_address) {
            None => Err(MediatorError::NoInstantiationToken),
            Some(i) => {
                let t = self.contract_instatiation_token[i];
                let emptied = TokenVault { package: t.package, vault: Bucket::empty(t.vault.resource_address()) };
                self.contract_instatiation_token.set(i, emptied);
                proof {
                    let u = self.contract_instatiation_token@;
                    assert forall|a: int, b: int| 0 <= a < b < u.len() implies (#[trigger] u[a]).package != (#[trigger] u[b]).package by {
                        assert(s[a].package != s[b].package);
                    }
                }
                Ok(t.vault)
            },
        }
    }
}

} // verus!
