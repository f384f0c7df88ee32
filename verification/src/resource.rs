//! Resources as the components see them: an address that names a kind of
//! token, and a bucket that holds a non-negative amount of one resource.
use vstd::prelude::*;
use crate::decimal::Decimal;

verus! {

/// The address of a resource. Addresses are compared by their number, which
/// plays the part of the byte-wise order of the ledger's addresses.
#[derive(Clone, Copy, Debug, PartialEq, Eq, Structural)]
pub struct ResourceAddress(pub u64);

/// The address of a component on the ledger.
#[derive(Clone, Copy, Debug, PartialEq, Eq, Structural)]
pub struct ComponentAddress(pub u64);

/// The address of a package of blueprints on the ledger.
#[derive(Clone, Copy, Debug, PartialEq, Eq, Structural)]
pub struct PackageAddress(pub u64);

/// One non-fungible token: its resource and its id. It stands for a bucket
/// holding the token, or for a proof of holding it.
#[derive(Clone, Copy, Debug, PartialEq, Eq, Structural)]
pub struct NonFungible {
    pub resource: ResourceAddress,
    pub id: u64,
}

/// The kind of a resource: divisible tokens, or tokens with an identity.
#[derive(Clone, Copy, Debug, PartialEq, Eq, Structural)]
pub enum ResourceType {
    Fungible { divisibility: u8 },
    NonFungible,
}

/// A proof that the caller holds `amount` of `resource`.
#[derive(Clone, Copy, Debug, PartialEq, Eq, Structural)]
pub struct Proof {
    pub resource: ResourceAddress,
    pub amount: Decimal,
}

impl Proof {
    /// Whether the proof shows some of the badge `badge`.
    pub open spec fn shows(self, badge: ResourceAddress) -> bool {
        self.resource == badge && self.amount@ > 0
    }

    /// Whether the proof shows some of the badge `badge`.
    pub fn check(&self, badge: ResourceAddress) -> (r: bool)
        ensures
            r == self.shows(badge),
    {
        self.resource == badge && self.amount.0 > 0
    }
}

/// An amount of one resource in transit between components.
#[derive(Clone, Copy, Debug, PartialEq, Eq, Structural)]
pub struct Bucket {
    resource: ResourceAddress,
    amount: Decimal,
}

impl Bucket {
    #[verifier::type_invariant]
    spec fn non_negative(self) -> bool {
        self.amount@ >= 0
    }

    pub closed spec fn res(self) -> ResourceAddress {
        self.resource
    }

    pub closed spec fn amt(self) -> Decimal {
        self.amount
    }

    /// The bucket holding `amount` of `resource`.
    pub closed spec fn spec_new(resource: ResourceAddress, amount: Decimal) -> Bucket {
        Bucket { resource, amount }
    }

    pub broadcast proof fn lemma_spec_new(resource: ResourceAddress, amount: Decimal)
        ensures
            #[trigger] Bucket::spec_new(resource, amount).res() == resource,
            Bucket::spec_new(resource, amount).amt() == amount,
    {
    }

    /// A bucket is its resource and its amount.
    pub broadcast proof fn lemma_bucket_ext(b: Bucket)
        ensures
            #[trigger] Bucket::spec_new(b.res(), b.amt()) == b,
    {
    }

    /// A bucket of `amount` of `resource`; `None` for a negative amount.
    pub fn new(resource: ResourceAddress, amount: Decimal) -> (r: Option<Bucket>)
        ensures
            amount@ >= 0 ==> r == Some(Bucket::spec_new(resource, amount)),
            amount@ < 0 ==> r is None,
    {
        if amount.0 >= 0 {
            Some(Bucket { resource, amount })
        } else {
            None
        }
    }

    /// Every bucket holds a non-negative amount.
    pub fn check_non_negative(&self)
        ensures
            self.amt()@ >= 0,
    {
        proof {
            use_type_invariant(self);
        }
    }

    /// A bucket of a non-negative amount.
    pub fn of(resource: ResourceAddress, amount: Decimal) -> (r: Bucket)
        requires
            amount@ >= 0,
        ensures
            r == Bucket::spec_new(resource, amount),
    {
        Bucket { resource, amount }
    }

    /// An empty bucket of `resource`.
    pub fn empty(resource: ResourceAddress) -> (r: Bucket)
        ensures
            r == Bucket::spec_new(resource, Decimal(0)),
    {
        Bucket { resource, amount: Decimal(0) }
    }

    pub fn resource_address(&self) -> (r: ResourceAddress)
        ensures
            r == self.res(),
    {
        self.resource
    }

    pub fn amount(&self) -> (r: Decimal)
        ensures
            r == self.amt(),
            r@ >= 0,
    {
        proof {
            use_type_invariant(self);
        }
        self.amount
    }

    pub fn is_empty(&self) -> (r: bool)
        ensures
            r == (self.amt()@ == 0),
    {
        self.amount.0 == 0
    }

    /// Takes `amount` out of the bucket; `None`, and the bucket unchanged,
    /// when the amount is negative or more than the bucket holds.
    pub fn take(&mut self, amount: Decimal) -> (r: Option<Bucket>)
        ensures
            0 <= amount@ <= old(self).amt()@ ==> {
                &&& r == Some(Bucket::spec_new(old(self).res(), amount))
                &&& *final(self) == Bucket::spec_new(old(self).res(), Decimal((old(self).amt()@ - amount@) as i128))
            },
            !(0 <= amount@ <= old(self).amt()@) ==> r is None && *final(self) == *old(self),
    {
        proof {
            use_type_invariant(&*self);
        }
        if amount.0 >= 0 && amount.0 <= self.amount.0 {
            self.amount = Decimal(self.amount.0 - amount.0);
            Some(Bucket { resource: self.resource, amount })
        } else {
            None
        }
    }
}

/// Sorts two addresses, the greater first. Swapping the arguments gives the
/// same pair.
pub fn sort_addresses(address1: ResourceAddress, address2: ResourceAddress) -> (r: (ResourceAddress, ResourceAddress))
    ensures
        r == sorted_pair(address1, address2),
{
    if address1.0 > address2.0 {
        (address1, address2)
    } else {
        (address2, address1)
    }
}

/// The pair of two addresses, the greater first.
pub open spec fn sorted_pair(a: ResourceAddress, b: ResourceAddress) -> (ResourceAddress, ResourceAddress) {
    if a.0 > b.0 {
        (a, b)
    } else {
        (b, a)
    }
}

/// Sorting does not depend on the order of the arguments.
pub proof fn lemma_sort_addresses_symmetric(a: ResourceAddress, b: ResourceAddress)
    ensures
        sorted_pair(a, b) == sorted_pair(b, a),
        sorted_pair(a, b).0.0 >= sorted_pair(a, b).1.0,
        (sorted_pair(a, b).0 == a && sorted_pair(a, b).1 == b) || (sorted_pair(a, b).0 == b
            && sorted_pair(a, b).1 == a),
{
}

/// Sorts two buckets by their resource addresses, the greater first.
pub fn sort_buckets(bucket1: Bucket, bucket2: Bucket) -> (r: (Bucket, Bucket))
    ensures
        r == (if bucket1.res() == sorted_pair(bucket1.res(), bucket2.res()).0 {
            (bucket1, bucket2)
        } else {
            (bucket2, bucket1)
        }),
{
    let sorted = sort_addresses(bucket1.resource_address(), bucket2.resource_address());
    if bucket1.resource_address() == sorted.0 {
        (bucket1, bucket2)
    } else {
        (bucket2, bucket1)
    }
}

/// Sorts two addresses, the greater first.
pub fn address_sort(a: ResourceAddress, b: ResourceAddress) -> (r: (ResourceAddress, ResourceAddress))
    ensures
        r == sorted_pair(a, b),
{
    if a.0 > b.0 {
        (a, b)
    } else {
        (b, a)
    }
}

/// Sorts two buckets by their resource addresses, the greater first.
pub fn bucket_sort(a: Bucket, b: Bucket) -> (r: (Bucket, Bucket))
    ensures
        r == (if a.res().0 > b.res().0 {
            (a, b)
        } else {
            (b, a)
        }),
{
    if a.resource_address().0 > b.resource_address().0 {
        (a, b)
    } else {
        (b, a)
    }
}

pub broadcast group group_bucket {
    Bucket::lemma_spec_new,
    Bucket::lemma_bucket_ext,
}

} // verus!
