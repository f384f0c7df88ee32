//! A simple exchange of constant-product pools, one per pair of tokens:
//! liquidity goes in at the pool's ratio against LP tokens, comes out in
//! proportion to them, and a swap pays out what keeps the product of the
//! two balances at the pool's constant.
use vstd::prelude::*;
use crate::decimal::{dec_of, ddiv, dmul, opt_add, opt_div, opt_mul, Decimal};
use crate::resource::{address_sort, bucket_sort, group_bucket, sorted_pair, Bucket, ResourceAddress};

verus! {

broadcast use group_bucket;

/// Why an exchange call is refused. A refused call changes nothing.
#[derive(Clone, Copy, Debug, PartialEq, Eq, Structural)]
pub enum KrulkError {
    /// A pool holds two different tokens.
    SameResource,
    /// The token is not one of the pool's.
    UnknownResource,
    /// Liquidity must come in at the pool's ratio.
    RatioMismatch,
    /// An amount does not fit, or a division by zero.
    Arithmetic,
    /// The pool holds less than is to be taken, or the amount is negative.
    InsufficientLiquidity,
    /// Only the pool's LP tokens redeem its liquidity.
    WrongLpToken,
    PoolExists,
    NoPool,
}

/// A pool of two tokens: their balances, its LP token, the LP tokens in
/// circulation and the constant of the product.
#[derive(Clone, Copy, Debug, PartialEq, Eq, Structural)]
pub struct KrulkPool {
    pub a: ResourceAddress,
    pub b: ResourceAddress,
    pub a_amount: Decimal,
    pub b_amount: Decimal,
    pub lp_token: ResourceAddress,
    pub lp_initial_supply: Decimal,
    pub lp_total_supply: Decimal,
    pub k_constant: Decimal,
}

/// The pool's balance of `r`, when it holds `r`.
pub open spec fn balance_of(p: KrulkPool, r: ResourceAddress) -> Option<Decimal> {
    if r == p.a {
        Some(p.a_amount)
    } else if r == p.b {
        Some(p.b_amount)
    } else {
        None
    }
}

/// The pool with its balance of `r` set to `x`.
pub open spec fn with_balance(p: KrulkPool, r: ResourceAddress, x: Decimal) -> KrulkPool {
    if r == p.a {
        KrulkPool { a_amount: x, ..p }
    } else {
        KrulkPool { b_amount: x, ..p }
    }
}

/// The pool after `bucket` goes in.
pub open spec fn put_spec(p: KrulkPool, bucket: Bucket) -> Result<KrulkPool, KrulkError> {
    match balance_of(p, bucket.res()) {
        None => Err(KrulkError::UnknownResource),
        Some(bal) => match dec_of(bal@ + bucket.amt()@) {
            None => Err(KrulkError::Arithmetic),
            Some(x) => Ok(with_balance(p, bucket.res(), x)),
        },
    }
}

/// The pool after `amount` of `r` comes out.
pub open spec fn take_spec(p: KrulkPool, r: ResourceAddress, amount: Decimal) -> Result<KrulkPool, KrulkError> {
    match balance_of(p, r) {
        None => Err(KrulkError::UnknownResource),
        Some(bal) => if 0 <= amount@ <= bal@ {
            Ok(with_balance(p, r, Decimal((bal@ - amount@) as i128)))
        } else {
            Err(KrulkError::InsufficientLiquidity)
        },
    }
}

/// A new pool of the tokens in `a` and `b`, whose product is its constant
/// and whose LP tokens, of `lp_token`, number the sum of the two amounts.
pub open spec fn new_pool_spec(a: Bucket, b: Bucket, lp_token: ResourceAddress) -> Result<KrulkPool, KrulkError> {
    if a.res() == b.res() {
        Err(KrulkError::SameResource)
    } else {
        match (dec_of(dmul(a.amt()@, b.amt()@)), dec_of(a.amt()@ + b.amt()@)) {
            (Some(k), Some(supply)) => Ok(
                KrulkPool {
                    a: a.res(),
                    b: b.res(),
                    a_amount: a.amt(),
                    b_amount: b.amt(),
                    lp_token,
                    lp_initial_supply: k,
                    lp_total_supply: supply,
                    k_constant: k,
                },
            ),
            _ => Err(KrulkError::Arithmetic),
        }
    }
}

/// Adding the liquidity in `a` and `b` at the pool's ratio: the pool after,
/// and the LP tokens minted, the ratio times the pool's two balances
/// together, which cannot be negative. The constant becomes the product of
/// the balances before.
pub open spec fn add_liquidity_spec(p: KrulkPool, a: Bucket, b: Bucket) -> Result<(KrulkPool, Decimal), KrulkError> {
    match (balance_of(p, a.res()), balance_of(p, b.res())) {
        (Some(ab), Some(bb)) => match (opt_div(Some(a.amt()), Some(ab)), opt_div(Some(b.amt()), Some(bb))) {
            (Some(ar), Some(br)) => if ar != br {
                Err(KrulkError::RatioMismatch)
            } else {
                match opt_mul(Some(ar), opt_add(Some(ab), Some(bb))) {
                    None => Err(KrulkError::Arithmetic),
                    Some(lp) => match put_spec(p, a) {
                        Err(e) => Err(e),
                        Ok(p1) => match put_spec(p1, b) {
                            Err(e) => Err(e),
                            Ok(p2) => match (opt_add(Some(p.lp_total_supply), Some(lp)), dec_of(dmul(ab@, bb@))) {
                                (Some(total), Some(k)) => if lp@ < 0 {
                                    Err(KrulkError::Arithmetic)
                                } else {
                                    Ok((KrulkPool { lp_total_supply: total, k_constant: k, ..p2 }, lp))
                                },
                                _ => Err(KrulkError::Arithmetic),
                            },
                        },
                    },
                }
            },
            _ => Err(KrulkError::Arithmetic),
        },
        _ => Err(KrulkError::UnknownResource),
    }
}

/// Redeeming `lp` LP tokens: the pool after and the amounts of its two
/// tokens paid out, each the share of the LP tokens in circulation times
/// the balance.
pub open spec fn take_liquidity_spec(p: KrulkPool, lp: Bucket) -> Result<(KrulkPool, Decimal, Decimal), KrulkError> {
    if lp.res() != p.lp_token {
        Err(KrulkError::WrongLpToken)
    } else {
        match opt_div(Some(lp.amt()), Some(p.lp_total_supply)) {
            None => Err(KrulkError::Arithmetic),
            Some(f) => match (
                dec_of(dmul(f@, p.a_amount@)),
                dec_of(dmul(f@, p.b_amount@)),
                dec_of(p.lp_total_supply@ - lp.amt()@),
                dec_of(dmul(p.a_amount@, p.b_amount@)),
            ) {
                (Some(amount_a), Some(amount_b), Some(total), Some(k)) => {
                    let p0 = KrulkPool { lp_total_supply: total, k_constant: k, ..p };
                    match take_spec(p0, p.a, amount_a) {
                        Err(e) => Err(e),
                        Ok(p1) => match take_spec(p1, p.b, amount_b) {
                            Err(e) => Err(e),
                            Ok(p2) => Ok((p2, amount_a, amount_b)),
                        },
                    }
                },
                _ => Err(KrulkError::Arithmetic),
            },
        }
    }
}

/// Swapping `input` for `target`: the pool after and the amount paid out,
/// what the target balance exceeds the constant over the input balance
/// with the input added.
pub open spec fn swap_spec(p: KrulkPool, input: Bucket, target: ResourceAddress) -> Result<(KrulkPool, Decimal), KrulkError> {
    match (balance_of(p, input.res()), balance_of(p, target)) {
        (Some(ib), Some(ob)) => match opt_add(Some(ib), Some(input.amt())) {
            None => Err(KrulkError::Arithmetic),
            Some(new_in) => match opt_div(Some(p.k_constant), Some(new_in)) {
                None => Err(KrulkError::Arithmetic),
                Some(new_out) => match dec_of(ob@ - new_out@) {
                    None => Err(KrulkError::Arithmetic),
                    Some(give) => match take_spec(p, target, give) {
                        Err(e) => Err(e),
                        Ok(p1) => match put_spec(p1, input) {
                            Err(e) => Err(e),
                            Ok(p2) => Ok((p2, give)),
                        },
                    },
                },
            },
        },
        _ => Err(KrulkError::UnknownResource),
    }
}

impl KrulkPool {
    /// A pool of the tokens in `a` and `b`; its LP tokens are of
    /// `lp_token`, a resource made for it, and all of them go to the
    /// caller.
    pub fn new_pool(a: Bucket, b: Bucket, lp_token: ResourceAddress) -> (r: Result<(KrulkPool, Bucket), KrulkError>)
        ensures
            match new_pool_spec(a, b, lp_token) {
                Ok(p) => r == Ok::<(KrulkPool, Bucket), KrulkError>((p, Bucket::spec_new(lp_token, p.lp_total_supply))),
                Err(e) => r == Err::<(KrulkPool, Bucket), KrulkError>(e),
            },
    {
        if a.resource_address() == b.resource_address() {
            return Err(KrulkError::SameResource);
        }
        let aa = a.amount();
        let ba = b.amount();
        let k = aa.checked_mul(ba);
        let supply = aa.checked_add(ba);
        match (k, supply) {
            (Some(k), Some(supply)) => {
                let p = KrulkPool {
                    a: a.resource_address(),
                    b: b.resource_address(),
                    a_amount: aa,
                    b_amount: ba,
                    lp_token,
                    lp_initial_supply: k,
                    lp_total_supply: supply,
                    k_constant: k,
                };
                Ok((p, Bucket::of(lp_token, supply)))
            },
            _ => Err(KrulkError::Arithmetic),
        }
    }

    fn balance(&self, r: ResourceAddress) -> (res: Option<Decimal>)
        ensures
            res == balance_of(*self, r),
    {
        if r == self.a {
            Some(self.a_amount)
        } else if r == self.b {
            Some(self.b_amount)
        } else {
            None
        }
    }

    fn set_balance(&mut self, r: ResourceAddress, x: Decimal)
        ensures
            *final(self) == with_balance(*old(self), r, x),
    {
        if r == self.a {
            self.a_amount = x;
        } else {
            self.b_amount = x;
        }
    }

    /// Puts the tokens in `bucket` into the pool.
    fn put(&mut self, bucket: Bucket) -> (r: Result<(), KrulkError>)
        ensures
            match put_spec(*old(self), bucket) {
                Ok(p) => r is Ok && *final(self) == p,
                Err(e) => r == Err::<(), KrulkError>(e) && *final(self) == *old(self),
            },
    {
        match self.balance(bucket.resource_address()) {
            None => Err(KrulkError::UnknownResource),
            Some(bal) => match bal.checked_add(bucket.amount()) {
                None => Err(KrulkError::Arithmetic),
                Some(x) => {
                    self.set_balance(bucket.resource_address(), x);
                    Ok(())
                },
            },
        }
    }

    /// Takes `amount` of `resource` out of the pool.
    fn take(&mut self, resource: ResourceAddress, amount: Decimal) -> (r: Result<Bucket, KrulkError>)
        ensures
            match take_spec(*old(self), resource, amount) {
                Ok(p) => r == Ok::<Bucket, KrulkError>(Bucket::spec_new(resource, amount)) && *final(self) == p,
                Err(e) => r == Err::<Bucket, KrulkError>(e) && *final(self) == *old(self),
            },
    {
        match self.balance(resource) {
            None => Err(KrulkError::UnknownResource),
            Some(bal) => if amount.0 >= 0 && amount.0 <= bal.0 {
                self.set_balance(resource, Decimal(bal.0 - amount.0));
                Ok(Bucket::of(resource, amount))
            } else {
                Err(KrulkError::InsufficientLiquidity)
            },
        }
    }

    /// Adds the liquidity in `a` and `b`, which must come at the pool's
    /// ratio, and gives the LP tokens minted for it.
    pub fn add_liquidity(&mut self, a: Bucket, b: Bucket) -> (r: Result<Bucket, KrulkError>)
        ensures
            match add_liquidity_spec(*old(self), a, b) {
                Ok((p, lp)) => r == Ok::<Bucket, KrulkError>(Bucket::spec_new(old(self).lp_token, lp)) && *final(self)
                    == p,
                Err(e) => r == Err::<Bucket, KrulkError>(e) && *final(self) == *old(self),
            },
    {
        let ab = match self.balance(a.resource_address()) {
            Some(x) => x,
            None => return Err(KrulkError::UnknownResource),
        };
        let bb = match self.balance(b.resource_address()) {
            Some(x) => x,
            None => return Err(KrulkError::UnknownResource),
        };
        let a_ratio = a.amount().checked_div(ab);
        let b_ratio = b.amount().checked_div(bb);
        let (ar, br) = match (a_ratio, b_ratio) {
            (Some(x), Some(y)) => (x, y),
            _ => return Err(KrulkError::Arithmetic),
        };
        if ar.0 != br.0 {
            return Err(KrulkError::RatioMismatch);
        }
        let sum = match ab.checked_add(bb) {
            Some(s) => s,
            None => return Err(KrulkError::Arithmetic),
        };
        let lp = match ar.checked_mul(sum) {
            Some(l) => l,
            None => return Err(KrulkError::Arithmetic),
        };
        let saved = *self;
        match self.put(a) {
            Ok(()) => {},
            Err(e) => return Err(e),
        }
        match self.put(b) {
            Ok(()) => {},
            Err(e) => {
                *self = saved;
                return Err(e);
            },
        }
        let total = saved.lp_total_supply.checked_add(lp);
        let k = ab.checked_mul(bb);
        match (total, k) {
            (Some(total), Some(k)) => {
                if lp.0 < 0 {
                    *self = saved;
                    return Err(KrulkError::Arithmetic);
                }
                self.lp_total_supply = total;
                self.k_constant = k;
                Ok(Bucket::of(self.lp_token, lp))
            },
            _ => {
                *self = saved;
                Err(KrulkError::Arithmetic)
            },
        }
    }

    /// Redeems the LP tokens in `lp` for their share of the pool's two
    /// tokens.
    pub fn take_liquidity(&mut self, lp: Bucket) -> (r: Result<(Bucket, Bucket), KrulkError>)
        ensures
            match take_liquidity_spec(*old(self), lp) {
                Ok((p, x, y)) => r == Ok::<(Bucket, Bucket), KrulkError>(
                    (Bucket::spec_new(old(self).a, x), Bucket::spec_new(old(self).b, y)),
                ) && *final(self) == p,
                Err(e) => r == Err::<(Bucket, Bucket), KrulkError>(e) && *final(self) == *old(self),
            },
    {
        if lp.resource_address() != self.lp_token {
            return Err(KrulkError::WrongLpToken);
        }
        let f = match lp.amount().checked_div(self.lp_total_supply) {
            Some(f) => f,
            None => return Err(KrulkError::Arithmetic),
        };
        let amount_a = f.checked_mul(self.a_amount);
        let amount_b = f.checked_mul(self.b_amount);
        let total = self.lp_total_supply.checked_sub(lp.amount());
        let k = self.a_amount.checked_mul(self.b_amount);
        match (amount_a, amount_b, total, k) {
            (Some(amount_a), Some(amount_b), Some(total), Some(k)) => {
                let saved = *self;
                self.lp_total_supply = total;
                self.k_constant = k;
                let ba = match self.take(saved.a, amount_a) {
                    Ok(x) => x,
                    Err(e) => {
                        *self = saved;
                        return Err(e);
                    },
                };
                let bb = match self.take(saved.b, amount_b) {
                    Ok(x) => x,
                    Err(e) => {
                        *self = saved;
                        return Err(e);
                    },
                };
                Ok((ba, bb))
            },
            _ => Err(KrulkError::Arithmetic),
        }
    }

    /// Swaps the tokens in `input` for tokens of `target_resource`.
    pub fn swap(&mut self, input: Bucket, target_resource: ResourceAddress) -> (r: Result<Bucket, KrulkError>)
        ensures
            match swap_spec(*old(self), input, target_resource) {
                Ok((p, give)) => r == Ok::<Bucket, KrulkError>(Bucket::spec_new(target_resource, give)) && *final(self)
                    == p,
                Err(e) => r == Err::<Bucket, KrulkError>(e) && *final(self) == *old(self),
            },
    {
        let ib = match self.balance(input.resource_address()) {
            Some(x) => x,
            None => return Err(KrulkError::UnknownResource),
        };
        let ob = match self.balance(target_resource) {
            Some(x) => x,
            None => return Err(KrulkError::UnknownResource),
        };
        let new_in = match ib.checked_add(input.amount()) {
            Some(x) => x,
            None => return Err(KrulkError::Arithmetic),
        };
        let new_out = match self.k_constant.checked_div(new_in) {
            Some(x) => x,
            None => return Err(KrulkError::Arithmetic),
        };
        let give = match ob.checked_sub(new_out) {
            Some(x) => x,
            None => return Err(KrulkError::Arithmetic),
        };
        let saved = *self;
        let out = match self.take(target_resource, give) {
            Ok(x) => x,
            Err(e) => return Err(e),
        };
        match self.put(input) {
            Ok(()) => Ok(out),
            Err(e) => {
                *self = saved;
                Err(e)
            },
        }
    }

    /// The two tokens of the pool.
    pub fn addresses(&self) -> (r: Vec<ResourceAddress>)
        ensures
            r@ == seq![self.a, self.b],
    {
        let mut v: Vec<ResourceAddress> = Vec::new();
        v.push(self.a);
        v.push(self.b);
        v
    }
}

/// The exchange: its pools, each known by its pair of tokens, the greater
/// address first, and by its LP token.
pub struct Exchange {
    pools: Vec<KrulkPool>,
}

/// The position of the pool whose tokens are `key`, in that order.
pub open spec fn pool_index(s: Seq<KrulkPool>, key: (ResourceAddress, ResourceAddress)) -> Option<int> {
    if exists|i: int| 0 <= i < s.len() && (#[trigger] s[i]).a == key.0 && s[i].b == key.1 {
        Some(choose|i: int| 0 <= i < s.len() && (#[trigger] s[i]).a == key.0 && s[i].b == key.1)
    } else {
        None
    }
}

/// The position of the pool whose LP token is `lp`.
pub open spec fn lp_index(s: Seq<KrulkPool>, lp: ResourceAddress) -> Option<int> {
    if exists|i: int| 0 <= i < s.len() && (#[trigger] s[i]).lp_token == lp {
        Some(choose|i: int| 0 <= i < s.len() && (#[trigger] s[i]).lp_token == lp)
    } else {
        None
    }
}

impl Exchange {
    pub closed spec fn pool_list(&self) -> Seq<KrulkPool> {
        self.pools@
    }

    /// Each pool holds its tokens with the greater address first, and no two
    /// pools share a pair of tokens or an LP token.
    pub closed spec fn wf(&self) -> bool {
        &&& forall|i: int| 0 <= i < self.pools@.len() ==> (#[trigger] self.pools@[i]).a.0 > self.pools@[i].b.0
        &&& forall|i: int, j: int|
            0 <= i < j < self.pools@.len() ==> !((#[trigger] self.pools@[i]).a == (#[trigger] self.pools@[j]).a
                && self.pools@[i].b == self.pools@[j].b)
        &&& forall|i: int, j: int|
            0 <= i < j < self.pools@.len() ==> (#[trigger] self.pools@[i]).lp_token != (#[trigger] self.pools@[j]).lp_token
    }

    /// An exchange with no pools.
    pub fn new_exchange() -> (r: Exchange)
        ensures
            r.wf(),
            r.pool_list() == Seq::<KrulkPool>::empty(),
    {
        Exchange { pools: Vec::new() }
    }

    fn find_pool(&self, key: (ResourceAddress, ResourceAddress)) -> (r: Option<usize>)
        requires
            self.wf(),
        ensures
            match r {
                Some(i) => i < self.pools@.len() && pool_index(self.pools@, key) == Some(i as int),
                None => pool_index(self.pools@, key) is None,
            },
    {
        let mut i: usize = 0;
        while i < self.pools.len()
            invariant
                i <= self.pools@.len(),
                self.wf(),
                forall|j: int| 0 <= j < i ==> !((#[trigger] self.pools@[j]).a == key.0 && self.pools@[j].b == key.1),
            decreases self.pools@.len() - i,
        {
            if self.pools[i].a == key.0 && self.pools[i].b == key.1 {
                proof {
                    let s = self.pools@;
                    let c = choose|c: int| 0 <= c < s.len() && (#[trigger] s[c]).a == key.0 && s[c].b == key.1;
                    if c < i {
                        assert(!(s[c].a == key.0 && s[c].b == key.1));
                    } else if c > i {
                        assert(!(s[i as int].a == s[c].a && s[i as int].b == s[c].b));
                    }
                }
                return Some(i);
            }
            i = i + 1;
        }
        None
    }

    fn find_lp(&self, lp: ResourceAddress) -> (r: Option<usize>)
        requires
            self.wf(),
        ensures
            match r {
                Some(i) => i < self.pools@.len() && lp_index(self.pools@, lp) == Some(i as int),
                None => lp_index(self.pools@, lp) is None,
            },
    {
        let mut i: usize = 0;
        while i < self.pools.len()
            invariant
                i <= self.pools@.len(),
                self.wf(),
                forall|j: int| 0 <= j < i ==> (#[trigger] self.pools@[j]).lp_token != lp,
            decreases self.pools@.len() - i,
        {
            if self.pools[i].lp_token == lp {
                proof {
                    let s = self.pools@;
                    let c = choose|c: int| 0 <= c < s.len() && (#[trigger] s[c]).lp_token == lp;
                    if c < i {
                        assert(s[c].lp_token != lp);
                    } else if c > i {
                        assert(s[i as int].lp_token != s[c].lp_token);
                    }
                }
                return Some(i);
            }
            i = i + 1;
        }
        None
    }

    /// Whether a pool of the tokens `a` and `b` exists, in either order.
    pub fn pool_exists(&self, a: ResourceAddress, b: ResourceAddress) -> (r: bool)
        requires
            self.wf(),
        ensures
            r == pool_index(self.pool_list(), sorted_pair(a, b)) is Some,
    {
        let key = address_sort(a, b);
        self.find_pool(key).is_some()
    }

    /// Whether a pool has the LP token `lp`.
    pub fn pool_lp_exists(&self, lp: ResourceAddress) -> (r: bool)
        requires
            self.wf(),
        ensures
            r == lp_index(self.pool_list(), lp) is Some,
    {
        self.find_lp(lp).is_some()
    }

    /// Adds a pool of the tokens in `a` and `b`, whose LP tokens are of
    /// `lp_token`, a resource made for it, and gives all of them.
    pub fn add_pool(&mut self, a: Bucket, b: Bucket, lp_token: ResourceAddress) -> (r: Result<Bucket, KrulkError>)
        requires
            old(self).wf(),
            lp_index(old(self).pool_list(), lp_token) is None,
        ensures
            final(self).wf(),
            r is Err ==> *final(self) == *old(self),
            ({
                let (x, y) = if a.res().0 > b.res().0 { (a, b) } else { (b, a) };
                if pool_index(old(self).pool_list(), (x.res(), y.res())) is Some {
                    r == Err::<Bucket, KrulkError>(KrulkError::PoolExists)
                } else {
                    match new_pool_spec(x, y, lp_token) {
                        Err(e) => r == Err::<Bucket, KrulkError>(e),
                        Ok(p) => r == Ok::<Bucket, KrulkError>(Bucket::spec_new(lp_token, p.lp_total_supply))
                            && final(self).pool_list() == old(self).pool_list().push(p),
                    }
                }
            }),
    {
        let (x, y) = bucket_sort(a, b);
        if self.find_pool((x.resource_address(), y.resource_address())).is_some() {
            return Err(KrulkError::PoolExists);
        }
        match KrulkPool::new_pool(x, y, lp_token) {
            Err(e) => Err(e),
            Ok((p, lp)) => {
                let ghost before = self.pools@;
                self.pools.push(p);
                proof {
                    let s = self.pools@;
                    assert forall|i: int, j: int| 0 <= i < j < s.len() implies !((#[trigger] s[i]).a == (#[trigger] s[j]).a
                        && s[i].b == s[j].b) by {
                        if j == before.len() {
                            assert(s[i] == before[i]);
                            if before[i].a == p.a && before[i].b == p.b {
                                assert(exists|k: int| 0 <= k < before.len() && (#[trigger] before[k]).a == p.a && before[k].b
                                    == p.b);
                            }
                        } else {
                            assert(s[i] == before[i] && s[j] == before[j]);
                        }
                    }
                    assert forall|i: int, j: int| 0 <= i < j < s.len() implies (#[trigger] s[i]).lp_token
                        != (#[trigger] s[j]).lp_token by {
                        if j == before.len() {
                            assert(s[i] == before[i]);
                            if before[i].lp_token == lp_token {
                                assert(exists|k: int| 0 <= k < before.len() && (#[trigger] before[k]).lp_token == lp_token);
                            }
                        } else {
                            assert(s[i] == before[i] && s[j] == before[j]);
                        }
                    }
                    assert forall|i: int| 0 <= i < s.len() implies (#[trigger] s[i]).a.0 > s[i].b.0 by {
                        if i < before.len() {
                            assert(s[i] == before[i]);
                        }
                    }
                }
                Ok(lp)
            },
        }
    }

    /// Replaces the pool at `i` by one alike but for its balances, supply
    /// and constant.
    fn replace(&mut self, i: usize, p: KrulkPool)
        requires
            old(self).wf(),
            i < old(self).pools@.len(),
            p.a == old(self).pools@[i as int].a,
            p.b == old(self).pools@[i as int].b,
            p.lp_token == old(self).pools@[i as int].lp_token,
        ensures
            final(self).wf(),
            final(self).pools@ == old(self).pools@.update(i as int, p),
    {
        let ghost before = self.pools@;
        self.pools.set(i, p);
        proof {
            let s = self.pools@;
            assert forall|a: int, b: int| 0 <= a < b < s.len() implies !((#[trigger] s[a]).a == (#[trigger] s[b]).a
                && s[a].b == s[b].b) by {
                assert(!(before[a].a == before[b].a && before[a].b == before[b].b));
            }
            assert forall|a: int, b: int| 0 <= a < b < s.len() implies (#[trigger] s[a]).lp_token != (#[trigger] s[b]).lp_token by {
                assert(before[a].lp_token != before[b].lp_token);
            }
            assert forall|a: int| 0 <= a < s.len() implies (#[trigger] s[a]).a.0 > s[a].b.0 by {
                assert(before[a].a.0 > before[a].b.0);
            }
        }
    }

    /// Adds the liquidity in `a` and `b` to the pool of their two tokens.
    pub fn add_liquidity(&mut self, a: Bucket, b: Bucket) -> (r: Result<Bucket, KrulkError>)
        requires
            old(self).wf(),
        ensures
            final(self).wf(),
            r is Err ==> *final(self) == *old(self),
            ({
                let (x, y) = if a.res().0 > b.res().0 { (a, b) } else { (b, a) };
                match pool_index(old(self).pool_list(), (x.res(), y.res())) {
                    None => r == Err::<Bucket, KrulkError>(KrulkError::NoPool),
                    Some(i) => match add_liquidity_spec(old(self).pool_list()[i], x, y) {
                        Err(e) => r == Err::<Bucket, KrulkError>(e),
                        Ok((p, lp)) => r == Ok::<Bucket, KrulkError>(
                            Bucket::spec_new(old(self).pool_list()[i].lp_token, lp),
                        ) && final(self).pool_list() == old(self).pool_list().update(i, p),
                    },
                }
            }),
    {
        let (x, y) = bucket_sort(a, b);
        let i = match self.find_pool((x.resource_address(), y.resource_address())) {
            Some(i) => i,
            None => return Err(KrulkError::NoPool),
        };
        let mut p = self.pools[i];
        let r = p.add_liquidity(x, y);
        if r.is_ok() {
            self.replace(i, p);
        }
        r
    }

    /// Redeems the LP tokens in `lp` at the pool they belong to.
    pub fn take_liquidity(&mut self, lp: Bucket) -> (r: Result<(Bucket, Bucket), KrulkError>)
        requires
            old(self).wf(),
        ensures
            final(self).wf(),
            r is Err ==> *final(self) == *old(self),
            match lp_index(old(self).pool_list(), lp.res()) {
                None => r == Err::<(Bucket, Bucket), KrulkError>(KrulkError::NoPool),
                Some(i) => {
                    let p0 = old(self).pool_list()[i];
                    match take_liquidity_spec(p0, lp) {
                        Err(e) => r == Err::<(Bucket, Bucket), KrulkError>(e),
                        Ok((p, x, y)) => r == Ok::<(Bucket, Bucket), KrulkError>(
                            (Bucket::spec_new(p0.a, x), Bucket::spec_new(p0.b, y)),
                        ) && final(self).pool_list() == old(self).pool_list().update(i, p),
                    }
                },
            },
    {
        let i = match self.find_lp(lp.resource_address()) {
            Some(i) => i,
            None => return Err(KrulkError::NoPool),
        };
        let mut p = self.pools[i];
        let r = p.take_liquidity(lp);
        if r.is_ok() {
            self.replace(i, p);
        }
        r
    }

    /// Swaps the tokens in `input` for tokens of `target_resource` at the
    /// pool known by the input's token and the target, in that order.
    pub fn swap(&mut self, input: Bucket, target_resource: ResourceAddress) -> (r: Result<Bucket, KrulkError>)
        requires
            old(self).wf(),
        ensures
            final(self).wf(),
            r is Err ==> *final(self) == *old(self),
            if pool_index(old(self).pool_list(), sorted_pair(input.res(), target_resource)) is None {
                r == Err::<Bucket, KrulkError>(KrulkError::NoPool)
            } else {
                match pool_index(old(self).pool_list(), (input.res(), target_resource)) {
                    None => r == Err::<Bucket, KrulkError>(KrulkError::NoPool),
                    Some(i) => match swap_spec(old(self).pool_list()[i], input, target_resource) {
                        Err(e) => r == Err::<Bucket, KrulkError>(e),
                        Ok((p, give)) => r == Ok::<Bucket, KrulkError>(Bucket::spec_new(target_resource, give))
                            && final(self).pool_list() == old(self).pool_list().update(i, p),
                    },
                }
            },
    {
        if !self.pool_exists(input.resource_address(), target_resource) {
            return Err(KrulkError::NoPool);
        }
        let i = match self.find_pool((input.resource_address(), target_resource)) {
            Some(i) => i,
            None => return Err(KrulkError::NoPool),
        };
        let mut p = self.pools[i];
        let r = p.swap(input, target_resource);
        if r.is_ok() {
            self.replace(i, p);
        }
        r
    }
}

/// A swap leaves the product of the pool's balances at least its constant,
/// as far as rounding toward zero allows: the pool never pays out more than
/// keeps the target balance at the constant over the new input balance.
pub proof fn lemma_swap_keeps_product(p: KrulkPool, input: Bucket, target: ResourceAddress)
    requires
        input.res() != target,
        swap_spec(p, input, target) is Ok,
    ensures
        ({
            let (p2, give) = swap_spec(p, input, target)->Ok_0;
            let new_in = balance_of(p2, input.res())->Some_0@;
            let new_out = balance_of(p2, target)->Some_0@;
            &&& new_in == balance_of(p, input.res())->Some_0@ + input.amt()@
            &&& new_out == balance_of(p, target)->Some_0@ - give@
            &&& new_out == ddiv(p.k_constant@, new_in)
        }),
{
}

} // verus!
