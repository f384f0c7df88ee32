//! A single-token exchange of candies against XRD and against each other.
//! Every candy has a price in XRD that each trade moves along the candy's
//! reserve; liquidity providers stock candies for meta-candies and a badge
//! that records the fees accrued when they came, and the protocol keeps a
//! share of each trade as its fee.
use vstd::prelude::*;
use crate::decimal::{dec_of, dec_one, ddiv, dmul, opt_add, opt_div, opt_mul, opt_sub, whole, Decimal};
use crate::resource::{group_bucket, Bucket, Proof, ResourceAddress};

verus! {

broadcast use group_bucket;

/// Why a candy exchange call is refused. A refused call changes nothing.
#[derive(Clone, Copy, Debug, PartialEq, Eq, Structural)]
pub enum CandyError {
    /// XRD cannot be stocked or priced as a candy.
    XrdNotCandy,
    /// A price must be positive.
    NonPositivePrice,
    /// The candy is already stocked.
    CandyExists,
    /// The candy is not stocked.
    UnknownCandy,
    /// An amount does not fit, or a division by zero.
    Arithmetic,
    /// The reserve holds less than is to be taken, or the amount is negative.
    InsufficientLiquidity,
    /// The input does not cover what the trade takes.
    NotEnoughInput,
    /// The trade gives less than the minimum asked for.
    MinNotMet,
    /// The XRD held does not cover the trade.
    NotEnoughXrd,
    /// The two candies of a trade must differ.
    SameCandy,
    /// The fee lies between zero and one.
    FeeOutOfRange,
    /// The tokens are not of the resource the exchange expects.
    WrongResource,
    /// A meta-badge is needed, of this exchange and for this candy.
    NoBadge,
    /// The meta-candies are not those of the candy.
    MetaMismatch,
    /// More meta-candies than the badge records.
    TooManyMetaCandies,
    /// Setting the fee and claiming it need a proof of the owner badge.
    Unauthorized,
}

/// A stocked candy: its price in XRD, its reserve, the fees it accrued for
/// its providers, the meta-candies minted for it and their resource.
#[derive(Clone, Copy, Debug, PartialEq, Eq, Structural)]
pub struct CandyEntry {
    pub candy: ResourceAddress,
    pub price: Decimal,
    pub vault: Decimal,
    pub accrued_fee: Decimal,
    pub minted: Decimal,
    pub meta_resource: ResourceAddress,
}

/// A provider's meta-badge: the accrued fee of its candy when it was
/// minted, and the meta-candies it stands for.
#[derive(Clone, Copy, Debug, PartialEq, Eq, Structural)]
pub struct BadgeEntry {
    pub badge: ResourceAddress,
    pub entry_fee: Decimal,
    pub meta_amount: Decimal,
    pub candy: ResourceAddress,
}

/// The name and symbol of a candy.
pub struct CandyLabel {
    pub candy: ResourceAddress,
    pub name: String,
    pub symbol: String,
}

/// The exchange's XRD: what it holds, the protocol's fee not yet claimed
/// and claimed so far, and the fee rate in percent.
#[derive(Clone, Copy, Debug, PartialEq, Eq, Structural)]
pub struct XrdBook {
    pub xrd: ResourceAddress,
    pub collected_xrd: Decimal,
    pub xrd_fee: Decimal,
    pub xrd_claimed: Decimal,
    pub fee: Decimal,
}

/// The state that trades change.
pub ghost struct CandyState {
    pub book: XrdBook,
    pub candies: Seq<CandyEntry>,
    pub badges: Seq<BadgeEntry>,
}

/// An optional amount as a result: a missing one is an arithmetic failure.
pub open spec fn arith(o: Option<Decimal>) -> Result<Decimal, CandyError> {
    match o {
        Some(d) => Ok(d),
        None => Err(CandyError::Arithmetic),
    }
}

/// The position of `candy` among the stocked candies.
pub open spec fn candy_index(s: Seq<CandyEntry>, candy: ResourceAddress) -> Option<int> {
    if exists|i: int| 0 <= i < s.len() && (#[trigger] s[i]).candy == candy {
        Some(choose|i: int| 0 <= i < s.len() && (#[trigger] s[i]).candy == candy)
    } else {
        None
    }
}

/// The position of the meta-badge `badge`.
pub open spec fn badge_index(s: Seq<BadgeEntry>, badge: ResourceAddress) -> Option<int> {
    if exists|i: int| 0 <= i < s.len() && (#[trigger] s[i]).badge == badge {
        Some(choose|i: int| 0 <= i < s.len() && (#[trigger] s[i]).badge == badge)
    } else {
        None
    }
}

/// The price of `candy`.
pub open spec fn price_of(s: Seq<CandyEntry>, candy: ResourceAddress) -> Result<Decimal, CandyError> {
    match candy_index(s, candy) {
        Some(i) => Ok(s[i].price),
        None => Err(CandyError::UnknownCandy),
    }
}

/// `amount` grossed up so that the fee leaves it whole:
/// `amount * 100 / (100 - fee)`.
pub open spec fn adjust_fee(amount: Decimal, fee: Decimal) -> Result<Decimal, CandyError> {
    arith(opt_div(opt_mul(Some(amount), Some(whole(100))), opt_sub(Some(whole(100)), Some(fee))))
}

/// The fee on `amount`: `amount * fee / 100`.
pub open spec fn fee_part(amount: Decimal, fee: Decimal) -> Result<Decimal, CandyError> {
    arith(opt_div(opt_mul(Some(amount), Some(fee)), Some(whole(100))))
}

/// The new price of the candy at `address` when `amount` of it leaves the
/// reserve (`up`) or comes in: the reserve times the price over the
/// reserve less, or plus, the amount.
pub open spec fn price_mod(s: Seq<CandyEntry>, amount: Decimal, address: ResourceAddress, price: Decimal, up: bool) -> Result<
    Decimal,
    CandyError,
> {
    match candy_index(s, address) {
        None => Err(CandyError::UnknownCandy),
        Some(i) => {
            let total = s[i].vault;
            arith(
                opt_div(
                    opt_mul(Some(total), Some(price)),
                    if up {
                        opt_sub(Some(total), Some(amount))
                    } else {
                        opt_add(Some(total), Some(amount))
                    },
                ),
            )
        },
    }
}

/// The candies with the price of the candy at `i` set to `p`.
pub open spec fn with_price(s: Seq<CandyEntry>, i: int, p: Decimal) -> Seq<CandyEntry> {
    s.update(i, CandyEntry { price: p, ..s[i] })
}

/// How many candies `amnt_pri` of `addr_pri` fetch. With `kind` one, in
/// `addr_sec`, at its price after the amount, in XRD, leaves its reserve,
/// and nothing changes. Otherwise the price of `addr_pri` moves up as if
/// `amnt_pri` (kind zero) or its worth in candies (kind two) left its
/// reserve, and the amount buys at that new price.
pub open spec fn candy_sum(
    s: Seq<CandyEntry>,
    amnt_pri: Decimal,
    addr_pri: ResourceAddress,
    addr_sec: ResourceAddress,
    kind: u8,
) -> Result<(Seq<CandyEntry>, Decimal), CandyError> {
    match (price_of(s, addr_pri), price_of(s, addr_sec)) {
        (Ok(price_in), Ok(price_out)) => {
            let tot = s[candy_index(s, addr_sec)->Some_0].vault;
            match arith(opt_div(opt_mul(Some(amnt_pri), Some(price_in)), Some(price_out))) {
                Err(e) => Err(e),
                Ok(candy_out) => if kind == 1 {
                    match arith(opt_div(opt_mul(Some(price_out), Some(tot)), opt_add(Some(tot), Some(candy_out)))) {
                        Err(e) => Err(e),
                        Ok(price_new) => match arith(opt_div(opt_mul(Some(price_new), Some(candy_out)), Some(price_out))) {
                            Err(e) => Err(e),
                            Ok(r) => Ok((s, r)),
                        },
                    }
                } else {
                    let amount = if kind == 2 {
                        arith(opt_div(Some(amnt_pri), Some(price_in)))
                    } else {
                        Ok(amnt_pri)
                    };
                    match amount {
                        Err(e) => Err(e),
                        Ok(amount) => match price_mod(s, amount, addr_pri, price_in, true) {
                            Err(e) => Err(e),
                            Ok(price_new) => {
                                let s2 = with_price(s, candy_index(s, addr_pri)->Some_0, price_new);
                                match arith(opt_div(Some(amnt_pri), Some(price_new))) {
                                    Err(e) => Err(e),
                                    Ok(r) => Ok((s2, r)),
                                }
                            },
                        }
                    }
                },
            }
        },
        (Err(e), _) => Err(e),
        (_, Err(e)) => Err(e),
    }
}

/// Pays out `out` candies of `addr` less the fee, which accrues to the
/// candy's providers.
pub open spec fn candytake(s: Seq<CandyEntry>, out: Decimal, addr: ResourceAddress, fee: Decimal) -> Result<
    (Seq<CandyEntry>, Decimal),
    CandyError,
> {
    match candy_index(s, addr) {
        None => Err(CandyError::UnknownCandy),
        Some(i) => {
            let e = s[i];
            match fee_part(out, fee) {
                Err(err) => Err(err),
                Ok(fp) => match (dec_of(e.accrued_fee@ + fp@), dec_of(out@ - fp@)) {
                    (Some(acc), Some(give)) => if 0 <= give@ <= e.vault@ {
                        Ok(
                            (
                                s.update(
                                    i,
                                    CandyEntry { accrued_fee: acc, vault: Decimal((e.vault@ - give@) as i128), ..e },
                                ),
                                give,
                            ),
                        )
                    } else {
                        Err(CandyError::InsufficientLiquidity)
                    },
                    _ => Err(CandyError::Arithmetic),
                },
            }
        },
    }
}

/// Puts `amount` into the reserve of `addr`.
pub open spec fn candyput(s: Seq<CandyEntry>, addr: ResourceAddress, amount: Decimal) -> Result<Seq<CandyEntry>, CandyError> {
    match candy_index(s, addr) {
        None => Err(CandyError::UnknownCandy),
        Some(i) => match dec_of(s[i].vault@ + amount@) {
            None => Err(CandyError::Arithmetic),
            Some(v) => Ok(s.update(i, CandyEntry { vault: v, ..s[i] })),
        },
    }
}

/// Sells all the candies in `candy` for `addr_in`: the amount times
/// `prc_in` over `prc_out`, and what the candies fetch of `addr_in`, their
/// amount grossed up for the fee when `prc_in` is zero; the candies go into
/// their reserve.
pub open spec fn candyput_pri(
    s: Seq<CandyEntry>,
    prc_in: Decimal,
    prc_out: Decimal,
    addr_in: ResourceAddress,
    candy: Bucket,
    fee: Decimal,
) -> Result<(Seq<CandyEntry>, Decimal, Decimal), CandyError> {
    match arith(opt_div(opt_mul(Some(candy.amt()), Some(prc_in)), Some(prc_out))) {
        Err(e) => Err(e),
        Ok(nmbr) => {
            let candy_amnt = if prc_in@ == 0 {
                adjust_fee(candy.amt(), fee)
            } else {
                Ok(candy.amt())
            };
            match candy_amnt {
                Err(e) => Err(e),
                Ok(candy_amnt) => match candy_sum(s, candy_amnt, candy.res(), addr_in, 1) {
                    Err(e) => Err(e),
                    Ok((_, amount)) => match candyput(s, candy.res(), candy.amt()) {
                        Err(e) => Err(e),
                        Ok(s2) => Ok((s2, nmbr, amount)),
                    },
                },
            }
        },
    }
}

/// Takes what `amnt` of `addr` costs out of `candy`, into its reserve,
/// and gives the rest back: the cost is what `amnt` fetches of the candy
/// when `prc_in` is zero, else `amnt` times `prc_in` over `prc_out`.
pub open spec fn candyput_sec(
    s: Seq<CandyEntry>,
    amnt: Decimal,
    addr: ResourceAddress,
    prc_in: Decimal,
    prc_out: Decimal,
    candy: Bucket,
) -> Result<(Seq<CandyEntry>, Decimal), CandyError> {
    let amnt_in = if prc_in@ == 0 {
        match candy_sum(s, amnt, addr, candy.res(), 1) {
            Err(e) => Err(e),
            Ok((_, a)) => Ok(a),
        }
    } else {
        arith(opt_div(opt_mul(Some(amnt), Some(prc_in)), Some(prc_out)))
    };
    match amnt_in {
        Err(e) => Err(e),
        Ok(amnt_in) => if amnt_in@ > candy.amt()@ {
            Err(CandyError::NotEnoughInput)
        } else if amnt_in@ < 0 {
            Err(CandyError::InsufficientLiquidity)
        } else {
            match candyput(s, candy.res(), amnt_in) {
                Err(e) => Err(e),
                Ok(s2) => Ok((s2, Decimal((candy.amt()@ - amnt_in@) as i128))),
            }
        },
    }
}

/// No two entries share a candy.
pub open spec fn candies_unique(s: Seq<CandyEntry>) -> bool {
    forall|i: int, j: int| 0 <= i < j < s.len() ==> (#[trigger] s[i]).candy != (#[trigger] s[j]).candy
}

/// No two entries share a badge.
pub open spec fn badges_unique(s: Seq<BadgeEntry>) -> bool {
    forall|i: int, j: int| 0 <= i < j < s.len() ==> (#[trigger] s[i]).badge != (#[trigger] s[j]).badge
}

/// Finds `candy` among the entries.
fn find_candy(s: &Vec<CandyEntry>, candy: ResourceAddress) -> (r: Option<usize>)
    requires
        candies_unique(s@),
    ensures
        match r {
            Some(i) => i < s@.len() && candy_index(s@, candy) == Some(i as int),
            None => candy_index(s@, candy) is None,
        },
{
    let mut i: usize = 0;
    while i < s.len()
        invariant
            i <= s@.len(),
            candies_unique(s@),
            forall|j: int| 0 <= j < i ==> (#[trigger] s@[j]).candy != candy,
        decreases s@.len() - i,
    {
        if s[i].candy == candy {
            proof {
                let c = choose|c: int| 0 <= c < s@.len() && (#[trigger] s@[c]).candy == candy;
                if c < i {
                    assert(s@[c].candy != candy);
                } else if c > i {
                    assert(s@[i as int].candy != s@[c].candy);
                }
            }
            return Some(i);
        }
        i = i + 1;
    }
    None
}

/// Finds `badge` among the meta-badges.
fn find_badge(s: &Vec<BadgeEntry>, badge: ResourceAddress) -> (r: Option<usize>)
    requires
        badges_unique(s@),
    ensures
        match r {
            Some(i) => i < s@.len() && badge_index(s@, badge) == Some(i as int),
            None => badge_index(s@, badge) is None,
        },
{
    let mut i: usize = 0;
    while i < s.len()
        invariant
            i <= s@.len(),
            badges_unique(s@),
            forall|j: int| 0 <= j < i ==> (#[trigger] s@[j]).badge != badge,
        decreases s@.len() - i,
    {
        if s[i].badge == badge {
            proof {
                let c = choose|c: int| 0 <= c < s@.len() && (#[trigger] s@[c]).badge == badge;
                if c < i {
                    assert(s@[c].badge != badge);
                } else if c > i {
                    assert(s@[i as int].badge != s@[c].badge);
                }
            }
            return Some(i);
        }
        i = i + 1;
    }
    None
}

fn arith_exec(o: Option<Decimal>) -> (r: Result<Decimal, CandyError>)
    ensures
        r == arith(o),
{
    match o {
        Some(d) => Ok(d),
        None => Err(CandyError::Arithmetic),
    }
}

fn opt_mul_exec(a: Option<Decimal>, b: Option<Decimal>) -> (r: Option<Decimal>)
    ensures
        r == opt_mul(a, b),
{
    match (a, b) {
        (Some(x), Some(y)) => x.checked_mul(y),
        _ => None,
    }
}

fn opt_div_exec(a: Option<Decimal>, b: Option<Decimal>) -> (r: Option<Decimal>)
    ensures
        r == opt_div(a, b),
{
    match (a, b) {
        (Some(x), Some(y)) => x.checked_div(y),
        _ => None,
    }
}

fn opt_add_exec(a: Option<Decimal>, b: Option<Decimal>) -> (r: Option<Decimal>)
    ensures
        r == opt_add(a, b),
{
    match (a, b) {
        (Some(x), Some(y)) => x.checked_add(y),
        _ => None,
    }
}

fn opt_sub_exec(a: Option<Decimal>, b: Option<Decimal>) -> (r: Option<Decimal>)
    ensures
        r == opt_sub(a, b),
{
    match (a, b) {
        (Some(x), Some(y)) => x.checked_sub(y),
        _ => None,
    }
}

fn hundred() -> (r: Decimal)
    ensures
        r == whole(100),
{
    Decimal(100 * 1_000_000_000_000_000_000)
}

fn adjust_fee_exec(amount: Decimal, fee: Decimal) -> (r: Result<Decimal, CandyError>)
    ensures
        r == adjust_fee(amount, fee),
{
    arith_exec(opt_div_exec(opt_mul_exec(Some(amount), Some(hundred())), opt_sub_exec(Some(hundred()), Some(fee))))
}

fn fee_part_exec(amount: Decimal, fee: Decimal) -> (r: Result<Decimal, CandyError>)
    ensures
        r == fee_part(amount, fee),
{
    arith_exec(opt_div_exec(opt_mul_exec(Some(amount), Some(fee)), Some(hundred())))
}

fn price_exec(s: &Vec<CandyEntry>, candy: ResourceAddress) -> (r: Result<Decimal, CandyError>)
    requires
        candies_unique(s@),
    ensures
        r == price_of(s@, candy),
{
    match find_candy(s, candy) {
        Some(i) => Ok(s[i].price),
        None => Err(CandyError::UnknownCandy),
    }
}

fn price_mod_exec(s: &Vec<CandyEntry>, amount: Decimal, address: ResourceAddress, price: Decimal, up: bool) -> (r:
    Result<Decimal, CandyError>)
    requires
        candies_unique(s@),
    ensures
        r == price_mod(s@, amount, address, price, up),
{
    match find_candy(s, address) {
        None => Err(CandyError::UnknownCandy),
        Some(i) => {
            let total = s[i].vault;
            let den = if up {
                opt_sub_exec(Some(total), Some(amount))
            } else {
                opt_add_exec(Some(total), Some(amount))
            };
            arith_exec(opt_div_exec(opt_mul_exec(Some(total), Some(price)), den))
        },
    }
}

/// Sets the price of the candy at `i`.
fn set_price(s: &mut Vec<CandyEntry>, i: usize, p: Decimal)
    requires
        i < old(s)@.len(),
        candies_unique(old(s)@),
    ensures
        final(s)@ == with_price(old(s)@, i as int, p),
        candies_unique(final(s)@),
{
    let e = s[i];
    s.set(i, CandyEntry { price: p, ..e });
    proof {
        assert forall|a: int, b: int| 0 <= a < b < s@.len() implies (#[trigger] s@[a]).candy != (#[trigger] s@[b]).candy by {
            assert(old(s)@[a].candy != old(s)@[b].candy);
        }
    }
}

fn candy_sum_exec(s: &mut Vec<CandyEntry>, amnt_pri: Decimal, addr_pri: ResourceAddress, addr_sec: ResourceAddress, kind: u8) -> (r:
    Result<Decimal, CandyError>)
    requires
        candies_unique(old(s)@),
    ensures
        candies_unique(final(s)@),
        match candy_sum(old(s)@, amnt_pri, addr_pri, addr_sec, kind) {
            Ok((s2, a)) => r == Ok::<Decimal, CandyError>(a) && final(s)@ == s2,
            Err(e) => r == Err::<Decimal, CandyError>(e) && final(s)@ == old(s)@,
        },
{
    let price_in = match price_exec(s, addr_pri) {
        Ok(p) => p,
        Err(e) => return Err(e),
    };
    let price_out = match price_exec(s, addr_sec) {
        Ok(p) => p,
        Err(e) => return Err(e),
    };
    let j = match find_candy(s, addr_sec) {
        Some(j) => j,
        None => return Err(CandyError::UnknownCandy),
    };
    let tot = s[j].vault;
    let candy_out = match arith_exec(opt_div_exec(opt_mul_exec(Some(amnt_pri), Some(price_in)), Some(price_out))) {
        Ok(c) => c,
        Err(e) => return Err(e),
    };
    if kind == 1 {
        let price_new = match arith_exec(
            opt_div_exec(opt_mul_exec(Some(price_out), Some(tot)), opt_add_exec(Some(tot), Some(candy_out))),
        ) {
            Ok(p) => p,
            Err(e) => return Err(e),
        };
        arith_exec(opt_div_exec(opt_mul_exec(Some(price_new), Some(candy_out)), Some(price_out)))
    } else {
        let amount = if kind == 2 {
            match arith_exec(opt_div_exec(Some(amnt_pri), Some(price_in))) {
                Ok(a) => a,
                Err(e) => return Err(e),
            }
        } else {
            amnt_pri
        };
        let price_new = match price_mod_exec(s, amount, addr_pri, price_in, true) {
            Ok(p) => p,
            Err(e) => return Err(e),
        };
        let r = match arith_exec(opt_div_exec(Some(amnt_pri), Some(price_new))) {
            Ok(r) => r,
            Err(e) => return Err(e),
        };
        let i = match find_candy(s, addr_pri) {
            Some(i) => i,
            None => return Err(CandyError::UnknownCandy),
        };
        set_price(s, i, price_new);
        Ok(r)
    }
}

fn candytake_exec(s: &mut Vec<CandyEntry>, out: Decimal, addr: ResourceAddress, fee: Decimal) -> (r: Result<
    Decimal,
    CandyError,
>)
    requires
        candies_unique(old(s)@),
    ensures
        candies_unique(final(s)@),
        match candytake(old(s)@, out, addr, fee) {
            Ok((s2, give)) => r == Ok::<Decimal, CandyError>(give) && final(s)@ == s2,
            Err(e) => r == Err::<Decimal, CandyError>(e) && final(s)@ == old(s)@,
        },
{
    let i = match find_candy(s, addr) {
        Some(i) => i,
        None => return Err(CandyError::UnknownCandy),
    };
    let e = s[i];
    let fp = match fee_part_exec(out, fee) {
        Ok(f) => f,
        Err(err) => return Err(err),
    };
    let acc = e.accrued_fee.checked_add(fp);
    let give = out.checked_sub(fp);
    match (acc, give) {
        (Some(acc), Some(give)) => {
            if give.0 < 0 || give.0 > e.vault.0 {
                return Err(CandyError::InsufficientLiquidity);
            }
            s.set(i, CandyEntry { accrued_fee: acc, vault: Decimal(e.vault.0 - give.0), ..e });
            proof {
                assert forall|a: int, b: int| 0 <= a < b < s@.len() implies (#[trigger] s@[a]).candy
                    != (#[trigger] s@[b]).candy by {
                    assert(old(s)@[a].candy != old(s)@[b].candy);
                }
            }
            Ok(give)
        },
        _ => Err(CandyError::Arithmetic),
    }
}

fn candyput_exec(s: &mut Vec<CandyEntry>, addr: ResourceAddress, amount: Decimal) -> (r: Result<(), CandyError>)
    requires
        candies_unique(old(s)@),
    ensures
        candies_unique(final(s)@),
        match candyput(old(s)@, addr, amount) {
            Ok(s2) => r is Ok && final(s)@ == s2,
            Err(e) => r == Err::<(), CandyError>(e) && final(s)@ == old(s)@,
        },
{
    let i = match find_candy(s, addr) {
        Some(i) => i,
        None => return Err(CandyError::UnknownCandy),
    };
    let e = s[i];
    match e.vault.checked_add(amount) {
        None => Err(CandyError::Arithmetic),
        Some(v) => {
            s.set(i, CandyEntry { vault: v, ..e });
            proof {
                assert forall|a: int, b: int| 0 <= a < b < s@.len() implies (#[trigger] s@[a]).candy
                    != (#[trigger] s@[b]).candy by {
                    assert(old(s)@[a].candy != old(s)@[b].candy);
                }
            }
            Ok(())
        },
    }
}

fn candyput_pri_exec(
    s: &mut Vec<CandyEntry>,
    prc_in: Decimal,
    prc_out: Decimal,
    addr_in: ResourceAddress,
    candy: Bucket,
    fee: Decimal,
) -> (r: Result<(Decimal, Decimal), CandyError>)
    requires
        candies_unique(old(s)@),
    ensures
        candies_unique(final(s)@),
        match candyput_pri(old(s)@, prc_in, prc_out, addr_in, candy, fee) {
            Ok((s2, nmbr, amount)) => r == Ok::<(Decimal, Decimal), CandyError>((nmbr, amount)) && final(s)@ == s2,
            Err(e) => r == Err::<(Decimal, Decimal), CandyError>(e) && final(s)@ == old(s)@,
        },
{
    let nmbr = match arith_exec(opt_div_exec(opt_mul_exec(Some(candy.amount()), Some(prc_in)), Some(prc_out))) {
        Ok(n) => n,
        Err(e) => return Err(e),
    };
    let candy_amnt = if prc_in.0 == 0 {
        match adjust_fee_exec(candy.amount(), fee) {
            Ok(a) => a,
            Err(e) => return Err(e),
        }
    } else {
        candy.amount()
    };
    let ghost s0 = s@;
    let amount = match candy_sum_exec(s, candy_amnt, candy.resource_address(), addr_in, 1) {
        Ok(a) => a,
        Err(e) => return Err(e),
    };
    assert(s@ == s0);
    match candyput_exec(s, candy.resource_address(), candy.amount()) {
        Ok(()) => Ok((nmbr, amount)),
        Err(e) => Err(e),
    }
}

fn candyput_sec_exec(s: &mut Vec<CandyEntry>, amnt: Decimal, addr: ResourceAddress, prc_in: Decimal, prc_out: Decimal, candy: Bucket) -> (r:
    Result<Decimal, CandyError>)
    requires
        candies_unique(old(s)@),
    ensures
        candies_unique(final(s)@),
        match candyput_sec(old(s)@, amnt, addr, prc_in, prc_out, candy) {
            Ok((s2, rest)) => r == Ok::<Decimal, CandyError>(rest) && final(s)@ == s2,
            Err(e) => r == Err::<Decimal, CandyError>(e) && final(s)@ == old(s)@,
        },
{
    let ghost s0 = s@;
    let amnt_in = if prc_in.0 == 0 {
        match candy_sum_exec(s, amnt, addr, candy.resource_address(), 1) {
            Ok(a) => a,
            Err(e) => return Err(e),
        }
    } else {
        match arith_exec(opt_div_exec(opt_mul_exec(Some(amnt), Some(prc_in)), Some(prc_out))) {
            Ok(a) => a,
            Err(e) => return Err(e),
        }
    };
    assert(s@ == s0);
    let amount = candy.amount();
    if amnt_in.0 > amount.0 {
        return Err(CandyError::NotEnoughInput);
    }
    if amnt_in.0 < 0 {
        return Err(CandyError::InsufficientLiquidity);
    }
    match candyput_exec(s, candy.resource_address(), amnt_in) {
        Ok(()) => Ok(Decimal(amount.0 - amnt_in.0)),
        Err(e) => Err(e),
    }
}


/// The book with the XRD in `b` added.
pub open spec fn put_xrd(book: XrdBook, b: Bucket) -> Result<XrdBook, CandyError> {
    if b.res() != book.xrd {
        Err(CandyError::WrongResource)
    } else {
        match dec_of(book.collected_xrd@ + b.amt()@) {
            None => Err(CandyError::Arithmetic),
            Some(c) => Ok(XrdBook { collected_xrd: c, ..book }),
        }
    }
}

/// The book with `amount` of XRD taken out.
pub open spec fn take_xrd(book: XrdBook, amount: Decimal) -> Result<XrdBook, CandyError> {
    if 0 <= amount@ <= book.collected_xrd@ {
        Ok(XrdBook { collected_xrd: Decimal((book.collected_xrd@ - amount@) as i128), ..book })
    } else {
        Err(CandyError::NotEnoughXrd)
    }
}

/// Swaps all the XRD in `xrd_out` for candies of `addr_in`, at least
/// `min_in` of them before the fee; gives the candies paid out.
pub open spec fn buy_candy_sell_exact_xrd_spec(st: CandyState, min_in: Decimal, addr_in: ResourceAddress, xrd_out: Bucket) -> Result<
    (CandyState, Decimal),
    CandyError,
> {
    match put_xrd(st.book, xrd_out) {
        Err(e) => Err(e),
        Ok(book) => match candy_sum(st.candies, xrd_out.amt(), addr_in, addr_in, 2) {
            Err(e) => Err(e),
            Ok((s2, amount_in)) => if amount_in@ < min_in@ {
                Err(CandyError::MinNotMet)
            } else {
                match candytake(s2, amount_in, addr_in, st.book.fee) {
                    Err(e) => Err(e),
                    Ok((s3, give)) => Ok((CandyState { book, candies: s3, ..st }, give)),
                }
            },
        },
    }
}

/// Swaps all the candies in `candy_out` for candies of `addr_in`, at least
/// `min_in` of them before the fee; gives the candies paid out.
pub open spec fn buy_candy_sell_exact_candy_spec(st: CandyState, min_in: Decimal, addr_in: ResourceAddress, candy_out: Bucket) -> Result<
    (CandyState, Decimal),
    CandyError,
> {
    if addr_in == candy_out.res() {
        Err(CandyError::SameCandy)
    } else {
        match candyput_pri(st.candies, Decimal(0), whole(1), addr_in, candy_out, st.book.fee) {
            Err(e) => Err(e),
            Ok((s2, _, amount_in)) => if amount_in@ < min_in@ {
                Err(CandyError::MinNotMet)
            } else {
                match candytake(s2, amount_in, addr_in, st.book.fee) {
                    Err(e) => Err(e),
                    Ok((s3, give)) => Ok((CandyState { candies: s3, ..st }, give)),
                }
            },
        }
    }
}

/// Swaps all the candies in `candy_out` for XRD, at least `xrd_min` before
/// the fee: the candy's price falls along its reserve and the candies sell
/// at the new price; gives the XRD paid out.
pub open spec fn buy_xrd_sell_exact_candy_spec(st: CandyState, xrd_min: Decimal, candy_out: Bucket) -> Result<
    (CandyState, Decimal),
    CandyError,
> {
    let addr = candy_out.res();
    let fee = st.book.fee;
    match price_of(st.candies, addr) {
        Err(e) => Err(e),
        Ok(price_out) => match arith(opt_mul(Some(candy_out.amt()), Some(price_out))) {
            Err(e) => Err(e),
            Ok(worth) => if worth@ > st.book.collected_xrd@ {
                Err(CandyError::NotEnoughXrd)
            } else {
                match price_mod(st.candies, candy_out.amt(), addr, price_out, false) {
                    Err(e) => Err(e),
                    Ok(new_price) => {
                        let s1 = with_price(st.candies, candy_index(st.candies, addr)->Some_0, new_price);
                        match arith(opt_mul(Some(new_price), Some(new_price))) {
                            Err(e) => Err(e),
                            Ok(pp) => match candyput_pri(s1, pp, new_price, addr, candy_out, fee) {
                                Err(e) => Err(e),
                                Ok((s2, nmbr, _)) => if nmbr@ < xrd_min@ {
                                    Err(CandyError::MinNotMet)
                                } else {
                                    match fee_part(nmbr, fee) {
                                        Err(e) => Err(e),
                                        Ok(fp) => match (dec_of(st.book.xrd_fee@ + fp@), dec_of(nmbr@ - fp@)) {
                                            (Some(xf), Some(out)) => match take_xrd(st.book, out) {
                                                Err(e) => Err(e),
                                                Ok(book) => Ok(
                                                    (
                                                        CandyState {
                                                            book: XrdBook { xrd_fee: xf, ..book },
                                                            candies: s2,
                                                            ..st
                                                        },
                                                        out,
                                                    ),
                                                ),
                                            },
                                            _ => Err(CandyError::Arithmetic),
                                        },
                                    }
                                },
                            },
                        }
                    },
                }
            },
        },
    }
}

/// Buys `nbr_in` candies of `addr_in`, grossed up for the fee, with XRD
/// out of `xrd_out`: the candy's price rises along its reserve; gives the
/// candies paid out and the XRD left.
pub open spec fn buy_exact_candy_sell_xrd_spec(st: CandyState, nbr_in: Decimal, addr_in: ResourceAddress, xrd_out: Bucket) -> Result<
    (CandyState, Decimal, Decimal),
    CandyError,
> {
    match adjust_fee(nbr_in, st.book.fee) {
        Err(e) => Err(e),
        Ok(amnt_in) => match candy_sum(st.candies, amnt_in, addr_in, addr_in, 0) {
            Err(e) => Err(e),
            Ok((s1, x)) => match arith(opt_div(opt_mul(Some(amnt_in), Some(amnt_in)), Some(x))) {
                Err(e) => Err(e),
                Ok(xrd_amnt) => if xrd_amnt@ > xrd_out.amt()@ {
                    Err(CandyError::NotEnoughInput)
                } else if xrd_amnt@ < 0 {
                    Err(CandyError::InsufficientLiquidity)
                } else {
                    match put_xrd(st.book, Bucket::spec_new(xrd_out.res(), xrd_amnt)) {
                        Err(e) => Err(e),
                        Ok(book) => match candytake(s1, amnt_in, addr_in, st.book.fee) {
                            Err(e) => Err(e),
                            Ok((s2, give)) => Ok(
                                (
                                    CandyState { book, candies: s2, ..st },
                                    give,
                                    Decimal((xrd_out.amt()@ - xrd_amnt@) as i128),
                                ),
                            ),
                        },
                    }
                },
            },
        },
    }
}

/// Buys `amnt_in` candies of `addr_in`, grossed up for the fee, with
/// candies out of `candy_out`; gives the candies left and those paid out.
pub open spec fn buy_exact_candy_sell_candy_spec(st: CandyState, amnt_in: Decimal, addr_in: ResourceAddress, candy_out: Bucket) -> Result<
    (CandyState, Decimal, Decimal),
    CandyError,
> {
    if addr_in == candy_out.res() {
        Err(CandyError::SameCandy)
    } else {
        match adjust_fee(amnt_in, st.book.fee) {
            Err(e) => Err(e),
            Ok(amount_in) => match candyput_sec(st.candies, amount_in, addr_in, Decimal(0), whole(1), candy_out) {
                Err(e) => Err(e),
                Ok((s1, rest)) => match candytake(s1, amount_in, addr_in, st.book.fee) {
                    Err(e) => Err(e),
                    Ok((s2, give)) => Ok((CandyState { candies: s2, ..st }, rest, give)),
                },
            },
        }
    }
}

/// Buys `xrd_in` XRD, grossed up for the fee, with candies out of
/// `candy_out`: the candy's price falls along its reserve; gives the
/// candies left and the XRD paid out.
pub open spec fn buy_exact_xrd_sell_candy_spec(st: CandyState, xrd_in: Decimal, candy_out: Bucket) -> Result<
    (CandyState, Decimal, Decimal),
    CandyError,
> {
    let addr = candy_out.res();
    let fee = st.book.fee;
    match adjust_fee(xrd_in, fee) {
        Err(e) => Err(e),
        Ok(xrd_input) => match price_of(st.candies, addr) {
            Err(e) => Err(e),
            Ok(price_out) => if xrd_in@ > st.book.collected_xrd@ {
                Err(CandyError::NotEnoughXrd)
            } else {
                match arith(opt_div(Some(xrd_input), Some(price_out))) {
                    Err(e) => Err(e),
                    Ok(q) => match price_mod(st.candies, q, addr, price_out, false) {
                        Err(e) => Err(e),
                        Ok(new_price) => {
                            let s1 = with_price(st.candies, candy_index(st.candies, addr)->Some_0, new_price);
                            match fee_part(xrd_input, fee) {
                                Err(e) => Err(e),
                                Ok(fp) => match dec_of(st.book.xrd_fee@ + fp@) {
                                    None => Err(CandyError::Arithmetic),
                                    Some(xf) => match candyput_sec(s1, xrd_input, addr, whole(1), new_price, candy_out) {
                                        Err(e) => Err(e),
                                        Ok((s2, rest)) => match dec_of(xrd_input@ - fp@) {
                                            None => Err(CandyError::Arithmetic),
                                            Some(out) => match take_xrd(st.book, out) {
                                                Err(e) => Err(e),
                                                Ok(book) => Ok(
                                                    (
                                                        CandyState {
                                                            book: XrdBook { xrd_fee: xf, ..book },
                                                            candies: s2,
                                                            ..st
                                                        },
                                                        rest,
                                                        out,
                                                    ),
                                                ),
                                            },
                                        },
                                    },
                                },
                            }
                        },
                    },
                }
            },
        },
    }
}


/// How many candies of `candy_addr` an exact `xrd_amnt` of XRD, grossed
/// up for the fee, buys once the price has fallen along the reserve.
pub open spec fn candy_sell_amount_bexsc(st: CandyState, candy_addr: ResourceAddress, xrd_amnt: Decimal) -> Result<Decimal, CandyError> {
    match adjust_fee(xrd_amnt, st.book.fee) {
        Err(e) => Err(e),
        Ok(xrd_amount) => match price_of(st.candies, candy_addr) {
            Err(e) => Err(e),
            Ok(price) => match arith(opt_div(Some(xrd_amount), Some(price))) {
                Err(e) => Err(e),
                Ok(q) => match price_mod(st.candies, q, candy_addr, price, false) {
                    Err(e) => Err(e),
                    Ok(new_price) => arith(opt_div(Some(xrd_amount), Some(new_price))),
                },
            },
        },
    }
}

/// How much XRD selling `candy_amnt` candies of `candy_addr` gives after
/// the fee, at the price fallen along the reserve.
pub open spec fn xrd_buy_amount_bxsec(st: CandyState, candy_addr: ResourceAddress, candy_amnt: Decimal) -> Result<Decimal, CandyError> {
    match price_of(st.candies, candy_addr) {
        Err(e) => Err(e),
        Ok(price) => match price_mod(st.candies, candy_amnt, candy_addr, price, false) {
            Err(e) => Err(e),
            Ok(new_price) => match arith(opt_mul(Some(candy_amnt), Some(new_price))) {
                Err(e) => Err(e),
                Ok(v) => match fee_part(v, st.book.fee) {
                    Err(e) => Err(e),
                    Ok(f) => arith(opt_sub(Some(v), Some(f))),
                },
            },
        },
    }
}

/// How many candies of `candy_addr` `xrd_amnt` XRD buys after the fee, at
/// the price risen along the reserve.
pub open spec fn candy_buy_amount_bcsex(st: CandyState, candy_addr: ResourceAddress, xrd_amnt: Decimal) -> Result<Decimal, CandyError> {
    match price_of(st.candies, candy_addr) {
        Err(e) => Err(e),
        Ok(price) => match arith(opt_div(Some(xrd_amnt), Some(price))) {
            Err(e) => Err(e),
            Ok(q) => match price_mod(st.candies, q, candy_addr, price, true) {
                Err(e) => Err(e),
                Ok(new_price) => match arith(opt_div(Some(xrd_amnt), Some(new_price))) {
                    Err(e) => Err(e),
                    Ok(v) => match fee_part(v, st.book.fee) {
                        Err(e) => Err(e),
                        Ok(f) => arith(opt_sub(Some(v), Some(f))),
                    },
                },
            },
        },
    }
}

/// How much XRD buying exactly `candy_amnt` candies of `candy_addr`,
/// grossed up for the fee, costs at the price risen along the reserve.
pub open spec fn xrd_sell_amount_becsx(st: CandyState, candy_addr: ResourceAddress, candy_amnt: Decimal) -> Result<Decimal, CandyError> {
    match adjust_fee(candy_amnt, st.book.fee) {
        Err(e) => Err(e),
        Ok(candy_amount) => match price_of(st.candies, candy_addr) {
            Err(e) => Err(e),
            Ok(price) => match price_mod(st.candies, candy_amount, candy_addr, price, true) {
                Err(e) => Err(e),
                Ok(new_price) => arith(opt_mul(Some(candy_amount), Some(new_price))),
            },
        },
    }
}

/// How many candies of `addr_out` buying `amnt_in` of `addr_in`, grossed
/// up for the fee, costs.
pub open spec fn candy_sell_amount_becsc(st: CandyState, amnt_in: Decimal, addr_in: ResourceAddress, addr_out: ResourceAddress) -> Result<
    Decimal,
    CandyError,
> {
    match adjust_fee(amnt_in, st.book.fee) {
        Err(e) => Err(e),
        Ok(amount_in) => match candy_sum(st.candies, amount_in, addr_in, addr_out, 1) {
            Err(e) => Err(e),
            Ok((_, a)) => Ok(a),
        },
    }
}

/// How many candies of `addr_in` selling `amnt_out` of `addr_out`, grossed
/// up for the fee, fetches after the fee.
pub open spec fn candy_buy_amount_bcsec(st: CandyState, addr_in: ResourceAddress, amnt_out: Decimal, addr_out: ResourceAddress) -> Result<
    Decimal,
    CandyError,
> {
    match adjust_fee(amnt_out, st.book.fee) {
        Err(e) => Err(e),
        Ok(amount_out) => match candy_sum(st.candies, amount_out, addr_out, addr_in, 1) {
            Err(e) => Err(e),
            Ok((_, a)) => match fee_part(a, st.book.fee) {
                Err(e) => Err(e),
                Ok(f) => arith(opt_sub(Some(a), Some(f))),
            },
        },
    }
}

/// What a provider's badge entitles to: its meta-candies plus their share
/// of the fees accrued since the badge was minted.
pub open spec fn position(e: CandyEntry, b: BadgeEntry, meta_amnt: Decimal) -> Result<Decimal, CandyError> {
    match dec_of(e.accrued_fee@ - b.entry_fee@) {
        None => Err(CandyError::Arithmetic),
        Some(delta) => arith(opt_add(Some(meta_amnt), opt_div(opt_mul(Some(delta), Some(meta_amnt)), Some(e.minted)))),
    }
}

/// Withdrawing the liquidity that `meta_candy` and the badge of
/// `badge_res` stand for, of `candy_addr`: the state after, the candies and
/// the XRD paid out, and whether the badge is used up.
pub open spec fn unstock_spec(
    st: CandyState,
    candy_addr: ResourceAddress,
    meta_candy: Bucket,
    badge_res: ResourceAddress,
    badge_amount: Decimal,
) -> Result<(CandyState, Decimal, Decimal, bool), CandyError> {
    if badge_amount@ < dec_one() {
        Err(CandyError::NoBadge)
    } else {
        match candy_index(st.candies, candy_addr) {
            None => Err(CandyError::UnknownCandy),
            Some(i) => {
                let e = st.candies[i];
                if e.meta_resource != meta_candy.res() {
                    Err(CandyError::MetaMismatch)
                } else {
                    match badge_index(st.badges, badge_res) {
                        None => Err(CandyError::NoBadge),
                        Some(j) => {
                            let b = st.badges[j];
                            if b.candy != candy_addr {
                                Err(CandyError::NoBadge)
                            } else {
                                match position(e, b, meta_candy.amt()) {
                                    Err(err) => Err(err),
                                    Ok(out) => {
                                        let paid = if out@ <= e.vault@ {
                                            if out@ < 0 {
                                                Err(CandyError::InsufficientLiquidity)
                                            } else {
                                                Ok((Decimal((e.vault@ - out@) as i128), out, Decimal(0)))
                                            }
                                        } else if e.vault@ < 0 {
                                            Err(CandyError::InsufficientLiquidity)
                                        } else {
                                            match arith(opt_mul(opt_sub(Some(out), Some(e.vault)), Some(e.price))) {
                                                Err(err) => Err(err),
                                                Ok(xrd_amnt) => if !(0 <= xrd_amnt@ <= st.book.collected_xrd@) {
                                                    Err(CandyError::NotEnoughXrd)
                                                } else {
                                                    Ok((Decimal(0), e.vault, xrd_amnt))
                                                },
                                            }
                                        };
                                        match paid {
                                            Err(err) => Err(err),
                                            Ok((vault, candy_paid, xrd_paid)) => if meta_candy.amt()@ > b.meta_amount@ {
                                                Err(CandyError::TooManyMetaCandies)
                                            } else {
                                                let m = b.meta_amount@ - meta_candy.amt()@;
                                                let candies = st.candies.update(i, CandyEntry { vault, ..e });
                                                let book = XrdBook {
                                                    collected_xrd: Decimal((st.book.collected_xrd@ - xrd_paid@) as i128),
                                                    ..st.book
                                                };
                                                let badges = if m == 0 {
                                                    st.badges.remove(j)
                                                } else {
                                                    st.badges.update(j, BadgeEntry { meta_amount: Decimal(m as i128), ..b })
                                                };
                                                Ok((CandyState { book, candies, badges }, candy_paid, xrd_paid, m == 0))
                                            },
                                        }
                                    },
                                }
                            }
                        },
                    }
                }
            },
        }
    }
}


/// A payout splits what a trade owes into what the trader receives and the
/// fee that accrues to the candy's providers, and takes the first from the
/// reserve.
pub proof fn lemma_candytake_splits(s: Seq<CandyEntry>, out: Decimal, addr: ResourceAddress, fee: Decimal)
    requires
        candytake(s, out, addr, fee) is Ok,
    ensures
        ({
            let (s2, give) = candytake(s, out, addr, fee)->Ok_0;
            let i = candy_index(s, addr)->Some_0;
            &&& give@ + (s2[i].accrued_fee@ - s[i].accrued_fee@) == out@
            &&& s2[i].vault@ == s[i].vault@ - give@
            &&& s2.len() == s.len()
            &&& forall|j: int| 0 <= j < s.len() && j != i ==> s2[j] == s[j]
        }),
{
}

/// Buying candies with candies takes from the input exactly what the quote
/// for that trade says.
pub proof fn lemma_quote_matches_trade(st: CandyState, amnt_in: Decimal, addr_in: ResourceAddress, candy_out: Bucket)
    requires
        buy_exact_candy_sell_candy_spec(st, amnt_in, addr_in, candy_out) is Ok,
    ensures
        candy_sell_amount_becsc(st, amnt_in, addr_in, candy_out.res()) is Ok,
        ({
            let (_, rest, _) = buy_exact_candy_sell_candy_spec(st, amnt_in, addr_in, candy_out)->Ok_0;
            rest@ == candy_out.amt()@ - candy_sell_amount_becsc(st, amnt_in, addr_in, candy_out.res())->Ok_0@
        }),
{
}


/// What a flash swap must bring back: `amnt_in` and its fee, priced in
/// `price_in` over `price_out`, in tokens of `bckt_addr`.
#[derive(Clone, Copy, Debug, PartialEq, Eq, Structural)]
pub struct FlashSwapTerms {
    pub amnt_in: Decimal,
    pub price_in: Decimal,
    pub price_out: Decimal,
    pub bckt_addr: ResourceAddress,
}

/// Lends `amount_in` XRD less the fee, which the protocol keeps.
pub open spec fn xrd_lend(st: CandyState, amount_in: Decimal) -> Result<(CandyState, Decimal), CandyError> {
    match fee_part(amount_in, st.book.fee) {
        Err(e) => Err(e),
        Ok(fp) => match dec_of(amount_in@ - fp@) {
            None => Err(CandyError::Arithmetic),
            Some(out) => match take_xrd(st.book, out) {
                Err(e) => Err(e),
                Ok(book) => match dec_of(st.book.xrd_fee@ + fp@) {
                    None => Err(CandyError::Arithmetic),
                    Some(xf) => Ok((CandyState { book: XrdBook { xrd_fee: xf, ..book }, ..st }, out)),
                },
            },
        },
    }
}

/// Lends `amnt_in` of `addr_in`, grossed up for the fee and paid out less
/// it, against a return in `bckt_addr`: the state after, the amount lent
/// and what must come back.
pub open spec fn flashswap_spec(st: CandyState, amnt_in: Decimal, addr_in: ResourceAddress, bckt_addr: ResourceAddress) -> Result<
    (CandyState, Decimal, FlashSwapTerms),
    CandyError,
> {
    let xrd = st.book.xrd;
    let one = whole(1);
    match adjust_fee(amnt_in, st.book.fee) {
        Err(e) => Err(e),
        Ok(amount_in) => {
            let lent = if addr_in == xrd {
                xrd_lend(st, amount_in)
            } else {
                match candytake(st.candies, amount_in, addr_in, st.book.fee) {
                    Err(e) => Err(e),
                    Ok((s2, give)) => Ok((CandyState { candies: s2, ..st }, give)),
                }
            };
            match lent {
                Err(e) => Err(e),
                Ok((st2, out)) => {
                    let prices = if addr_in == bckt_addr {
                        Ok((one, one))
                    } else if addr_in == xrd {
                        match price_of(st2.candies, bckt_addr) {
                            Err(e) => Err(e),
                            Ok(p) => Ok((one, p)),
                        }
                    } else if bckt_addr == xrd {
                        match price_of(st2.candies, addr_in) {
                            Err(e) => Err(e),
                            Ok(p) => Ok((p, one)),
                        }
                    } else {
                        match (price_of(st2.candies, addr_in), price_of(st2.candies, bckt_addr)) {
                            (Ok(pi), Ok(po)) => Ok((pi, po)),
                            (Err(e), _) => Err(e),
                            (_, Err(e)) => Err(e),
                        }
                    };
                    match prices {
                        Err(e) => Err(e),
                        Ok((pi, po)) => Ok(
                            (st2, out, FlashSwapTerms { amnt_in, price_in: pi, price_out: po, bckt_addr }),
                        ),
                    }
                },
            }
        },
    }
}

/// Settles a flash swap with the tokens in `token_return`: keeps what is
/// owed and gives back the rest.
pub open spec fn flashswap_repay_spec(st: CandyState, token_return: Bucket, terms: FlashSwapTerms) -> Result<
    (CandyState, Decimal),
    CandyError,
> {
    let amount = token_return.amt();
    match fee_part(terms.amnt_in, st.book.fee) {
        Err(e) => Err(e),
        Ok(fp) => match arith(
            opt_div(opt_mul(opt_add(Some(terms.amnt_in), Some(fp)), Some(terms.price_in)), Some(terms.price_out)),
        ) {
            Err(e) => Err(e),
            Ok(nmbr) => match dec_of(amount@ - nmbr@) {
                None => Err(CandyError::Arithmetic),
                Some(back) => if token_return.res() != terms.bckt_addr {
                    Err(CandyError::WrongResource)
                } else if terms.bckt_addr != st.book.xrd {
                    match candy_index(st.candies, terms.bckt_addr) {
                        None => Err(CandyError::UnknownCandy),
                        Some(i) => match dec_of(st.candies[i].vault@ + amount@) {
                            None => Err(CandyError::Arithmetic),
                            Some(v) => if 0 <= back@ <= v@ {
                                Ok(
                                    (
                                        CandyState {
                                            candies: st.candies.update(
                                                i,
                                                CandyEntry { vault: Decimal((v@ - back@) as i128), ..st.candies[i] },
                                            ),
                                            ..st
                                        },
                                        back,
                                    ),
                                )
                            } else {
                                Err(CandyError::InsufficientLiquidity)
                            },
                        },
                    }
                } else {
                    match put_xrd(st.book, token_return) {
                        Err(e) => Err(e),
                        Ok(book) => match take_xrd(book, back) {
                            Err(e) => Err(e),
                            Ok(book2) => Ok((CandyState { book: book2, ..st }, back)),
                        },
                    }
                },
            },
        }
    }
}

fn put_xrd_exec(book: XrdBook, b: Bucket) -> (r: Result<XrdBook, CandyError>)
    ensures
        r == put_xrd(book, b),
{
    if b.resource_address() != book.xrd {
        return Err(CandyError::WrongResource);
    }
    match book.collected_xrd.checked_add(b.amount()) {
        None => Err(CandyError::Arithmetic),
        Some(c) => Ok(XrdBook { collected_xrd: c, ..book }),
    }
}

fn take_xrd_exec(book: XrdBook, amount: Decimal) -> (r: Result<XrdBook, CandyError>)
    ensures
        r == take_xrd(book, amount),
{
    if amount.0 >= 0 && amount.0 <= book.collected_xrd.0 {
        Ok(XrdBook { collected_xrd: Decimal(book.collected_xrd.0 - amount.0), ..book })
    } else {
        Err(CandyError::NotEnoughXrd)
    }
}

/// The candy exchange.
pub struct CandyDex {
    book: XrdBook,
    candies: Vec<CandyEntry>,
    badges: Vec<BadgeEntry>,
    labels: Vec<CandyLabel>,
    owner_badge: ResourceAddress,
    minter_badge: ResourceAddress,
}

impl CandyDex {
    pub closed spec fn state(&self) -> CandyState {
        CandyState { book: self.book, candies: self.candies@, badges: self.badges@ }
    }

    pub closed spec fn label_seq(&self) -> Seq<CandyLabel> {
        self.labels@
    }

    /// The owner badge, which alone sets and claims the protocol fee.
    pub closed spec fn owner(&self) -> ResourceAddress {
        self.owner_badge
    }

    /// No candy or badge appears twice, and each candy has its name and
    /// symbol beside it.
    pub closed spec fn wf(&self) -> bool {
        &&& candies_unique(self.candies@)
        &&& badges_unique(self.badges@)
        &&& self.labels@.len() == self.candies@.len()
        &&& forall|i: int| 0 <= i < self.labels@.len() ==> (#[trigger] self.labels@[i]).candy == self.candies@[i].candy
    }

    /// An exchange charging `fee` percent, whose owner badge, which goes to
    /// the caller, is `owner_badge`; `minter_badge` mints its meta-tokens.
    pub fn new(fee: Decimal, owner_badge: ResourceAddress, minter_badge: ResourceAddress, xrd: ResourceAddress) -> (r: (
        CandyDex,
        Bucket,
    ))
        ensures
            r.0.wf(),
            r.0.state() == (CandyState {
                book: XrdBook { xrd, collected_xrd: Decimal(0), xrd_fee: Decimal(0), xrd_claimed: Decimal(0), fee },
                candies: Seq::empty(),
                badges: Seq::empty(),
            }),
            r.1 == Bucket::spec_new(owner_badge, whole(1)),
    {
        let dex = CandyDex {
            book: XrdBook { xrd, collected_xrd: Decimal(0), xrd_fee: Decimal(0), xrd_claimed: Decimal(0), fee },
            candies: Vec::new(),
            badges: Vec::new(),
            labels: Vec::new(),
            owner_badge,
            minter_badge,
        };
        (dex, Bucket::of(owner_badge, Decimal(1_000_000_000_000_000_000)))
    }

    fn commit(&mut self, book: XrdBook, candies: Vec<CandyEntry>)
        requires
            old(self).wf(),
            candies_unique(candies@),
            candies@.len() == old(self).candies@.len(),
            forall|i: int| 0 <= i < candies@.len() ==> (#[trigger] candies@[i]).candy == old(self).candies@[i].candy,
        ensures
            final(self).wf(),
            final(self).state() == (CandyState { book, candies: candies@, badges: old(self).state().badges }),
            final(self).label_seq() == old(self).label_seq(),
    {
        self.book = book;
        self.candies = candies;
    }

    /// Swaps all the XRD in `xrd_out` for candies of `addr_in`, at least
    /// `min_in` of them before the fee, and gives the candies.
    pub fn buy_candy_sell_exact_xrd(&mut self, min_in: Decimal, addr_in: ResourceAddress, xrd_out: Bucket) -> (r: Result<
        Bucket,
        CandyError,
    >)
        requires
            old(self).wf(),
        ensures
            final(self).wf(),
            final(self).label_seq() == old(self).label_seq(),
            match buy_candy_sell_exact_xrd_spec(old(self).state(), min_in, addr_in, xrd_out) {
                Ok((st, give)) => r == Ok::<Bucket, CandyError>(Bucket::spec_new(addr_in, give)) && final(self).state() == st,
                Err(e) => r == Err::<Bucket, CandyError>(e) && final(self).state() == old(self).state(),
            },
    {
        let book = match put_xrd_exec(self.book, xrd_out) {
            Ok(b) => b,
            Err(e) => return Err(e),
        };
        let mut cs = self.candies.clone();
        let amount_in = match candy_sum_exec(&mut cs, xrd_out.amount(), addr_in, addr_in, 2) {
            Ok(a) => a,
            Err(e) => return Err(e),
        };
        if amount_in.0 < min_in.0 {
            return Err(CandyError::MinNotMet);
        }
        let give = match candytake_exec(&mut cs, amount_in, addr_in, self.book.fee) {
            Ok(g) => g,
            Err(e) => return Err(e),
        };
        self.commit(book, cs);
        Ok(Bucket::of(addr_in, give))
    }

    /// Swaps all the candies in `candy_out` for candies of `addr_in`, at
    /// least `min_in` of them before the fee, and gives the candies.
    pub fn buy_candy_sell_exact_candy(&mut self, min_in: Decimal, addr_in: ResourceAddress, candy_out: Bucket) -> (r: Result<
        Bucket,
        CandyError,
    >)
        requires
            old(self).wf(),
        ensures
            final(self).wf(),
            final(self).label_seq() == old(self).label_seq(),
            match buy_candy_sell_exact_candy_spec(old(self).state(), min_in, addr_in, candy_out) {
                Ok((st, give)) => r == Ok::<Bucket, CandyError>(Bucket::spec_new(addr_in, give)) && final(self).state() == st,
                Err(e) => r == Err::<Bucket, CandyError>(e) && final(self).state() == old(self).state(),
            },
    {
        if addr_in == candy_out.resource_address() {
            return Err(CandyError::SameCandy);
        }
        let mut cs = self.candies.clone();
        let (_, amount_in) = match candyput_pri_exec(
            &mut cs,
            Decimal(0),
            Decimal(1_000_000_000_000_000_000),
            addr_in,
            candy_out,
            self.book.fee,
        ) {
            Ok(x) => x,
            Err(e) => return Err(e),
        };
        if amount_in.0 < min_in.0 {
            return Err(CandyError::MinNotMet);
        }
        let give = match candytake_exec(&mut cs, amount_in, addr_in, self.book.fee) {
            Ok(g) => g,
            Err(e) => return Err(e),
        };
        let book = self.book;
        self.commit(book, cs);
        Ok(Bucket::of(addr_in, give))
    }

    /// Swaps all the candies in `candy_out` for XRD, at least `xrd_min`
    /// before the fee, and gives the XRD.
    pub fn buy_xrd_sell_exact_candy(&mut self, xrd_min: Decimal, candy_out: Bucket) -> (r: Result<Bucket, CandyError>)
        requires
            old(self).wf(),
        ensures
            final(self).wf(),
            final(self).label_seq() == old(self).label_seq(),
            match buy_xrd_sell_exact_candy_spec(old(self).state(), xrd_min, candy_out) {
                Ok((st, out)) => r == Ok::<Bucket, CandyError>(Bucket::spec_new(old(self).state().book.xrd, out))
                    && final(self).state() == st,
                Err(e) => r == Err::<Bucket, CandyError>(e) && final(self).state() == old(self).state(),
            },
    {
        let addr = candy_out.resource_address();
        let fee = self.book.fee;
        let price_out = match price_exec(&self.candies, addr) {
            Ok(p) => p,
            Err(e) => return Err(e),
        };
        let worth = match arith_exec(opt_mul_exec(Some(candy_out.amount()), Some(price_out))) {
            Ok(w) => w,
            Err(e) => return Err(e),
        };
        if worth.0 > self.book.collected_xrd.0 {
            return Err(CandyError::NotEnoughXrd);
        }
        let new_price = match price_mod_exec(&self.candies, candy_out.amount(), addr, price_out, false) {
            Ok(p) => p,
            Err(e) => return Err(e),
        };
        let mut cs = self.candies.clone();
        let i = match find_candy(&cs, addr) {
            Some(i) => i,
            None => return Err(CandyError::UnknownCandy),
        };
        set_price(&mut cs, i, new_price);
        let pp = match arith_exec(opt_mul_exec(Some(new_price), Some(new_price))) {
            Ok(x) => x,
            Err(e) => return Err(e),
        };
        let (nmbr, _) = match candyput_pri_exec(&mut cs, pp, new_price, addr, candy_out, fee) {
            Ok(x) => x,
            Err(e) => return Err(e),
        };
        if nmbr.0 < xrd_min.0 {
            return Err(CandyError::MinNotMet);
        }
        let fp = match fee_part_exec(nmbr, fee) {
            Ok(f) => f,
            Err(e) => return Err(e),
        };
        let (xf, out) = match (self.book.xrd_fee.checked_add(fp), nmbr.checked_sub(fp)) {
            (Some(xf), Some(out)) => (xf, out),
            _ => return Err(CandyError::Arithmetic),
        };
        let book = match take_xrd_exec(self.book, out) {
            Ok(b) => b,
            Err(e) => return Err(e),
        };
        let xrd = self.book.xrd;
        self.commit(XrdBook { xrd_fee: xf, ..book }, cs);
        Ok(Bucket::of(xrd, out))
    }

    /// Buys `nbr_in` candies of `addr_in`, grossed up for the fee, with XRD
    /// out of `xrd_out`; gives the candies and the XRD left.
    pub fn buy_exact_candy_sell_xrd(&mut self, nbr_in: Decimal, addr_in: ResourceAddress, xrd_out: Bucket) -> (r: Result<
        (Bucket, Bucket),
        CandyError,
    >)
        requires
            old(self).wf(),
        ensures
            final(self).wf(),
            final(self).label_seq() == old(self).label_seq(),
            match buy_exact_candy_sell_xrd_spec(old(self).state(), nbr_in, addr_in, xrd_out) {
                Ok((st, give, rest)) => r == Ok::<(Bucket, Bucket), CandyError>(
                    (Bucket::spec_new(addr_in, give), Bucket::spec_new(xrd_out.res(), rest)),
                ) && final(self).state() == st,
                Err(e) => r == Err::<(Bucket, Bucket), CandyError>(e) && final(self).state() == old(self).state(),
            },
    {
        let fee = self.book.fee;
        let amnt_in = match adjust_fee_exec(nbr_in, fee) {
            Ok(a) => a,
            Err(e) => return Err(e),
        };
        let mut cs = self.candies.clone();
        let x = match candy_sum_exec(&mut cs, amnt_in, addr_in, addr_in, 0) {
            Ok(x) => x,
            Err(e) => return Err(e),
        };
        let xrd_amnt = match arith_exec(opt_div_exec(opt_mul_exec(Some(amnt_in), Some(amnt_in)), Some(x))) {
            Ok(a) => a,
            Err(e) => return Err(e),
        };
        let paid = xrd_out.amount();
        if xrd_amnt.0 > paid.0 {
            return Err(CandyError::NotEnoughInput);
        }
        if xrd_amnt.0 < 0 {
            return Err(CandyError::InsufficientLiquidity);
        }
        let book = match put_xrd_exec(self.book, Bucket::of(xrd_out.resource_address(), xrd_amnt)) {
            Ok(b) => b,
            Err(e) => return Err(e),
        };
        let give = match candytake_exec(&mut cs, amnt_in, addr_in, fee) {
            Ok(g) => g,
            Err(e) => return Err(e),
        };
        self.commit(book, cs);
        Ok((Bucket::of(addr_in, give), Bucket::of(xrd_out.resource_address(), Decimal(paid.0 - xrd_amnt.0))))
    }

    /// Buys `amnt_in` candies of `addr_in`, grossed up for the fee, with
    /// candies out of `candy_out`; gives the candies left and those bought.
    pub fn buy_exact_candy_sell_candy(&mut self, amnt_in: Decimal, addr_in: ResourceAddress, candy_out: Bucket) -> (r: Result<
        (Bucket, Bucket),
        CandyError,
    >)
        requires
            old(self).wf(),
        ensures
            final(self).wf(),
            final(self).label_seq() == old(self).label_seq(),
            match buy_exact_candy_sell_candy_spec(old(self).state(), amnt_in, addr_in, candy_out) {
                Ok((st, rest, give)) => r == Ok::<(Bucket, Bucket), CandyError>(
                    (Bucket::spec_new(candy_out.res(), rest), Bucket::spec_new(addr_in, give)),
                ) && final(self).state() == st,
                Err(e) => r == Err::<(Bucket, Bucket), CandyError>(e) && final(self).state() == old(self).state(),
            },
    {
        if addr_in == candy_out.resource_address() {
            return Err(CandyError::SameCandy);
        }
        let fee = self.book.fee;
        let amount_in = match adjust_fee_exec(amnt_in, fee) {
            Ok(a) => a,
            Err(e) => return Err(e),
        };
        let mut cs = self.candies.clone();
        let rest = match candyput_sec_exec(&mut cs, amount_in, addr_in, Decimal(0), Decimal(1_000_000_000_000_000_000), candy_out) {
            Ok(r) => r,
            Err(e) => return Err(e),
        };
        let give = match candytake_exec(&mut cs, amount_in, addr_in, fee) {
            Ok(g) => g,
            Err(e) => return Err(e),
        };
        let book = self.book;
        self.commit(book, cs);
        Ok((Bucket::of(candy_out.resource_address(), rest), Bucket::of(addr_in, give)))
    }

    /// Buys `xrd_in` XRD, grossed up for the fee, with candies out of
    /// `candy_out`; gives the candies left and the XRD.
    pub fn buy_exact_xrd_sell_candy(&mut self, xrd_in: Decimal, candy_out: Bucket) -> (r: Result<(Bucket, Bucket), CandyError>)
        requires
            old(self).wf(),
        ensures
            final(self).wf(),
            final(self).label_seq() == old(self).label_seq(),
            match buy_exact_xrd_sell_candy_spec(old(self).state(), xrd_in, candy_out) {
                Ok((st, rest, out)) => r == Ok::<(Bucket, Bucket), CandyError>(
                    (Bucket::spec_new(candy_out.res(), rest), Bucket::spec_new(old(self).state().book.xrd, out)),
                ) && final(self).state() == st,
                Err(e) => r == Err::<(Bucket, Bucket), CandyError>(e) && final(self).state() == old(self).state(),
            },
    {
        let addr = candy_out.resource_address();
        let fee = self.book.fee;
        let xrd_input = match adjust_fee_exec(xrd_in, fee) {
            Ok(a) => a,
            Err(e) => return Err(e),
        };
        let price_out = match price_exec(&self.candies, addr) {
            Ok(p) => p,
            Err(e) => return Err(e),
        };
        if xrd_in.0 > self.book.collected_xrd.0 {
            return Err(CandyError::NotEnoughXrd);
        }
        let q = match arith_exec(opt_div_exec(Some(xrd_input), Some(price_out))) {
            Ok(q) => q,
            Err(e) => return Err(e),
        };
        let new_price = match price_mod_exec(&self.candies, q, addr, price_out, false) {
            Ok(p) => p,
            Err(e) => return Err(e),
        };
        let mut cs = self.candies.clone();
        let i = match find_candy(&cs, addr) {
            Some(i) => i,
            None => return Err(CandyError::UnknownCandy),
        };
        set_price(&mut cs, i, new_price);
        let fp = match fee_part_exec(xrd_input, fee) {
            Ok(f) => f,
            Err(e) => return Err(e),
        };
        let xf = match self.book.xrd_fee.checked_add(fp) {
            Some(x) => x,
            None => return Err(CandyError::Arithmetic),
        };
        let rest = match candyput_sec_exec(&mut cs, xrd_input, addr, Decimal(1_000_000_000_000_000_000), new_price, candy_out) {
            Ok(r) => r,
            Err(e) => return Err(e),
        };
        let out = match xrd_input.checked_sub(fp) {
            Some(o) => o,
            None => return Err(CandyError::Arithmetic),
        };
        let book = match take_xrd_exec(self.book, out) {
            Ok(b) => b,
            Err(e) => return Err(e),
        };
        let xrd = self.book.xrd;
        self.commit(XrdBook { xrd_fee: xf, ..book }, cs);
        Ok((Bucket::of(addr, rest), Bucket::of(xrd, out)))
    }

    /// How many candies of `candy_addr` an exact `xrd_amnt` of XRD buys.
    pub fn get_candy_sell_amount_bexsc(&self, candy_addr: ResourceAddress, xrd_amnt: Decimal) -> (r: Result<Decimal, CandyError>)
        requires
            self.wf(),
        ensures
            r == candy_sell_amount_bexsc(self.state(), candy_addr, xrd_amnt),
    {
        let xrd_amount = match adjust_fee_exec(xrd_amnt, self.book.fee) {
            Ok(a) => a,
            Err(e) => return Err(e),
        };
        let price = match price_exec(&self.candies, candy_addr) {
            Ok(p) => p,
            Err(e) => return Err(e),
        };
        let q = match arith_exec(opt_div_exec(Some(xrd_amount), Some(price))) {
            Ok(q) => q,
            Err(e) => return Err(e),
        };
        let new_price = match price_mod_exec(&self.candies, q, candy_addr, price, false) {
            Ok(p) => p,
            Err(e) => return Err(e),
        };
        arith_exec(opt_div_exec(Some(xrd_amount), Some(new_price)))
    }

    /// How much XRD selling `candy_amnt` candies of `candy_addr` gives.
    pub fn get_xrd_buy_amount_bxsec(&self, candy_addr: ResourceAddress, candy_amnt: Decimal) -> (r: Result<Decimal, CandyError>)
        requires
            self.wf(),
        ensures
            r == xrd_buy_amount_bxsec(self.state(), candy_addr, candy_amnt),
    {
        let price = match price_exec(&self.candies, candy_addr) {
            Ok(p) => p,
            Err(e) => return Err(e),
        };
        let new_price = match price_mod_exec(&self.candies, candy_amnt, candy_addr, price, false) {
            Ok(p) => p,
            Err(e) => return Err(e),
        };
        let v = match arith_exec(opt_mul_exec(Some(candy_amnt), Some(new_price))) {
            Ok(v) => v,
            Err(e) => return Err(e),
        };
        let f = match fee_part_exec(v, self.book.fee) {
            Ok(f) => f,
            Err(e) => return Err(e),
        };
        arith_exec(opt_sub_exec(Some(v), Some(f)))
    }

    /// How many candies of `candy_addr` `xrd_amnt` XRD buys.
    pub fn get_candy_buy_amount_bcsex(&self, candy_addr: ResourceAddress, xrd_amnt: Decimal) -> (r: Result<Decimal, CandyError>)
        requires
            self.wf(),
        ensures
            r == candy_buy_amount_bcsex(self.state(), candy_addr, xrd_amnt),
    {
        let price = match price_exec(&self.candies, candy_addr) {
            Ok(p) => p,
            Err(e) => return Err(e),
        };
        let q = match arith_exec(opt_div_exec(Some(xrd_amnt), Some(price))) {
            Ok(q) => q,
            Err(e) => return Err(e),
        };
        let new_price = match price_mod_exec(&self.candies, q, candy_addr, price, true) {
            Ok(p) => p,
            Err(e) => return Err(e),
        };
        let v = match arith_exec(opt_div_exec(Some(xrd_amnt), Some(new_price))) {
            Ok(v) => v,
            Err(e) => return Err(e),
        };
        let f = match fee_part_exec(v, self.book.fee) {
            Ok(f) => f,
            Err(e) => return Err(e),
        };
        arith_exec(opt_sub_exec(Some(v), Some(f)))
    }

    /// How much XRD buying exactly `candy_amnt` candies of `candy_addr`
    /// costs.
    pub fn get_xrd_sell_amount_becsx(&self, candy_addr: ResourceAddress, candy_amnt: Decimal) -> (r: Result<Decimal, CandyError>)
        requires
            self.wf(),
        ensures
            r == xrd_sell_amount_becsx(self.state(), candy_addr, candy_amnt),
    {
        let candy_amount = match adjust_fee_exec(candy_amnt, self.book.fee) {
            Ok(a) => a,
            Err(e) => return Err(e),
        };
        let price = match price_exec(&self.candies, candy_addr) {
            Ok(p) => p,
            Err(e) => return Err(e),
        };
        let new_price = match price_mod_exec(&self.candies, candy_amount, candy_addr, price, true) {
            Ok(p) => p,
            Err(e) => return Err(e),
        };
        arith_exec(opt_mul_exec(Some(candy_amount), Some(new_price)))
    }

    /// How many candies of `addr_out` buying `amnt_in` of `addr_in` costs.
    pub fn get_candy_sell_amount_becsc(&self, amnt_in: Decimal, addr_in: ResourceAddress, addr_out: ResourceAddress) -> (r:
        Result<Decimal, CandyError>)
        requires
            self.wf(),
        ensures
            r == candy_sell_amount_becsc(self.state(), amnt_in, addr_in, addr_out),
    {
        let amount_in = match adjust_fee_exec(amnt_in, self.book.fee) {
            Ok(a) => a,
            Err(e) => return Err(e),
        };
        let mut cs = self.candies.clone();
        candy_sum_exec(&mut cs, amount_in, addr_in, addr_out, 1)
    }

    /// How many candies of `addr_in` selling `amnt_out` of `addr_out`
    /// fetches.
    pub fn get_candy_buy_amount_bcsec(&self, addr_in: ResourceAddress, amnt_out: Decimal, addr_out: ResourceAddress) -> (r:
        Result<Decimal, CandyError>)
        requires
            self.wf(),
        ensures
            r == candy_buy_amount_bcsec(self.state(), addr_in, amnt_out, addr_out),
    {
        let amount_out = match adjust_fee_exec(amnt_out, self.book.fee) {
            Ok(a) => a,
            Err(e) => return Err(e),
        };
        let mut cs = self.candies.clone();
        let a = match candy_sum_exec(&mut cs, amount_out, addr_out, addr_in, 1) {
            Ok(a) => a,
            Err(e) => return Err(e),
        };
        let f = match fee_part_exec(a, self.book.fee) {
            Ok(f) => f,
            Err(e) => return Err(e),
        };
        arith_exec(opt_sub_exec(Some(a), Some(f)))
    }

    /// Sets the protocol's fee, which lies between zero and one.
    pub fn set_fee(&mut self, auth: Proof, prtcl_fee: Decimal) -> (r: Result<(), CandyError>)
        requires
            old(self).wf(),
        ensures
            !(auth.shows(old(self).owner())) ==> r == Err::<(), CandyError>(CandyError::Unauthorized) && *final(self) == *old(self),
            final(self).wf(),
            final(self).label_seq() == old(self).label_seq(),
            (auth.shows(old(self).owner())) ==> (if 0 <= prtcl_fee@ <= dec_one() {
                r is Ok && final(self).state() == (CandyState {
                    book: XrdBook { fee: prtcl_fee, ..old(self).state().book },
                    ..old(self).state()
                })
            } else {
                r == Err::<(), CandyError>(CandyError::FeeOutOfRange) && final(self).state() == old(self).state()
            }),
    {
        if !auth.check(self.owner_badge) {
            return Err(CandyError::Unauthorized);
        }
        if prtcl_fee.0 < 0 || prtcl_fee.0 > 1_000_000_000_000_000_000 {
            return Err(CandyError::FeeOutOfRange);
        }
        self.book.fee = prtcl_fee;
        Ok(())
    }

    /// Gives the protocol's accrued XRD fee.
    pub fn claim_xrd_fee(&mut self, auth: Proof) -> (r: Result<Bucket, CandyError>)
        requires
            old(self).wf(),
        ensures
            !(auth.shows(old(self).owner())) ==> r == Err::<Bucket, CandyError>(CandyError::Unauthorized) && *final(self) == *old(self),
            final(self).wf(),
            final(self).label_seq() == old(self).label_seq(),
            (auth.shows(old(self).owner())) ==> (({
                let book = old(self).state().book;
                match take_xrd(book, book.xrd_fee) {
                    Err(e) => r == Err::<Bucket, CandyError>(e) && final(self).state() == old(self).state(),
                    Ok(b2) => match dec_of(book.xrd_claimed@ + book.xrd_fee@) {
                        None => r == Err::<Bucket, CandyError>(CandyError::Arithmetic) && final(self).state() == old(
                            self,
                        ).state(),
                        Some(claimed) => r == Ok::<Bucket, CandyError>(Bucket::spec_new(book.xrd, book.xrd_fee))
                            && final(self).state() == (CandyState {
                            book: XrdBook { xrd_fee: Decimal(0), xrd_claimed: claimed, ..b2 },
                            ..old(self).state()
                        }),
                    },
                }
            })),
    {
        if !auth.check(self.owner_badge) {
            return Err(CandyError::Unauthorized);
        }
        let fee = self.book.xrd_fee;
        let b2 = match take_xrd_exec(self.book, fee) {
            Ok(b) => b,
            Err(e) => return Err(e),
        };
        let claimed = match self.book.xrd_claimed.checked_add(fee) {
            Some(c) => c,
            None => return Err(CandyError::Arithmetic),
        };
        self.book = XrdBook { xrd_fee: Decimal(0), xrd_claimed: claimed, ..b2 };
        Ok(Bucket::of(self.book.xrd, fee))
    }

    /// Stocks a new candy, the tokens in `candy`, named `name` and `symbol`,
    /// at `new_price` XRD; gives as many meta-candies of `meta_resource`
    /// and one meta-badge of `badge_resource`, both made for it.
    pub fn stock_candy(
        &mut self,
        candy: Bucket,
        new_price: Decimal,
        name: String,
        symbol: String,
        meta_resource: ResourceAddress,
        badge_resource: ResourceAddress,
    ) -> (r: Result<(Bucket, Bucket), CandyError>)
        requires
            old(self).wf(),
            badge_index(old(self).state().badges, badge_resource) is None,
        ensures
            final(self).wf(),
            r is Err ==> final(self).state() == old(self).state() && final(self).label_seq() == old(self).label_seq(),
            ({
                let st = old(self).state();
                if candy.res() == st.book.xrd {
                    r == Err::<(Bucket, Bucket), CandyError>(CandyError::XrdNotCandy)
                } else if new_price@ <= 0 {
                    r == Err::<(Bucket, Bucket), CandyError>(CandyError::NonPositivePrice)
                } else if candy_index(st.candies, candy.res()) is Some {
                    r == Err::<(Bucket, Bucket), CandyError>(CandyError::CandyExists)
                } else {
                    &&& r == Ok::<(Bucket, Bucket), CandyError>(
                        (Bucket::spec_new(meta_resource, candy.amt()), Bucket::spec_new(badge_resource, whole(1))),
                    )
                    &&& final(self).state() == (CandyState {
                        candies: st.candies.push(
                            CandyEntry {
                                candy: candy.res(),
                                price: new_price,
                                vault: candy.amt(),
                                accrued_fee: Decimal(0),
                                minted: candy.amt(),
                                meta_resource,
                            },
                        ),
                        badges: st.badges.push(
                            BadgeEntry {
                                badge: badge_resource,
                                entry_fee: Decimal(0),
                                meta_amount: candy.amt(),
                                candy: candy.res(),
                            },
                        ),
                        ..st
                    })
                    &&& final(self).label_seq().len() == old(self).label_seq().len() + 1
                    &&& final(self).label_seq().drop_last() == old(self).label_seq()
                    &&& final(self).label_seq().last().name@ == name@
                    &&& final(self).label_seq().last().symbol@ == symbol@
                }
            }),
    {
        let addr = candy.resource_address();
        if addr == self.book.xrd {
            return Err(CandyError::XrdNotCandy);
        }
        if new_price.0 <= 0 {
            return Err(CandyError::NonPositivePrice);
        }
        if find_candy(&self.candies, addr).is_some() {
            return Err(CandyError::CandyExists);
        }
        let amount = candy.amount();
        let ghost cs0 = self.candies@;
        let ghost bs0 = self.badges@;
        let ghost ls0 = self.labels@;
        self.candies.push(
            CandyEntry { candy: addr, price: new_price, vault: amount, accrued_fee: Decimal(0), minted: amount, meta_resource },
        );
        self.badges.push(BadgeEntry { badge: badge_resource, entry_fee: Decimal(0), meta_amount: amount, candy: addr });
        self.labels.push(CandyLabel { candy: addr, name, symbol });
        proof {
            let cs = self.candies@;
            assert forall|a: int, b: int| 0 <= a < b < cs.len() implies (#[trigger] cs[a]).candy != (#[trigger] cs[b]).candy by {
                if b == cs0.len() {
                    assert(cs[a] == cs0[a]);
                    if cs0[a].candy == addr {
                        assert(exists|k: int| 0 <= k < cs0.len() && (#[trigger] cs0[k]).candy == addr);
                    }
                } else {
                    assert(cs[a] == cs0[a] && cs[b] == cs0[b]);
                }
            }
            let bs = self.badges@;
            assert forall|a: int, b: int| 0 <= a < b < bs.len() implies (#[trigger] bs[a]).badge != (#[trigger] bs[b]).badge by {
                if b == bs0.len() {
                    assert(bs[a] == bs0[a]);
                    if bs0[a].badge == badge_resource {
                        assert(exists|k: int| 0 <= k < bs0.len() && (#[trigger] bs0[k]).badge == badge_resource);
                    }
                } else {
                    assert(bs[a] == bs0[a] && bs[b] == bs0[b]);
                }
            }
            let ls = self.labels@;
            assert(ls.drop_last() =~= ls0);
            assert forall|a: int| 0 <= a < ls.len() implies (#[trigger] ls[a]).candy == cs[a].candy by {
                if a < ls0.len() {
                    assert(ls[a] == ls0[a] && cs[a] == cs0[a]);
                }
            }
        }
        Ok((Bucket::of(meta_resource, amount), Bucket::of(badge_resource, Decimal(1_000_000_000_000_000_000))))
    }

    /// Adds the tokens in `candy` to the reserve of their stocked candy;
    /// gives as many meta-candies and one meta-badge of `badge_resource`,
    /// made for it, that records the fees accrued so far.
    pub fn restock_candy(&mut self, candy: Bucket, badge_resource: ResourceAddress) -> (r: Result<(Bucket, Bucket), CandyError>)
        requires
            old(self).wf(),
            badge_index(old(self).state().badges, badge_resource) is None,
        ensures
            final(self).wf(),
            final(self).label_seq() == old(self).label_seq(),
            r is Err ==> final(self).state() == old(self).state(),
            ({
                let st = old(self).state();
                if candy.res() == st.book.xrd {
                    r == Err::<(Bucket, Bucket), CandyError>(CandyError::XrdNotCandy)
                } else {
                    match candy_index(st.candies, candy.res()) {
                        None => r == Err::<(Bucket, Bucket), CandyError>(CandyError::UnknownCandy),
                        Some(i) => {
                            let e = st.candies[i];
                            match (dec_of(e.vault@ + candy.amt()@), dec_of(e.minted@ + candy.amt()@)) {
                                (Some(v), Some(m)) => {
                                    &&& r == Ok::<(Bucket, Bucket), CandyError>(
                                        (
                                            Bucket::spec_new(e.meta_resource, candy.amt()),
                                            Bucket::spec_new(badge_resource, whole(1)),
                                        ),
                                    )
                                    &&& final(self).state() == (CandyState {
                                        candies: st.candies.update(i, CandyEntry { vault: v, minted: m, ..e }),
                                        badges: st.badges.push(
                                            BadgeEntry {
                                                badge: badge_resource,
                                                entry_fee: e.accrued_fee,
                                                meta_amount: candy.amt(),
                                                candy: candy.res(),
                                            },
                                        ),
                                        ..st
                                    })
                                },
                                _ => r == Err::<(Bucket, Bucket), CandyError>(CandyError::Arithmetic),
                            }
                        },
                    }
                }
            }),
    {
        let addr = candy.resource_address();
        if addr == self.book.xrd {
            return Err(CandyError::XrdNotCandy);
        }
        let i = match find_candy(&self.candies, addr) {
            Some(i) => i,
            None => return Err(CandyError::UnknownCandy),
        };
        let e = self.candies[i];
        let amount = candy.amount();
        let (v, m) = match (e.vault.checked_add(amount), e.minted.checked_add(amount)) {
            (Some(v), Some(m)) => (v, m),
            _ => return Err(CandyError::Arithmetic),
        };
        let ghost cs0 = self.candies@;
        let ghost bs0 = self.badges@;
        self.candies.set(i, CandyEntry { vault: v, minted: m, ..e });
        self.badges.push(BadgeEntry { badge: badge_resource, entry_fee: e.accrued_fee, meta_amount: amount, candy: addr });
        proof {
            let cs = self.candies@;
            assert forall|a: int, b: int| 0 <= a < b < cs.len() implies (#[trigger] cs[a]).candy != (#[trigger] cs[b]).candy by {
                assert(cs0[a].candy != cs0[b].candy);
            }
            let bs = self.badges@;
            assert forall|a: int, b: int| 0 <= a < b < bs.len() implies (#[trigger] bs[a]).badge != (#[trigger] bs[b]).badge by {
                if b == bs0.len() {
                    assert(bs[a] == bs0[a]);
                    if bs0[a].badge == badge_resource {
                        assert(exists|k: int| 0 <= k < bs0.len() && (#[trigger] bs0[k]).badge == badge_resource);
                    }
                } else {
                    assert(bs[a] == bs0[a] && bs[b] == bs0[b]);
                }
            }
            assert forall|a: int| 0 <= a < self.labels@.len() implies (#[trigger] self.labels@[a]).candy == cs[a].candy by {
                assert(self.labels@[a].candy == cs0[a].candy);
            }
        }
        Ok((Bucket::of(e.meta_resource, amount), Bucket::of(badge_resource, Decimal(1_000_000_000_000_000_000))))
    }

    /// Withdraws the liquidity that the meta-candies in `meta_candy` stand
    /// for, of `candy_addr`, with the meta-badge in `meta_badge`: gives the
    /// candies, the XRD that makes up what the reserve lacks, and the badge,
    /// or, once it stands for no meta-candies, an empty XRD bucket.
    pub fn unstock_candy(&mut self, candy_addr: ResourceAddress, meta_candy: Bucket, meta_badge: Bucket) -> (r: Result<
        (Bucket, Bucket, Bucket),
        CandyError,
    >)
        requires
            old(self).wf(),
        ensures
            final(self).wf(),
            final(self).label_seq() == old(self).label_seq(),
            match unstock_spec(old(self).state(), candy_addr, meta_candy, meta_badge.res(), meta_badge.amt()) {
                Err(e) => r == Err::<(Bucket, Bucket, Bucket), CandyError>(e) && final(self).state() == old(self).state(),
                Ok((st, candy_paid, xrd_paid, used_up)) => {
                    &&& final(self).state() == st
                    &&& r == Ok::<(Bucket, Bucket, Bucket), CandyError>(
                        (
                            Bucket::spec_new(candy_addr, candy_paid),
                            Bucket::spec_new(old(self).state().book.xrd, xrd_paid),
                            if used_up {
                                Bucket::spec_new(old(self).state().book.xrd, Decimal(0))
                            } else {
                                meta_badge
                            },
                        ),
                    )
                },
            },
    {
        if meta_badge.amount().0 < 1_000_000_000_000_000_000 {
            return Err(CandyError::NoBadge);
        }
        let i = match find_candy(&self.candies, candy_addr) {
            Some(i) => i,
            None => return Err(CandyError::UnknownCandy),
        };
        let e = self.candies[i];
        if e.meta_resource != meta_candy.resource_address() {
            return Err(CandyError::MetaMismatch);
        }
        let j = match find_badge(&self.badges, meta_badge.resource_address()) {
            Some(j) => j,
            None => return Err(CandyError::NoBadge),
        };
        let b = self.badges[j];
        if b.candy != candy_addr {
            return Err(CandyError::NoBadge);
        }
        let meta_amnt = meta_candy.amount();
        let delta = match e.accrued_fee.checked_sub(b.entry_fee) {
            Some(d) => d,
            None => return Err(CandyError::Arithmetic),
        };
        let out = match arith_exec(
            opt_add_exec(Some(meta_amnt), opt_div_exec(opt_mul_exec(Some(delta), Some(meta_amnt)), Some(e.minted))),
        ) {
            Ok(o) => o,
            Err(err) => return Err(err),
        };
        let (vault, candy_paid, xrd_paid) = if out.0 <= e.vault.0 {
            if out.0 < 0 {
                return Err(CandyError::InsufficientLiquidity);
            }
            (Decimal(e.vault.0 - out.0), out, Decimal(0))
        } else {
            if e.vault.0 < 0 {
                return Err(CandyError::InsufficientLiquidity);
            }
            let xrd_amnt = match arith_exec(opt_mul_exec(opt_sub_exec(Some(out), Some(e.vault)), Some(e.price))) {
                Ok(x) => x,
                Err(err) => return Err(err),
            };
            if xrd_amnt.0 < 0 || xrd_amnt.0 > self.book.collected_xrd.0 {
                return Err(CandyError::NotEnoughXrd);
            }
            (Decimal(0), e.vault, xrd_amnt)
        };
        if meta_amnt.0 > b.meta_amount.0 {
            return Err(CandyError::TooManyMetaCandies);
        }
        let m = b.meta_amount.0 - meta_amnt.0;
        let ghost cs0 = self.candies@;
        let ghost bs0 = self.badges@;
        self.candies.set(i, CandyEntry { vault, ..e });
        self.book.collected_xrd = Decimal(self.book.collected_xrd.0 - xrd_paid.0);
        let used_up = m == 0;
        if used_up {
            self.badges.remove(j);
        } else {
            self.badges.set(j, BadgeEntry { meta_amount: Decimal(m), ..b });
        }
        proof {
            let cs = self.candies@;
            assert forall|a: int, c: int| 0 <= a < c < cs.len() implies (#[trigger] cs[a]).candy != (#[trigger] cs[c]).candy by {
                assert(cs0[a].candy != cs0[c].candy);
            }
            let bs = self.badges@;
            assert forall|a: int, c: int| 0 <= a < c < bs.len() implies (#[trigger] bs[a]).badge != (#[trigger] bs[c]).badge by {
                if used_up {
                    let a0 = if a < j { a } else { a + 1 };
                    let c0 = if c < j { c } else { c + 1 };
                    assert(bs[a] == bs0[a0] && bs[c] == bs0[c0]);
                } else {
                    assert(bs0[a].badge != bs0[c].badge);
                }
            }
            assert forall|a: int| 0 <= a < self.labels@.len() implies (#[trigger] self.labels@[a]).candy == cs[a].candy by {
                assert(self.labels@[a].candy == cs0[a].candy);
            }
        }
        let xrd = self.book.xrd;
        let third = if used_up {
            Bucket::empty(xrd)
        } else {
            meta_badge
        };
        Ok((Bucket::of(candy_addr, candy_paid), Bucket::of(xrd, xrd_paid), third))
    }

    /// What the meta-badge that `meta_badge` proves entitles to: its
    /// meta-candies plus their share of the fees accrued since.
    pub fn stock_position(&self, meta_badge: Proof) -> (r: Result<Decimal, CandyError>)
        requires
            self.wf(),
        ensures
            if meta_badge.amount@ < dec_one() {
                r == Err::<Decimal, CandyError>(CandyError::NoBadge)
            } else {
                match badge_index(self.state().badges, meta_badge.resource) {
                    None => r == Err::<Decimal, CandyError>(CandyError::NoBadge),
                    Some(j) => {
                        let b = self.state().badges[j];
                        match candy_index(self.state().candies, b.candy) {
                            None => r == Err::<Decimal, CandyError>(CandyError::UnknownCandy),
                            Some(i) => r == position(self.state().candies[i], b, b.meta_amount),
                        }
                    },
                }
            },
    {
        if meta_badge.amount.0 < 1_000_000_000_000_000_000 {
            return Err(CandyError::NoBadge);
        }
        let j = match find_badge(&self.badges, meta_badge.resource) {
            Some(j) => j,
            None => return Err(CandyError::NoBadge),
        };
        let b = self.badges[j];
        let i = match find_candy(&self.candies, b.candy) {
            Some(i) => i,
            None => return Err(CandyError::UnknownCandy),
        };
        let e = self.candies[i];
        let delta = match e.accrued_fee.checked_sub(b.entry_fee) {
            Some(d) => d,
            None => return Err(CandyError::Arithmetic),
        };
        arith_exec(opt_add_exec(Some(b.meta_amount), opt_div_exec(opt_mul_exec(Some(delta), Some(b.meta_amount)), Some(e.minted))))
    }

    /// The name, symbol and price of the candy at `candy_addr`, when it is
    /// stocked.
    pub fn get_price(&self, candy_addr: ResourceAddress) -> (r: Result<Option<(String, String, Decimal)>, CandyError>)
        requires
            self.wf(),
        ensures
            candy_addr == self.state().book.xrd ==> r == Err::<Option<(String, String, Decimal)>, CandyError>(
                CandyError::XrdNotCandy,
            ),
            candy_addr != self.state().book.xrd ==> match candy_index(self.state().candies, candy_addr) {
                None => r == Ok::<Option<(String, String, Decimal)>, CandyError>(None),
                Some(i) => r matches Ok(Some((n, s, p))) && n@ == self.label_seq()[i].name@ && s@
                    == self.label_seq()[i].symbol@ && p == self.state().candies[i].price,
            },
    {
        if candy_addr == self.book.xrd {
            return Err(CandyError::XrdNotCandy);
        }
        match find_candy(&self.candies, candy_addr) {
            None => Ok(None),
            Some(i) => Ok(Some((self.labels[i].name.clone(), self.labels[i].symbol.clone(), self.candies[i].price))),
        }
    }

    /// The reserve of the candy at `candy_addr`.
    pub fn get_reserve(&self, candy_addr: ResourceAddress) -> (r: Result<Decimal, CandyError>)
        requires
            self.wf(),
        ensures
            match candy_index(self.state().candies, candy_addr) {
                None => r == Err::<Decimal, CandyError>(CandyError::UnknownCandy),
                Some(i) => r == Ok::<Decimal, CandyError>(self.state().candies[i].vault),
            },
    {
        match find_candy(&self.candies, candy_addr) {
            None => Err(CandyError::UnknownCandy),
            Some(i) => Ok(self.candies[i].vault),
        }
    }

    /// The candies on offer: address, name, symbol and price.
    pub fn menu(&self) -> (r: Vec<(ResourceAddress, String, String, Decimal)>)
        requires
            self.wf(),
        ensures
            r@.len() == self.state().candies.len(),
            forall|i: int|
                0 <= i < r@.len() ==> (#[trigger] r@[i]).0 == self.state().candies[i].candy && r@[i].1@
                    == self.label_seq()[i].name@ && r@[i].2@ == self.label_seq()[i].symbol@ && r@[i].3
                    == self.state().candies[i].price,
    {
        let mut r: Vec<(ResourceAddress, String, String, Decimal)> = Vec::new();
        let mut i: usize = 0;
        while i < self.candies.len()
            invariant
                self.wf(),
                i <= self.candies@.len(),
                r@.len() == i,
                forall|j: int|
                    0 <= j < i ==> (#[trigger] r@[j]).0 == self.candies@[j].candy && r@[j].1@ == self.labels@[j].name@
                        && r@[j].2@ == self.labels@[j].symbol@ && r@[j].3 == self.candies@[j].price,
            decreases self.candies@.len() - i,
        {
            r.push((self.candies[i].candy, self.labels[i].name.clone(), self.labels[i].symbol.clone(), self.candies[i].price));
            i = i + 1;
        }
        r
    }

    /// Lends `amnt_in` of `addr_in`, grossed up for the fee and paid out less
    /// it, to be brought back in `bckt_addr` through `flashswap_repay` in
    /// the same transaction; gives the loan and its terms.
    pub fn flashswap(&mut self, amnt_in: Decimal, addr_in: ResourceAddress, bckt_addr: ResourceAddress) -> (r: Result<
        (Bucket, FlashSwapTerms),
        CandyError,
    >)
        requires
            old(self).wf(),
        ensures
            final(self).wf(),
            final(self).label_seq() == old(self).label_seq(),
            match flashswap_spec(old(self).state(), amnt_in, addr_in, bckt_addr) {
                Ok((st, out, terms)) => r == Ok::<(Bucket, FlashSwapTerms), CandyError>(
                    (Bucket::spec_new(addr_in, out), terms),
                ) && final(self).state() == st,
                Err(e) => r == Err::<(Bucket, FlashSwapTerms), CandyError>(e) && final(self).state() == old(self).state(),
            },
    {
        let xrd = self.book.xrd;
        let fee = self.book.fee;
        let one = Decimal(1_000_000_000_000_000_000);
        let amount_in = match adjust_fee_exec(amnt_in, fee) {
            Ok(a) => a,
            Err(e) => return Err(e),
        };
        let mut cs = self.candies.clone();
        let mut book = self.book;
        let out = if addr_in == xrd {
            let fp = match fee_part_exec(amount_in, fee) {
                Ok(f) => f,
                Err(e) => return Err(e),
            };
            let out = match amount_in.checked_sub(fp) {
                Some(o) => o,
                None => return Err(CandyError::Arithmetic),
            };
            let b2 = match take_xrd_exec(book, out) {
                Ok(b) => b,
                Err(e) => return Err(e),
            };
            let xf = match book.xrd_fee.checked_add(fp) {
                Some(x) => x,
                None => return Err(CandyError::Arithmetic),
            };
            book = XrdBook { xrd_fee: xf, ..b2 };
            out
        } else {
            match candytake_exec(&mut cs, amount_in, addr_in, fee) {
                Ok(g) => g,
                Err(e) => return Err(e),
            }
        };
        let (pi, po) = if addr_in == bckt_addr {
            (one, one)
        } else if addr_in == xrd {
            match price_exec(&cs, bckt_addr) {
                Ok(p) => (one, p),
                Err(e) => return Err(e),
            }
        } else if bckt_addr == xrd {
            match price_exec(&cs, addr_in) {
                Ok(p) => (p, one),
                Err(e) => return Err(e),
            }
        } else {
            match (price_exec(&cs, addr_in), price_exec(&cs, bckt_addr)) {
                (Ok(p1), Ok(p2)) => (p1, p2),
                (Err(e), _) => return Err(e),
                (_, Err(e)) => return Err(e),
            }
        };
        self.commit(book, cs);
        Ok((Bucket::of(addr_in, out), FlashSwapTerms { amnt_in, price_in: pi, price_out: po, bckt_addr }))
    }

    /// Settles a flash swap with the tokens in `token_return`: keeps what
    /// `terms` says is owed and gives back the rest.
    pub fn flashswap_repay(&mut self, token_return: Bucket, terms: FlashSwapTerms) -> (r: Result<Bucket, CandyError>)
        requires
            old(self).wf(),
        ensures
            final(self).wf(),
            final(self).label_seq() == old(self).label_seq(),
            match flashswap_repay_spec(old(self).state(), token_return, terms) {
                Ok((st, back)) => r == Ok::<Bucket, CandyError>(Bucket::spec_new(terms.bckt_addr, back))
                    && final(self).state() == st,
                Err(e) => r == Err::<Bucket, CandyError>(e) && final(self).state() == old(self).state(),
            },
    {
        let amount = token_return.amount();
        let fp = match fee_part_exec(terms.amnt_in, self.book.fee) {
            Ok(f) => f,
            Err(e) => return Err(e),
        };
        let nmbr = match arith_exec(
            opt_div_exec(opt_mul_exec(opt_add_exec(Some(terms.amnt_in), Some(fp)), Some(terms.price_in)), Some(terms.price_out)),
        ) {
            Ok(n) => n,
            Err(e) => return Err(e),
        };
        let back = match amount.checked_sub(nmbr) {
            Some(b) => b,
            None => return Err(CandyError::Arithmetic),
        };
        if token_return.resource_address() != terms.bckt_addr {
            return Err(CandyError::WrongResource);
        }
        if terms.bckt_addr != self.book.xrd {
            let mut cs = self.candies.clone();
            let i = match find_candy(&cs, terms.bckt_addr) {
                Some(i) => i,
                None => return Err(CandyError::UnknownCandy),
            };
            let e = cs[i];
            let v = match e.vault.checked_add(amount) {
                Some(v) => v,
                None => return Err(CandyError::Arithmetic),
            };
            if back.0 < 0 || back.0 > v.0 {
                return Err(CandyError::InsufficientLiquidity);
            }
            let ghost cs1 = cs@;
            cs.set(i, CandyEntry { vault: Decimal(v.0 - back.0), ..e });
            proof {
                assert forall|a: int, b: int| 0 <= a < b < cs@.len() implies (#[trigger] cs@[a]).candy
                    != (#[trigger] cs@[b]).candy by {
                    assert(cs1[a].candy != cs1[b].candy);
                }
            }
            let book = self.book;
            self.commit(book, cs);
        } else {
            let book = match put_xrd_exec(self.book, token_return) {
                Ok(b) => b,
                Err(e) => return Err(e),
            };
            let book2 = match take_xrd_exec(book, back) {
                Ok(b) => b,
                Err(e) => return Err(e),
            };
            self.book = book2;
        }
        Ok(Bucket::of(terms.bckt_addr, back))
    }
}

/// Buying an exact number of candies with XRD keeps the payment whole:
/// the XRD handed back plus the XRD the exchange collects make up the
/// bucket paid in, neither part negative.
pub proof fn lemma_buy_exact_candy_conserves_xrd(st: CandyState, nbr_in: Decimal, addr_in: ResourceAddress, xrd_out: Bucket)
    requires
        buy_exact_candy_sell_xrd_spec(st, nbr_in, addr_in, xrd_out) is Ok,
    ensures
        ({
            let (st2, _, rest) = buy_exact_candy_sell_xrd_spec(st, nbr_in, addr_in, xrd_out)->Ok_0;
            let charged = st2.book.collected_xrd@ - st.book.collected_xrd@;
            &&& rest@ + charged == xrd_out.amt()@
            &&& rest@ >= 0
            &&& charged >= 0
            &&& xrd_out.res() == st.book.xrd
        }),
{
}

/// Selling a whole XRD bucket for candies: the exchange collects exactly
/// the XRD paid in.
pub proof fn lemma_buy_candy_collects_whole_xrd(st: CandyState, min_in: Decimal, addr_in: ResourceAddress, xrd_out: Bucket)
    requires
        buy_candy_sell_exact_xrd_spec(st, min_in, addr_in, xrd_out) is Ok,
    ensures
        ({
            let (st2, _) = buy_candy_sell_exact_xrd_spec(st, min_in, addr_in, xrd_out)->Ok_0;
            &&& st2.book.collected_xrd@ == st.book.collected_xrd@ + xrd_out.amt()@
            &&& xrd_out.res() == st.book.xrd
        }),
{
}

} // verus!
