//! A trading pair: traders place limit orders, which rest in the order book
//! with their funds held by the pair, and close them to take back what was
//! not traded together with what was.
use vstd::prelude::*;
use crate::bignum::{abs, in_i128, tdiv};
use crate::decimal::{dec_of, dec_one, ddiv, dmul, Decimal};
use crate::orderbook::{
    almost_zero_threshold, best_level, close_limit_order_spec, has_level, is_almost_zero,
    lemma_close_limit_order_inv, lemma_new_limit_order_inv, lemma_not_crossed_remove,
    lemma_remove_key, lemma_rests_has_level, new_limit_order_spec, new_order, not_crossed,
    opposite_side, remove_key, rests, side_for, sorted_levels, LevelView, LimitOrder, OrderBook,
    OrderError, PairModel, Side,
};
use crate::resource::{group_bucket, Bucket, ResourceAddress, ResourceType};

verus! {

broadcast use group_bucket;

/// Refuses a resource that is not fungible.
pub fn assert_is_fungible(resource_type: ResourceType) -> (r: Result<(), OrderError>)
    ensures
        resource_type is NonFungible ==> r == Err::<(), OrderError>(OrderError::NonFungibleResource),
        resource_type is Fungible ==> r == Ok::<(), OrderError>(()),
{
    match resource_type {
        ResourceType::Fungible { .. } => Ok(()),
        ResourceType::NonFungible => Err(OrderError::NonFungibleResource),
    }
}

/// A market order between two matching steps: the pair, what is left of
/// the order's funds, what it has received so far (nothing before its first
/// fill) and the price of the last limit order it met.
pub ghost struct MarketState {
    pub m: PairModel,
    pub funds: Decimal,
    pub received: Option<Decimal>,
    pub last_price: Decimal,
}

/// The quantity of a limit order on side `ls` that `funds` can pay for at
/// `price`: the funds over the price for an ask, times it for a bid.
pub open spec fn supplied_quantity(ls: Side, funds: Decimal, price: Decimal) -> Option<Decimal> {
    match ls {
        Side::Ask => if price@ == 0 {
            None
        } else {
            dec_of(ddiv(funds@, price@))
        },
        Side::Bid => dec_of(dmul(funds@, price@)),
    }
}

/// What filling `fill` of a limit order on side `ls` at `price` costs the
/// market order: the fill times the price for an ask, over it for a bid.
pub open spec fn fill_cost(ls: Side, fill: int, price: Decimal) -> Option<Decimal> {
    match ls {
        Side::Ask => dec_of(dmul(fill, price@)),
        Side::Bid => if price@ == 0 {
            None
        } else {
            dec_of(ddiv(fill, price@))
        },
    }
}

/// The smaller of two integers.
pub open spec fn min_int(a: int, b: int) -> int {
    if a <= b {
        a
    } else {
        b
    }
}

/// The pair after the best limit order, at position `i`, is filled by
/// `fill` for `pay`: the market order's funds go to the vault of the limit
/// order's side's counterpart, and the fill leaves the other vault. `None`
/// when a vault overflows or holds too little.
pub open spec fn settle(m: PairModel, ls: Side, i: int, fill: int, pay: int) -> Option<PairModel> {
    let o = m.orders[i];
    let o2 = LimitOrder { quantity_filled: Decimal((o.quantity_filled@ + fill) as i128), ..o };
    let lv = if o2.quantity_filled@ == o2.quantity@ {
        remove_key(m.side_lv(ls), o.price@, o.order_key)
    } else {
        m.side_lv(ls)
    };
    let m1 = PairModel { orders: m.orders.update(i, o2), ..m.with_side(ls, lv) };
    match ls {
        Side::Ask => match dec_of(m.quote_funds@ + pay) {
            None => None,
            Some(q) => if fill > m.base_funds@ {
                None
            } else {
                Some(PairModel { quote_funds: q, base_funds: Decimal((m.base_funds@ - fill) as i128), ..m1 })
            },
        },
        Side::Bid => match dec_of(m.base_funds@ + pay) {
            None => None,
            Some(b) => if fill > m.quote_funds@ {
                None
            } else {
                Some(PairModel { base_funds: b, quote_funds: Decimal((m.quote_funds@ - fill) as i128), ..m1 })
            },
        },
    }
}

/// Whether the vault that must pay out `fill` holds it.
pub open spec fn payout_covered(m: PairModel, ls: Side, fill: int) -> bool {
    match ls {
        Side::Ask => fill <= m.base_funds@,
        Side::Bid => fill <= m.quote_funds@,
    }
}

/// Whether the vault that takes in `pay` can hold it.
pub open spec fn payin_fits(m: PairModel, ls: Side, pay: int) -> bool {
    match ls {
        Side::Ask => in_i128(m.quote_funds@ + pay),
        Side::Bid => in_i128(m.base_funds@ + pay),
    }
}

/// One matching step of a market order against limit orders of side `ls`:
/// `Ok(None)` when the funds left are as good as zero at the last price,
/// else the state after the best limit order is filled as far as the funds
/// go.
#[verifier::opaque]
pub open spec fn market_step(s: MarketState, ls: Side) -> Result<Option<MarketState>, OrderError> {
    if s.last_price@ == 0 {
        Err(OrderError::Arithmetic)
    } else if s.funds@ < almost_zero_threshold(s.last_price) {
        Ok(None)
    } else {
        match best_level(ls, s.m.side_lv(ls)) {
            None => Err(OrderError::InsufficientLiquidity),
            Some(l) => match s.m.find(l.1[0]) {
                None => Err(OrderError::UnknownOrder),
                Some(i) => {
                    let o = s.m.orders[i];
                    match supplied_quantity(ls, s.funds, o.price) {
                        None => Err(OrderError::Arithmetic),
                        Some(sq) => {
                            let fill = min_int(sq@, o.quantity@ - o.quantity_filled@);
                            match fill_cost(ls, fill, o.price) {
                                None => Err(OrderError::Arithmetic),
                                Some(pay) => if pay@ < 0 || pay@ > s.funds@ {
                                    Err(OrderError::InsufficientFunds)
                                } else if !payin_fits(s.m, ls, pay@) {
                                    Err(OrderError::Arithmetic)
                                } else if !payout_covered(s.m, ls, fill) {
                                    Err(OrderError::InsufficientFunds)
                                } else {
                                    let received = match s.received {
                                        None => Some(Decimal(fill as i128)),
                                        Some(r) => dec_of(r@ + fill),
                                    };
                                    match (received, settle(s.m, ls, i, fill, pay@)) {
                                        (Some(rc), Some(m2)) => if fill == 0 && s.funds@ >= almost_zero_threshold(o.price) {
                                            Err(OrderError::NoProgress)
                                        } else {
                                            Ok(Some(MarketState { m: m2, funds: Decimal((s.funds@ - pay@) as i128), received: Some(rc), last_price: o.price }))
                                        },
                                        _ => Err(OrderError::Arithmetic),
                                    }
                                },
                            }
                        },
                    }
                },
            },
        }
    }
}

/// A market order run for at most `fuel` steps: `None` when it needs more.
pub open spec fn market_run(s: MarketState, ls: Side, fuel: nat) -> Option<Result<MarketState, OrderError>>
    decreases fuel,
{
    if fuel == 0 {
        None
    } else {
        match market_step(s, ls) {
            Err(e) => Some(Err(e)),
            Ok(None) => Some(Ok(s)),
            Ok(Some(s2)) => market_run(s2, ls, (fuel - 1) as nat),
        }
    }
}

/// The market order that `funds` of the pair's resource `resource` opens:
/// its side's opposite is the side of the limit orders it takes.
pub open spec fn market_start(m: PairModel, funds: Bucket) -> MarketState {
    MarketState { m, funds: funds.amt(), received: None, last_price: Decimal(1) }
}

/// Quantities still open in a sequence of orders, summed.
pub open spec fn unfilled_total(s: Seq<LimitOrder>) -> int
    decreases s.len(),
{
    if s.len() == 0 {
        0
    } else {
        unfilled_total(s.drop_last()) + (s.last().quantity@ - s.last().quantity_filled@)
    }
}

proof fn lemma_unfilled_total_update(s: Seq<LimitOrder>, i: int, o: LimitOrder)
    requires
        0 <= i < s.len(),
        o.quantity == s[i].quantity,
    ensures
        unfilled_total(s.update(i, o)) == unfilled_total(s) - (o.quantity_filled@ - s[i].quantity_filled@),
    decreases s.len(),
{
    let t = s.update(i, o);
    if i == s.len() - 1 {
        assert(t.drop_last() =~= s.drop_last());
    } else {
        assert(t.drop_last() =~= s.drop_last().update(i, o));
        lemma_unfilled_total_update(s.drop_last(), i, o);
    }
}

proof fn lemma_unfilled_total_nonneg(s: Seq<LimitOrder>)
    requires
        forall|i: int| 0 <= i < s.len() ==> (#[trigger] s[i]).valid(),
    ensures
        unfilled_total(s) >= 0,
    decreases s.len(),
{
    if s.len() > 0 {
        let d = s.drop_last();
        assert forall|i: int| 0 <= i < d.len() implies (#[trigger] d[i]).valid() by {
            assert(d[i] == s[i]);
        }
        lemma_unfilled_total_nonneg(d);
        assert(s[s.len() - 1].valid());
    }
}

proof fn lemma_tdiv_nonneg(a: int, b: int)
    requires
        a >= 0,
        b > 0,
    ensures
        tdiv(a, b) >= 0,
{
    vstd::arithmetic::div_mod::lemma_div_pos_is_pos(abs(a), abs(b));
}

/// The best order of a side of a pair that keeps its invariant is an order
/// of that side, at the price of the best level, still open.
pub proof fn lemma_best_order(m: PairModel, ls: Side)
    requires
        m.inv(),
        best_level(ls, m.side_lv(ls)) is Some,
    ensures
        ({
            let l = best_level(ls, m.side_lv(ls)).unwrap();
            let key = l.1[0];
            &&& m.find(key) is Some
            &&& m.orders[m.find(key).unwrap()].side == ls
            &&& m.orders[m.find(key).unwrap()].price@ == l.0
            &&& m.orders[m.find(key).unwrap()].order_key == key
            &&& m.orders[m.find(key).unwrap()].valid()
            &&& m.orders[m.find(key).unwrap()].quantity_filled@ < m.orders[m.find(key).unwrap()].quantity@
            &&& rests(m.side_lv(ls), key, l.0)
        }),
{
    let lv = m.side_lv(ls);
    let l = best_level(ls, lv).unwrap();
    let key = l.1[0];
    let li: int = match ls {
        Side::Ask => 0,
        Side::Bid => lv.len() - 1,
    };
    assert(lv[li] == l);
    assert(l.1.len() > 0);
    assert(l.1.contains(key)) by {
        assert(l.1[0] == key);
    }
    assert(rests(lv, key, l.0));
    let j = choose|j: int| 0 <= j < m.orders.len() && (#[trigger] m.orders[j]).order_key == key && m.orders[j].side == ls
        && m.orders[j].price@ == l.0;
    assert(m.find(key) is Some);
    let i = m.find(key).unwrap();
    assert(m.orders[i].order_key == key);
    if j != i {
        if j < i {
            assert(m.orders[j].order_key != m.orders[i].order_key);
        } else {
            assert(m.orders[i].order_key != m.orders[j].order_key);
        }
    }
    assert(m.orders[i].valid());
}

/// A matching step keeps the invariant of the pair, keeps the order's
/// funds non-negative, and fills some quantity, as much as the open
/// quantity of the orders goes down.
pub proof fn lemma_market_step_inv(s: MarketState, ls: Side)
    requires
        s.m.inv(),
        s.funds@ >= 0,
        s.received matches Some(a) ==> a@ >= 0,
        market_step(s, ls) matches Ok(Some(_)),
    ensures
        ({
            let s2 = market_step(s, ls).unwrap().unwrap();
            &&& s2.m.inv()
            &&& s2.funds@ >= 0
            &&& s2.received matches Some(a) && a@ >= 0
            &&& s2.last_price@ > 0
            &&& s2.m.orders.len() == s.m.orders.len()
            &&& unfilled_total(s2.m.orders) <= unfilled_total(s.m.orders)
            &&& unfilled_total(s2.m.orders) == unfilled_total(s.m.orders) ==> s2.funds@ < almost_zero_threshold(s2.last_price)
                && s2.m == s.m && s2.funds == s.funds
        }),
{
    let m = s.m;
    let l = best_level(ls, m.side_lv(ls)).unwrap();
    let key = l.1[0];
    let i = m.find(key).unwrap();
    let o = m.orders[i];
    let sq = supplied_quantity(ls, s.funds, o.price).unwrap();
    let fill = min_int(sq@, o.quantity@ - o.quantity_filled@);
    let pay = fill_cost(ls, fill, o.price).unwrap();
    reveal(market_step);
    let s2 = market_step(s, ls).unwrap().unwrap();
    let m2 = s2.m;
    let lv = m.side_lv(ls);
    lemma_best_order(m, ls);
    assert(o.side == ls && o.price@ == l.0);
    assert(o.valid());
    assert(o.quantity_filled@ < o.quantity@);
    // quantities are not negative
    match ls {
        Side::Ask => {
            lemma_tdiv_nonneg(s.funds@ * dec_one(), o.price@);
        },
        Side::Bid => {
            assert(s.funds@ * o.price@ >= 0) by (nonlinear_arith)
                requires
                    s.funds@ >= 0,
                    o.price@ > 0,
            ;
            lemma_tdiv_nonneg(s.funds@ * o.price@, dec_one());
        },
    }
    assert(fill >= 0);
    let o2 = LimitOrder { quantity_filled: Decimal((o.quantity_filled@ + fill) as i128), ..o };
    assert(o2.valid());
    assert(m2.orders == m.orders.update(i, o2));
    lemma_unfilled_total_update(m.orders, i, o2);
    if o2.quantity_filled@ == o2.quantity@ {
        lemma_rests_has_level(lv, key, o.price@);
        lemma_not_crossed_remove(m, ls, o.price@, key);
        lemma_remove_key(lv, o.price@, key);
    }
    let nlv = if o2.quantity_filled@ == o2.quantity@ {
        remove_key(lv, o.price@, key)
    } else {
        lv
    };
    assert forall|sd: Side| #[trigger] m2.side_lv(sd) == (if sd == ls { nlv } else { m.side_lv(sd) }) by {}
    assert(sorted_levels(m2.asks) && sorted_levels(m2.bids) && not_crossed(m2.asks, m2.bids));
    assert forall|a: int, b: int| 0 <= a < b < m2.orders.len() implies (#[trigger] m2.orders[a]).order_key != (#[trigger] m2.orders[b]).order_key by {
        assert(m.orders[a].order_key != m.orders[b].order_key);
    }
    assert forall|a: int| 0 <= a < m2.orders.len() implies (#[trigger] m2.orders[a]).valid() by {
        if a != i {
            assert(m2.orders[a] == m.orders[a]);
        }
    }
    assert forall|a: int| 0 <= a < m2.orders.len() implies ((#[trigger] m2.orders[a]).quantity_filled@ < m2.orders[a].quantity@
        <==> rests(m2.side_lv(m2.orders[a].side), m2.orders[a].order_key, m2.orders[a].price@)) by {
        if a != i {
            assert(m2.orders[a] == m.orders[a]);
            assert(m.orders[a].order_key != key) by {
                if a < i {
                    assert(m.orders[a].order_key != m.orders[i].order_key);
                } else {
                    assert(m.orders[i].order_key != m.orders[a].order_key);
                }
            }
        }
    }
    assert forall|sd: Side, k: u64, q: int| #[trigger] rests(m2.side_lv(sd), k, q) implies exists|a: int|
        0 <= a < m2.orders.len() && (#[trigger] m2.orders[a]).order_key == k && m2.orders[a].side == sd
            && m2.orders[a].price@ == q by {
        assert(rests(m.side_lv(sd), k, q));
        let a = choose|a: int| 0 <= a < m.orders.len() && (#[trigger] m.orders[a]).order_key == k && m.orders[a].side == sd
            && m.orders[a].price@ == q;
        if a == i {
            assert(m2.orders[i] == o2);
        } else {
            assert(m2.orders[a] == m.orders[a]);
        }
    }
    // the cost is not negative
    match ls {
        Side::Ask => {
            assert(fill * o.price@ >= 0) by (nonlinear_arith)
                requires
                    fill >= 0,
                    o.price@ > 0,
            ;
            lemma_tdiv_nonneg(fill * o.price@, dec_one());
        },
        Side::Bid => {
            lemma_tdiv_nonneg(fill * dec_one(), o.price@);
        },
    }
    assert(m2.base_funds@ >= 0 && m2.quote_funds@ >= 0);
    assert(m2.inv());
    if fill == 0 {
        assert(pay@ == 0) by {
            match ls {
                Side::Ask => {},
                Side::Bid => {},
            }
        }
        assert(o2 == o);
        assert(m.orders.update(i, o) =~= m.orders);
        assert(m2 == m);
    }
}

/// Whether a market order's outcome `r`, and the pair `after` it, are
/// those of the run `run` of a market order paid with `paid` and receiving
/// `other`, starting from the pair `before`.
pub open spec fn market_outcome(
    run: Option<Result<MarketState, OrderError>>,
    r: Result<(Bucket, Option<Bucket>), OrderError>,
    before: PairModel,
    after: PairModel,
    paid: ResourceAddress,
    other: ResourceAddress,
) -> bool {
    match run {
        None => false,
        Some(Err(e)) => r == Err::<(Bucket, Option<Bucket>), OrderError>(e) && after == before,
        Some(Ok(st)) => {
            &&& r == Ok::<(Bucket, Option<Bucket>), OrderError>((
                Bucket::spec_new(paid, st.funds),
                match st.received {
                    None => None,
                    Some(a) => Some(Bucket::spec_new(other, a)),
                },
            ))
            &&& after == st.m
        },
    }
}

/// The resource a market order receives from limit orders of side `ls`:
/// the base resource from asks, the quote resource from bids.
pub open spec fn received_resource(base: ResourceAddress, quote: ResourceAddress, ls: Side) -> ResourceAddress {
    match ls {
        Side::Ask => base,
        Side::Bid => quote,
    }
}

/// A trading pair of a base and a quote resource, such as XRD/rUSD.
pub struct TradingPair {
    base: ResourceAddress,
    quote: ResourceAddress,
    order_book: OrderBook,
    /// The data of every order not yet closed, in the order of placement.
    orders: Vec<LimitOrder>,
    /// What asks have brought in and bids have paid for.
    base_funds: Decimal,
    /// What bids have brought in and asks have been paid.
    quote_funds: Decimal,
}

/// The pair with no order and no funds.
pub open spec fn empty_pair() -> PairModel {
    PairModel {
        asks: Seq::empty(),
        bids: Seq::empty(),
        orders: Seq::empty(),
        base_funds: Decimal(0),
        quote_funds: Decimal(0),
    }
}

impl TradingPair {
    pub closed spec fn model(&self) -> PairModel {
        PairModel {
            asks: self.order_book.asks_lv(),
            bids: self.order_book.bids_lv(),
            orders: self.orders@,
            base_funds: self.base_funds,
            quote_funds: self.quote_funds,
        }
    }

    pub closed spec fn base_resource(&self) -> ResourceAddress {
        self.base
    }

    pub closed spec fn quote_resource(&self) -> ResourceAddress {
        self.quote
    }

    pub closed spec fn wf(&self) -> bool {
        self.order_book.wf() && self.model().inv()
    }

    /// A new pair of `base_resource` priced in `quote_resource`; both must be
    /// fungible.
    pub fn instantiate(
        base_resource: ResourceAddress,
        base_type: ResourceType,
        quote_resource: ResourceAddress,
        quote_type: ResourceType,
    ) -> (r: Result<TradingPair, OrderError>)
        ensures
            base_type is NonFungible || quote_type is NonFungible ==> r == Err::<TradingPair, OrderError>(
                OrderError::NonFungibleResource),
            !(base_type is NonFungible || quote_type is NonFungible) ==> (r matches Ok(p) && p.wf() && p.model()
                == empty_pair() && p.base_resource() == base_resource && p.quote_resource() == quote_resource),
    {
        assert_is_fungible(base_type)?;
        assert_is_fungible(quote_type)?;
        let r = TradingPair {
            base: base_resource,
            quote: quote_resource,
            order_book: OrderBook::new(),
            orders: Vec::new(),
            base_funds: Decimal(0),
            quote_funds: Decimal(0),
        };
        assert(r.model() =~= empty_pair());
        Ok(r)
    }

    /// The side of an order paid with `resource`.
    fn get_order_side(&self, resource: ResourceAddress) -> (r: Option<Side>)
        ensures
            r == side_for(self.base, self.quote, resource),
    {
        if resource == self.base {
            Some(Side::Ask)
        } else if resource == self.quote {
            Some(Side::Bid)
        } else {
            None
        }
    }

    /// The position of the order with key `key`.
    fn find_order(&self, key: u64) -> (r: Option<usize>)
        requires
            self.wf(),
        ensures
            match r {
                Some(i) => i < self.orders@.len() && self.model().find(key) == Some(i as int),
                None => self.model().find(key) is None,
            },
    {
        let ghost m = self.model();
        let mut i: usize = 0;
        while i < self.orders.len()
            invariant
                i <= self.orders@.len(),
                m == self.model(),
                m.inv(),
                forall|j: int| 0 <= j < i ==> (#[trigger] self.orders@[j]).order_key != key,
            decreases self.orders@.len() - i,
        {
            if self.orders[i].order_key == key {
                proof {
                    assert(m.orders[i as int].order_key == key);
                    let c = choose|c: int| 0 <= c < m.orders.len() && (#[trigger] m.orders[c]).order_key == key;
                    if c < i {
                        assert(m.orders[c].order_key != key);
                    } else if c > i {
                        assert(m.orders[i as int].order_key != m.orders[c].order_key);
                    }
                }
                return Some(i);
            }
            i = i + 1;
        }
        proof {
            assert forall|j: int| 0 <= j < m.orders.len() implies (#[trigger] m.orders[j]).order_key != key by {
                assert(m.orders[j] == self.orders@[j]);
            }
        }
        None
    }

    /// Places a limit order with the funds in the bucket: an ask when they
    /// are of the base resource, a bid when they are of the quote resource.
    /// The price is in quote units per base unit on both sides. Returns the
    /// order, which `order_key` names from then on.
    pub fn new_limit_order(&mut self, funds: Bucket, price: Decimal, order_key: u64) -> (r: Result<LimitOrder, OrderError>)
        requires
            old(self).wf(),
        ensures
            final(self).wf(),
            final(self).model().inv(),
            final(self).base_resource() == old(self).base_resource(),
            final(self).quote_resource() == old(self).quote_resource(),
            match new_limit_order_spec(old(self).model(), old(self).base_resource(), old(self).quote_resource(), funds, price, order_key) {
                Ok((m, o)) => r == Ok::<LimitOrder, OrderError>(o) && final(self).model() == m,
                Err(e) => r == Err::<LimitOrder, OrderError>(e) && final(self).model() == old(self).model(),
            },
    {
        let ghost m0 = self.model();
        let side = match self.get_order_side(funds.resource_address()) {
            Some(s) => s,
            None => return Err(OrderError::InvalidResource),
        };
        if price.0 <= 0 {
            return Err(OrderError::NonPositivePrice);
        }
        let amount = funds.amount();
        if amount.0 <= 0 {
            return Err(OrderError::NonPositiveQuantity);
        }
        if !self.order_book.would_rest(side, price) {
            return Err(OrderError::WouldBeMarketOrder);
        }
        let held = match side {
            Side::Ask => self.base_funds,
            Side::Bid => self.quote_funds,
        };
        let total = match held.checked_add(amount) {
            Some(v) => v,
            None => return Err(OrderError::Arithmetic),
        };
        if self.find_order(order_key).is_some() {
            return Err(OrderError::DuplicateOrderKey);
        }
        proof {
            lemma_new_limit_order_inv(m0, self.base, self.quote, funds, price, order_key);
        }
        let order = LimitOrder::new(order_key, side, price, amount);
        let _ = self.order_book.insert_limit_order(&order);
        self.orders.push(order);
        match side {
            Side::Ask => self.base_funds = total,
            Side::Bid => self.quote_funds = total,
        }
        proof {
            let m1 = m0.with_side(side, crate::orderbook::insert_key(m0.side_lv(side), price@, order_key)).with_funds(side, total);
            assert(self.model() =~= PairModel { orders: m0.orders.push(order), ..m1 });
        }
        Ok(order)
    }

    /// Closes an order: takes it off the book when it is not completely
    /// filled, and pays out the refund of its unfilled part and what its
    /// filled part traded for, in this order.
    pub fn close_limit_order(&mut self, order_key: u64) -> (r: Result<(Bucket, Bucket), OrderError>)
        requires
            old(self).wf(),
        ensures
            final(self).wf(),
            final(self).model().inv(),
            final(self).base_resource() == old(self).base_resource(),
            final(self).quote_resource() == old(self).quote_resource(),
            match close_limit_order_spec(old(self).model(), old(self).base_resource(), old(self).quote_resource(), order_key) {
                Ok((m, refund, traded)) => r == Ok::<(Bucket, Bucket), OrderError>((refund, traded)) && final(self).model() == m,
                Err(e) => r == Err::<(Bucket, Bucket), OrderError>(e) && final(self).model() == old(self).model(),
            },
    {
        let ghost m0 = self.model();
        let i = match self.find_order(order_key) {
            Some(i) => i,
            None => return Err(OrderError::UnknownOrder),
        };
        let o = self.orders[i];
        let (refund, traded) = match o.checked_close_amounts() {
            Some(v) => v,
            None => return Err(OrderError::Arithmetic),
        };
        let (own_funds, other_funds, own_res, other_res) = match o.side {
            Side::Ask => (self.base_funds, self.quote_funds, self.base, self.quote),
            Side::Bid => (self.quote_funds, self.base_funds, self.quote, self.base),
        };
        if refund.0 < 0 || own_funds.0 < refund.0 {
            return Err(OrderError::InsufficientFunds);
        }
        if traded.0 < 0 || other_funds.0 < traded.0 {
            return Err(OrderError::InsufficientFunds);
        }
        proof {
            lemma_close_limit_order_inv(m0, self.base, self.quote, order_key);
        }
        if o.quantity_filled.0 < o.quantity.0 {
            proof {
                assert(m0.orders[i as int] == o);
                assert(rests(m0.side_lv(o.side), order_key, o.price@));
                lemma_rests_has_level(m0.side_lv(o.side), order_key, o.price@);
            }
            self.order_book.remove_limit_order(&o);
        }
        self.orders.remove(i);
        match o.side {
            Side::Ask => {
                self.base_funds = Decimal(own_funds.0 - refund.0);
                self.quote_funds = Decimal(other_funds.0 - traded.0);
            },
            Side::Bid => {
                self.quote_funds = Decimal(own_funds.0 - refund.0);
                self.base_funds = Decimal(other_funds.0 - traded.0);
            },
        }
        let b1 = Bucket::of(own_res, refund);
        let b2 = Bucket::of(other_res, traded);
        proof {
            let r = close_limit_order_spec(m0, self.base, self.quote, order_key).unwrap();
            assert(self.model() =~= r.0);
        }
        Ok((b1, b2))
    }
    /// A copy of the pair.
    fn duplicate(&self) -> (r: TradingPair)
        requires
            self.wf(),
        ensures
            r.wf(),
            r.model() == self.model(),
            r.base_resource() == self.base_resource(),
            r.quote_resource() == self.quote_resource(),
    {
        let mut orders: Vec<LimitOrder> = Vec::new();
        let mut i: usize = 0;
        while i < self.orders.len()
            invariant
                i <= self.orders@.len(),
                orders@ == self.orders@.take(i as int),
            decreases self.orders@.len() - i,
        {
            let o = self.orders[i];
            orders.push(o);
            assert(self.orders@.take(i + 1) == self.orders@.take(i as int).push(o));
            i = i + 1;
        }
        assert(self.orders@.take(i as int) == self.orders@);
        let r = TradingPair {
            base: self.base,
            quote: self.quote,
            order_book: self.order_book.duplicate(),
            orders,
            base_funds: self.base_funds,
            quote_funds: self.quote_funds,
        };
        assert(r.model() =~= self.model());
        r
    }

    /// One matching step of a market order whose funds are not yet as good
    /// as zero: fills the best limit order of side `ls` as far as the funds
    /// go. Returns what is left of the funds, what has been received and
    /// the price met. On an error the pair is unchanged.
    fn match_best_order(&mut self, ls: Side, f: Decimal, received: Option<Decimal>, last_price: Decimal) -> (r: Result<
        (Decimal, Decimal, Decimal, bool),
        OrderError,
    >)
        requires
            old(self).wf(),
            f@ >= 0,
            last_price@ > 0,
            received matches Some(a) ==> a@ >= 0,
            !(f@ < almost_zero_threshold(last_price)),
        ensures
            final(self).wf(),
            final(self).base_resource() == old(self).base_resource(),
            final(self).quote_resource() == old(self).quote_resource(),
            match market_step(MarketState { m: old(self).model(), funds: f, received, last_price }, ls) {
                Ok(Some(s2)) => r matches Ok((f2, rc, p, progressed)) && s2 == (MarketState {
                    m: final(self).model(),
                    funds: f2,
                    received: Some(rc),
                    last_price: p,
                }) && (progressed ==> unfilled_total(final(self).orders@) < unfilled_total(old(self).orders@)) && (!progressed
                    ==> f2@ < almost_zero_threshold(p)),
                Err(e) => r == Err::<(Decimal, Decimal, Decimal, bool), OrderError>(e) && final(self).model() == old(self).model(),
                Ok(None) => false,
            },
    {
        let ghost cur = MarketState { m: self.model(), funds: f, received, last_price };
        proof {
            reveal(market_step);
        }
        let key = match self.order_book.get_best_order(ls) {
            Some(k) => k,
            None => return Err(OrderError::InsufficientLiquidity),
        };
        proof {
            lemma_best_order(cur.m, ls);
        }
        let i = match self.find_order(key) {
            Some(i) => i,
            None => return Err(OrderError::UnknownOrder),
        };
        let o = self.orders[i];
        proof {
            assert(self.model().orders[i as int] == o);
            assert(o.valid());
        }
        let supplied = match ls {
            Side::Ask => f.checked_div(o.price),
            Side::Bid => f.checked_mul(o.price),
        };
        let sq = match supplied {
            Some(v) => v,
            None => return Err(OrderError::Arithmetic),
        };
        let unfilled = Decimal(o.quantity.0 - o.quantity_filled.0);
        let fill = if sq.0 <= unfilled.0 { sq } else { unfilled };
        let cost = match ls {
            Side::Ask => fill.checked_mul(o.price),
            Side::Bid => fill.checked_div(o.price),
        };
        let pay = match cost {
            Some(v) => v,
            None => return Err(OrderError::Arithmetic),
        };
        if pay.0 < 0 || pay.0 > f.0 {
            return Err(OrderError::InsufficientFunds);
        }
        let payin = match ls {
            Side::Ask => self.quote_funds.checked_add(pay),
            Side::Bid => self.base_funds.checked_add(pay),
        };
        let new_in = match payin {
            Some(v) => v,
            None => return Err(OrderError::Arithmetic),
        };
        let covered = match ls {
            Side::Ask => fill.0 <= self.base_funds.0,
            Side::Bid => fill.0 <= self.quote_funds.0,
        };
        if !covered {
            return Err(OrderError::InsufficientFunds);
        }
        let received2 = match received {
            None => Some(fill),
            Some(a) => a.checked_add(fill),
        };
        let rc = match received2 {
            Some(v) => v,
            None => return Err(OrderError::Arithmetic),
        };
        if fill.0 == 0 && !is_almost_zero(f, o.price) {
            return Err(OrderError::NoProgress);
        }
        proof {
            lemma_market_step_inv(cur, ls);
        }
        let ghost s2 = market_step(cur, ls).unwrap().unwrap();
        let o2 = LimitOrder { quantity_filled: Decimal(o.quantity_filled.0 + fill.0), ..o };
        proof {
            lemma_unfilled_total_update(self.orders@, i as int, o2);
        }
        self.orders.set(i, o2);
        if o2.quantity_filled.0 == o2.quantity.0 {
            proof {
                assert(o.side == ls);
                assert(rests(cur.m.side_lv(ls), key, o.price@));
                lemma_rests_has_level(cur.m.side_lv(ls), key, o.price@);
            }
            self.order_book.remove_limit_order(&o2);
        }
        match ls {
            Side::Ask => {
                self.quote_funds = new_in;
                self.base_funds = Decimal(self.base_funds.0 - fill.0);
            },
            Side::Bid => {
                self.base_funds = new_in;
                self.quote_funds = Decimal(self.quote_funds.0 - fill.0);
            },
        }
        proof {
            assert(self.model() =~= s2.m);
        }
        Ok((Decimal(f.0 - pay.0), rc, o.price, fill.0 != 0))
    }

    /// Executes a market order with the funds in the bucket against the
    /// limit orders of the other side, best price first and oldest first
    /// at a price, until what is left of the funds is as good as zero at
    /// the last price met. Returns what is left of the funds and what was
    /// received, if any order was met. On any error the pair is unchanged.
    pub fn new_market_order(&mut self, funds: Bucket) -> (r: Result<(Bucket, Option<Bucket>), OrderError>)
        requires
            old(self).wf(),
        ensures
            final(self).wf(),
            final(self).model().inv(),
            final(self).base_resource() == old(self).base_resource(),
            final(self).quote_resource() == old(self).quote_resource(),
            match side_for(old(self).base_resource(), old(self).quote_resource(), funds.res()) {
                None => r == Err::<(Bucket, Option<Bucket>), OrderError>(OrderError::InvalidResource) && final(self).model()
                    == old(self).model(),
                Some(ms) => exists|n: nat|
                    market_outcome(
                        #[trigger] market_run(market_start(old(self).model(), funds), opposite_side(ms), n),
                        r,
                        old(self).model(),
                        final(self).model(),
                        funds.res(),
                        received_resource(old(self).base_resource(), old(self).quote_resource(), opposite_side(ms)),
                    ),
            },
    {
        let ms = match self.get_order_side(funds.resource_address()) {
            Some(s) => s,
            None => return Err(OrderError::InvalidResource),
        };
        let ls = ms.opposite();
        let paid_res = funds.resource_address();
        let other_res = match ls {
            Side::Ask => self.base,
            Side::Bid => self.quote,
        };
        let saved = self.duplicate();
        let ghost m0 = self.model();
        let ghost b0 = self.base_resource();
        let ghost q0 = self.quote_resource();
        let ghost s0 = market_start(m0, funds);
        let mut f = funds.amount();
        let mut received: Option<Decimal> = None;
        let mut last_price = Decimal(1);
        let ghost mut steps: nat = 0;
        loop
            invariant
                self.wf(),
                saved.wf(),
                saved.model() == m0,
                m0 == old(self).model(),
                b0 == old(self).base_resource(),
                q0 == old(self).quote_resource(),
                saved.base_resource() == b0,
                saved.quote_resource() == q0,
                self.base_resource() == b0,
                self.quote_resource() == q0,
                ls == opposite_side(ms),
                Some(ms) == side_for(b0, q0, funds.res()),
                paid_res == funds.res(),
                other_res == received_resource(b0, q0, ls),
                s0 == market_start(m0, funds),
                f@ >= 0,
                last_price@ > 0,
                received matches Some(a) ==> a@ >= 0,
                forall|n: nat| n >= steps ==> #[trigger] market_run(s0, ls, n) == market_run(
                    MarketState { m: self.model(), funds: f, received, last_price },
                    ls,
                    (n - steps) as nat,
                ),
            decreases unfilled_total(self.orders@),
        {
            let ghost cur = MarketState { m: self.model(), funds: f, received, last_price };
            proof {
                lemma_unfilled_total_nonneg(self.orders@);
            }
            if is_almost_zero(f, last_price) {
                proof {
                    assert(market_step(cur, ls) == Ok::<Option<MarketState>, OrderError>(None)) by {
                        reveal(market_step);
                    }
                    assert(market_run(s0, ls, steps + 1) == market_run(cur, ls, 1));
                }
                let rec = match received {
                    Some(a) => Some(Bucket::of(other_res, a)),
                    None => None,
                };
                return Ok((Bucket::of(paid_res, f), rec));
            }
            let ghost before = unfilled_total(self.orders@);
            match self.match_best_order(ls, f, received, last_price) {
                Err(e) => {
                    proof {
                        assert(market_run(s0, ls, steps + 1) == market_run(cur, ls, 1));
                    }
                    *self = saved;
                    return Err(e);
                },
                Ok((f2, rc, p, progressed)) => {
                    proof {
                        lemma_market_step_inv(cur, ls);
                        assert forall|n: nat| n >= steps + 1 implies #[trigger] market_run(s0, ls, n) == market_run(
                            MarketState { m: self.model(), funds: f2, received: Some(rc), last_price: p },
                            ls,
                            (n - (steps + 1)) as nat,
                        ) by {
                            assert(market_run(s0, ls, n) == market_run(cur, ls, (n - steps) as nat));
                        }
                        steps = steps + 1;
                    }
                    f = f2;
                    received = Some(rc);
                    last_price = p;
                    proof {
                        lemma_unfilled_total_nonneg(self.orders@);
                        assert(progressed ==> unfilled_total(self.orders@) < before);
                    }
                    if !progressed {
                        proof {
                            let s3 = MarketState { m: self.model(), funds: f, received, last_price };
                            assert(market_step(s3, ls) == Ok::<Option<MarketState>, OrderError>(None)) by {
                                reveal(market_step);
                            }
                            assert(market_run(s0, ls, steps + 1) == market_run(s3, ls, 1));
                        }
                        return Ok((Bucket::of(paid_res, f), Some(Bucket::of(other_res, rc))));
                    }
                },
            }
        }
    }
}

} // verus!
