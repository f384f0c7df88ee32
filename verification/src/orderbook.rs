//! A limit order book for one trading pair: limit orders rest at price
//! levels on the ask and bid sides, the two sides never cross, and a market
//! order takes the best-priced orders of the other side until its funds are
//! spent.
use vstd::prelude::*;
use crate::decimal::{dec_of, dec_one, ddiv, dmul, opt_add, opt_div, opt_mul, Decimal};
use crate::resource::{Bucket, ResourceAddress};

verus! {

/// The side of the book an order rests on. An ask offers the base resource
/// for the quote resource; a bid offers the quote resource for the base.
#[derive(Clone, Copy, Debug, PartialEq, Eq, Structural)]
pub enum Side {
    Ask,
    Bid,
}

pub open spec fn opposite_side(s: Side) -> Side {
    match s {
        Side::Ask => Side::Bid,
        Side::Bid => Side::Ask,
    }
}

impl Side {
    pub fn opposite(&self) -> (r: Side)
        ensures
            r == opposite_side(*self),
    {
        match self {
            Side::Ask => Side::Bid,
            Side::Bid => Side::Ask,
        }
    }
}

/// A limit order: `quantity` of the resource offered at `price` quote units
/// per base unit, of which `quantity_filled` has been traded.
#[derive(Clone, Copy, Debug, PartialEq, Eq, Structural)]
pub struct LimitOrder {
    pub order_key: u64,
    pub side: Side,
    pub price: Decimal,
    pub quantity: Decimal,
    pub quantity_filled: Decimal,
}

/// What closing an order pays out: the unfilled quantity back, and what the
/// filled quantity traded for.
pub open spec fn close_amounts(o: LimitOrder) -> Option<(Decimal, Decimal)> {
    let refund = dec_of(o.quantity@ - o.quantity_filled@);
    let traded = match o.side {
        Side::Ask => dec_of(dmul(o.quantity_filled@, o.price@)),
        Side::Bid => if o.price@ == 0 {
            None
        } else {
            dec_of(ddiv(o.quantity_filled@, o.price@))
        },
    };
    match (refund, traded) {
        (Some(a), Some(b)) => Some((a, b)),
        _ => None,
    }
}

impl LimitOrder {
    /// A positive price, a positive quantity, and a filled part between zero
    /// and the quantity.
    pub open spec fn valid(&self) -> bool {
        &&& self.price@ > 0
        &&& self.quantity@ > 0
        &&& 0 <= self.quantity_filled@ <= self.quantity@
    }

    /// A new, unfilled order.
    pub fn new(order_key: u64, side: Side, price: Decimal, quantity: Decimal) -> (r: LimitOrder)
        requires
            price@ > 0,
            quantity@ > 0,
        ensures
            r == (LimitOrder { order_key, side, price, quantity, quantity_filled: Decimal(0) }),
            r.valid(),
    {
        LimitOrder { order_key, side, price, quantity, quantity_filled: Decimal(0) }
    }

    /// Fills `quantity` more of the order.
    pub fn fill(&mut self, quantity: Decimal)
        requires
            quantity@ <= old(self).quantity@ - old(self).quantity_filled@,
            dec_of(old(self).quantity@ - old(self).quantity_filled@) is Some,
            dec_of(old(self).quantity_filled@ + quantity@) is Some,
        ensures
            *final(self) == (LimitOrder {
                quantity_filled: Decimal((old(self).quantity_filled@ + quantity@) as i128),
                ..*old(self)
            }),
    {
        self.quantity_filled = Decimal(self.quantity_filled.0 + quantity.0);
    }

    /// The refund and the traded amount of the order, when they fit.
    pub fn checked_close_amounts(&self) -> (r: Option<(Decimal, Decimal)>)
        ensures
            r == close_amounts(*self),
    {
        let refund = match self.quantity.checked_sub(self.quantity_filled) {
            Some(v) => v,
            None => return None,
        };
        let traded = match self.side {
            Side::Ask => self.quantity_filled.checked_mul(self.price),
            Side::Bid => self.quantity_filled.checked_div(self.price),
        };
        match traded {
            Some(t) => Some((refund, t)),
            None => None,
        }
    }

    /// The refund (the unfilled quantity) and the traded amount (the filled
    /// quantity times the price for an ask, divided by it for a bid).
    pub fn calculate_close_amounts(&self) -> (r: (Decimal, Decimal))
        requires
            close_amounts(*self) is Some,
        ensures
            Some(r) == close_amounts(*self),
    {
        match self.checked_close_amounts() {
            Some(v) => v,
            None => (Decimal(0), Decimal(0)),
        }
    }
}

/// The threshold below which an amount cannot fill anything at `price`:
/// the smallest unit times the price, or times its inverse below one.
pub open spec fn almost_zero_threshold(price: Decimal) -> int {
    let eps = if price@ >= dec_one() {
        price@
    } else {
        ddiv(dec_one(), price@)
    };
    dmul(1, eps)
}

/// Whether `amount` is as good as zero at `price`.
pub fn is_almost_zero(amount: Decimal, price: Decimal) -> (r: bool)
    requires
        price@ != 0,
    ensures
        r == (amount@ < almost_zero_threshold(price)),
{
    let eps = if price.0 >= Decimal::one().0 {
        price
    } else {
        match Decimal::one().checked_div(price) {
            Some(v) => v,
            None => {
                proof {
                    lemma_inverse_fits(price@);
                }
                Decimal(0)
            },
        }
    };
    let eps = match Decimal(1).checked_mul(eps) {
        Some(v) => v,
        None => {
            proof {
                lemma_unit_product_fits(eps@);
            }
            Decimal(0)
        },
    };
    amount.0 < eps.0
}

proof fn lemma_inverse_fits(p: int)
    requires
        p != 0,
        -0x8000_0000_0000_0000_0000_0000_0000_0000 <= p < 0x8000_0000_0000_0000_0000_0000_0000_0000,
    ensures
        dec_of(ddiv(dec_one(), p)) is Some,
{
    let n = dec_one() * dec_one();
    let q = crate::bignum::abs(n) / crate::bignum::abs(p);
    vstd::arithmetic::div_mod::lemma_div_is_ordered_by_denominator(n, 1, crate::bignum::abs(p));
    vstd::arithmetic::div_mod::lemma_div_pos_is_pos(n, crate::bignum::abs(p));
}

proof fn lemma_unit_product_fits(e: int)
    requires
        -0x8000_0000_0000_0000_0000_0000_0000_0000 <= e < 0x8000_0000_0000_0000_0000_0000_0000_0000,
    ensures
        dec_of(dmul(1, e)) is Some,
{
    let q = crate::bignum::abs(e) / dec_one();
    vstd::arithmetic::div_mod::lemma_div_is_ordered(crate::bignum::abs(e), 0x8000_0000_0000_0000_0000_0000_0000_0000, dec_one());
    vstd::arithmetic::div_mod::lemma_div_pos_is_pos(crate::bignum::abs(e), dec_one());
}


/// The orders resting at one price.
pub struct PriceLevel {
    pub price: Decimal,
    pub orders: Vec<u64>,
}

/// A price level as its price and its order keys in time order.
pub type LevelView = (int, Seq<u64>);

pub open spec fn level_view(l: PriceLevel) -> LevelView {
    (l.price@, l.orders@)
}

/// Price levels in strictly increasing order of price, none empty.
pub open spec fn sorted_levels(s: Seq<LevelView>) -> bool {
    &&& forall|i: int, j: int| 0 <= i < j < s.len() ==> (#[trigger] s[i]).0 < (#[trigger] s[j]).0
    &&& forall|i: int| 0 <= i < s.len() ==> (#[trigger] s[i]).1.len() > 0
}

/// The number of levels priced below `p`: the position of `p` in the order.
pub open spec fn count_below(s: Seq<LevelView>, p: int) -> int
    decreases s.len(),
{
    if s.len() == 0 {
        0
    } else if s.last().0 < p {
        s.len() as int
    } else {
        count_below(s.drop_last(), p)
    }
}

/// Whether some level is priced `p`.
pub open spec fn has_level(s: Seq<LevelView>, p: int) -> bool {
    count_below(s, p) < s.len() && s[count_below(s, p)].0 == p
}

/// The levels after `k` joins the level priced `p`, which is created when
/// missing.
pub open spec fn insert_key(s: Seq<LevelView>, p: int, k: u64) -> Seq<LevelView> {
    let i = count_below(s, p);
    if has_level(s, p) {
        s.update(i, (p, s[i].1.push(k)))
    } else {
        s.insert(i, (p, seq![k]))
    }
}

/// `s` without any occurrence of `k`, in the same order.
pub open spec fn without(s: Seq<u64>, k: u64) -> Seq<u64>
    decreases s.len(),
{
    if s.len() == 0 {
        s
    } else if s.last() == k {
        without(s.drop_last(), k)
    } else {
        without(s.drop_last(), k).push(s.last())
    }
}

/// The levels after `k` leaves the level priced `p`, which is dropped when
/// it becomes empty.
pub open spec fn remove_key(s: Seq<LevelView>, p: int, k: u64) -> Seq<LevelView> {
    let i = count_below(s, p);
    let f = without(s[i].1, k);
    if f.len() == 0 {
        s.remove(i)
    } else {
        s.update(i, (p, f))
    }
}

/// The best level of a side: the lowest ask or the highest bid.
pub open spec fn best_level(side: Side, s: Seq<LevelView>) -> Option<LevelView> {
    if s.len() == 0 {
        None
    } else {
        match side {
            Side::Ask => Some(s[0]),
            Side::Bid => Some(s.last()),
        }
    }
}

/// The count of levels below `p` is the first position priced at least `p`.
pub proof fn lemma_count_below(s: Seq<LevelView>, p: int, i: int)
    requires
        sorted_levels(s),
        0 <= i <= s.len(),
        forall|j: int| 0 <= j < i ==> (#[trigger] s[j]).0 < p,
        i < s.len() ==> s[i].0 >= p,
    ensures
        count_below(s, p) == i,
    decreases s.len(),
{
    if s.len() > 0 {
        if i < s.len() {
            if i < s.len() - 1 {
                assert(s[i].0 < s[s.len() - 1].0);
            }
            let d = s.drop_last();
            assert(sorted_levels(d));
            lemma_count_below(d, p, i);
        }
    }
}

/// Keeps the levels sorted and reports, for every key and price, whether
/// the key rests at that price after an insertion.
pub proof fn lemma_insert_key(s: Seq<LevelView>, p: int, k: u64)
    requires
        sorted_levels(s),
    ensures
        sorted_levels(insert_key(s, p, k)),
        has_level(insert_key(s, p, k), p),
        forall|q: int, k2: u64| #[trigger] rests(insert_key(s, p, k), k2, q) <==> (rests(s, k2, q) || (k2 == k && q == p)),
{
    let i = count_below(s, p);
    lemma_count_below_props(s, p);
    let t = insert_key(s, p, k);
    if has_level(s, p) {
        assert forall|a: int, b: int| 0 <= a < b < t.len() implies (#[trigger] t[a]).0 < (#[trigger] t[b]).0 by {
            assert(s[a].0 < s[b].0);
        }
        lemma_count_below(t, p, i);
        assert forall|q: int, k2: u64| #[trigger] rests(t, k2, q) <==> (rests(s, k2, q) || (k2 == k && q == p)) by {
            if rests(t, k2, q) {
                let j = choose|j: int| 0 <= j < t.len() && t[j].0 == q && t[j].1.contains(k2);
                if j != i {
                    assert(rests(s, k2, q));
                } else if k2 != k {
                    let m = choose|m: int| 0 <= m < t[j].1.len() && t[j].1[m] == k2;
                    assert(s[i].1[m] == k2);
                    assert(rests(s, k2, q));
                }
            }
            if rests(s, k2, q) {
                let j = choose|j: int| 0 <= j < s.len() && s[j].0 == q && s[j].1.contains(k2);
                if j == i {
                    let m = choose|m: int| 0 <= m < s[j].1.len() && s[j].1[m] == k2;
                    assert(t[j].1[m] == k2);
                }
                assert(t[j].1.contains(k2));
            }
            if k2 == k && q == p {
                assert(t[i].1[t[i].1.len() - 1] == k);
                assert(t[i].1.contains(k));
            }
        }
    } else {
        assert forall|a: int, b: int| 0 <= a < b < t.len() implies (#[trigger] t[a]).0 < (#[trigger] t[b]).0 by {
            if b < i {
                assert(s[a].0 < s[b].0);
            } else if a < i && b == i {
            } else if a < i {
                assert(s[a].0 < s[b - 1].0 || a == b - 1);
            } else if a == i {
                assert(s[b - 1].0 >= p);
                assert(s[b - 1].0 != p || b - 1 == i) by {
                    if b - 1 > i {
                        assert(s[i].0 < s[b - 1].0);
                    }
                }
            } else {
                assert(s[a - 1].0 < s[b - 1].0);
            }
        }
        assert forall|a: int| 0 <= a < t.len() implies (#[trigger] t[a]).1.len() > 0 by {
            if a < i {
                assert(t[a] == s[a]);
            } else if a > i {
                assert(t[a] == s[a - 1]);
            }
        }
        lemma_count_below(t, p, i);
        assert forall|q: int, k2: u64| #[trigger] rests(t, k2, q) <==> (rests(s, k2, q) || (k2 == k && q == p)) by {
            if rests(t, k2, q) {
                let j = choose|j: int| 0 <= j < t.len() && t[j].0 == q && t[j].1.contains(k2);
                if j < i {
                    assert(t[j] == s[j]);
                    assert(rests(s, k2, q));
                } else if j > i {
                    assert(t[j] == s[j - 1]);
                    assert(rests(s, k2, q));
                } else {
                    assert(t[j].1 =~= seq![k]);
                }
            }
            if rests(s, k2, q) {
                let j = choose|j: int| 0 <= j < s.len() && s[j].0 == q && s[j].1.contains(k2);
                if j < i {
                    assert(t[j] == s[j]);
                } else {
                    assert(t[j + 1] == s[j]);
                }
            }
            if k2 == k && q == p {
                assert(t[i].1[0] == k);
            }
        }
    }
}

/// Whether key `k` rests at price `q`.
pub open spec fn rests(s: Seq<LevelView>, k: u64, q: int) -> bool {
    exists|j: int| 0 <= j < s.len() && s[j].0 == q && s[j].1.contains(k)
}

pub proof fn lemma_count_below_props(s: Seq<LevelView>, p: int)
    requires
        sorted_levels(s),
    ensures
        0 <= count_below(s, p) <= s.len(),
        forall|j: int| 0 <= j < count_below(s, p) ==> (#[trigger] s[j]).0 < p,
        count_below(s, p) < s.len() ==> s[count_below(s, p)].0 >= p,
    decreases s.len(),
{
    if s.len() > 0 {
        let d = s.drop_last();
        assert(sorted_levels(d));
        lemma_count_below_props(d, p);
        if s.last().0 < p {
            assert forall|j: int| 0 <= j < s.len() implies (#[trigger] s[j]).0 < p by {
                if j < s.len() - 1 {
                    assert(s[j].0 < s[s.len() - 1].0);
                }
            }
        } else {
            assert forall|j: int| 0 <= j < count_below(s, p) implies (#[trigger] s[j]).0 < p by {
                assert(d[j] == s[j]);
            }
        }
    }
}

pub proof fn lemma_without(s: Seq<u64>, k: u64)
    ensures
        forall|x: u64| #[trigger] without(s, k).contains(x) <==> (s.contains(x) && x != k),
    decreases s.len(),
{
    if s.len() > 0 {
        let d = s.drop_last();
        let l = s.last();
        lemma_without(d, k);
        assert(s == d.push(l));
        assert forall|x: u64| #[trigger] s.contains(x) <==> (d.contains(x) || x == l) by {
            if s.contains(x) {
                let m = choose|m: int| 0 <= m < s.len() && s[m] == x;
                if m < d.len() {
                    assert(d[m] == x);
                }
            }
            if d.contains(x) {
                let m = choose|m: int| 0 <= m < d.len() && d[m] == x;
                assert(s[m] == x);
            }
            if x == l {
                assert(s[s.len() - 1] == x);
            }
        }
        if l != k {
            let w = without(d, k);
            assert(without(s, k) == w.push(l));
            assert forall|x: u64| #[trigger] w.push(l).contains(x) <==> (w.contains(x) || x == l) by {
                if w.push(l).contains(x) {
                    let m = choose|m: int| 0 <= m < w.push(l).len() && w.push(l)[m] == x;
                    if m < w.len() {
                        assert(w[m] == x);
                    }
                }
                if w.contains(x) {
                    let m = choose|m: int| 0 <= m < w.len() && w[m] == x;
                    assert(w.push(l)[m] == x);
                }
                if x == l {
                    assert(w.push(l)[w.len() as int] == x);
                }
            }
        } else {
            assert(without(s, k) == without(d, k));
        }
        assert forall|x: u64| #[trigger] without(s, k).contains(x) <==> (s.contains(x) && x != k) by {
            assert(s.contains(x) <==> (d.contains(x) || x == l));
            assert(without(d, k).contains(x) <==> (d.contains(x) && x != k));
            if l != k {
                assert(without(s, k).contains(x) <==> (without(d, k).contains(x) || x == l));
            }
        }
    }
}

/// Keeps the levels sorted and reports, for every other key, that removing
/// `k` from the level priced `p` leaves it where it rested.
pub proof fn lemma_remove_key(s: Seq<LevelView>, p: int, k: u64)
    requires
        sorted_levels(s),
        has_level(s, p),
    ensures
        sorted_levels(remove_key(s, p, k)),
        forall|q: int, k2: u64| #[trigger] rests(remove_key(s, p, k), k2, q) <==> (rests(s, k2, q) && !(k2 == k && q == p)),
{
    let i = count_below(s, p);
    lemma_count_below_props(s, p);
    let f = without(s[i].1, k);
    lemma_without(s[i].1, k);
    let t = remove_key(s, p, k);
    if f.len() == 0 {
        assert forall|a: int, b: int| 0 <= a < b < t.len() implies (#[trigger] t[a]).0 < (#[trigger] t[b]).0 by {
            if b < i {
                assert(s[a].0 < s[b].0);
            } else if a < i {
                assert(s[a].0 < s[b + 1].0);
            } else {
                assert(s[a + 1].0 < s[b + 1].0);
            }
        }
        assert forall|a: int| 0 <= a < t.len() implies (#[trigger] t[a]).1.len() > 0 by {
            if a < i {
                assert(t[a] == s[a]);
            } else {
                assert(t[a] == s[a + 1]);
            }
        }
        assert forall|q: int, k2: u64| #[trigger] rests(t, k2, q) <==> (rests(s, k2, q) && !(k2 == k && q == p)) by {
            if rests(t, k2, q) {
                let j = choose|j: int| 0 <= j < t.len() && t[j].0 == q && t[j].1.contains(k2);
                if j < i {
                    assert(t[j] == s[j]);
                    assert(s[j].0 < s[i].0);
                } else {
                    assert(t[j] == s[j + 1]);
                    assert(s[i].0 < s[j + 1].0);
                }
                assert(rests(s, k2, q));
            }
            if rests(s, k2, q) && !(k2 == k && q == p) {
                let j = choose|j: int| 0 <= j < s.len() && s[j].0 == q && s[j].1.contains(k2);
                if j < i {
                    assert(t[j] == s[j]);
                } else if j > i {
                    assert(t[j - 1] == s[j]);
                } else {
                    assert(f.contains(k2));
                    assert(false);
                }
            }
        }
    } else {
        assert forall|a: int, b: int| 0 <= a < b < t.len() implies (#[trigger] t[a]).0 < (#[trigger] t[b]).0 by {
            assert(s[a].0 < s[b].0);
        }
        assert forall|q: int, k2: u64| #[trigger] rests(t, k2, q) <==> (rests(s, k2, q) && !(k2 == k && q == p)) by {
            if rests(t, k2, q) {
                let j = choose|j: int| 0 <= j < t.len() && t[j].0 == q && t[j].1.contains(k2);
                if j != i {
                    assert(s[j].0 != s[i].0) by {
                        if j < i {
                            assert(s[j].0 < s[i].0);
                        } else {
                            assert(s[i].0 < s[j].0);
                        }
                    }
                    assert(rests(s, k2, q));
                } else {
                    assert(s[i].1.contains(k2));
                    assert(rests(s, k2, q));
                }
            }
            if rests(s, k2, q) && !(k2 == k && q == p) {
                let j = choose|j: int| 0 <= j < s.len() && s[j].0 == q && s[j].1.contains(k2);
                if j == i {
                    assert(f.contains(k2));
                    assert(t[j].1.contains(k2));
                } else {
                    assert(t[j] == s[j]);
                }
            }
        }
    }
}


impl PriceLevel {
    /// A copy of the level.
    pub fn duplicate(&self) -> (r: PriceLevel)
        ensures
            level_view(r) == level_view(*self),
    {
        PriceLevel { price: self.price, orders: self.orders.clone() }
    }
}

/// One side of an order book: its price levels in increasing order.
pub struct OrderBookSide {
    side: Side,
    levels: Vec<PriceLevel>,
}

impl OrderBookSide {
    /// The levels as prices and keys, in increasing order of price.
    pub closed spec fn lv(&self) -> Seq<LevelView> {
        self.levels@.map_values(|l: PriceLevel| level_view(l))
    }

    pub closed spec fn side_of(&self) -> Side {
        self.side
    }

    pub open spec fn wf(&self) -> bool {
        sorted_levels(self.lv())
    }

    pub fn new(side: Side) -> (r: OrderBookSide)
        ensures
            r.lv() == Seq::<LevelView>::empty(),
            r.side_of() == side,
            r.wf(),
    {
        let r = OrderBookSide { side, levels: Vec::new() };
        assert(r.lv() =~= Seq::<LevelView>::empty());
        r
    }

    /// A copy of the side.
    pub fn duplicate(&self) -> (r: OrderBookSide)
        ensures
            r.lv() == self.lv(),
            r.side_of() == self.side_of(),
    {
        let mut levels: Vec<PriceLevel> = Vec::new();
        let mut i: usize = 0;
        while i < self.levels.len()
            invariant
                i <= self.levels@.len(),
                levels@.len() == i,
                forall|j: int| 0 <= j < i ==> level_view(#[trigger] levels@[j]) == level_view(self.levels@[j]),
            decreases self.levels@.len() - i,
        {
            levels.push(self.levels[i].duplicate());
            i = i + 1;
        }
        let r = OrderBookSide { side: self.side, levels };
        assert(r.lv() =~= self.lv());
        r
    }

    fn best_index(&self) -> (r: Option<usize>)
        ensures
            match r {
                Some(i) => i < self.lv().len() && best_level(self.side_of(), self.lv()) == Some(self.lv()[i as int]),
                None => best_level(self.side_of(), self.lv()) is None,
            },
    {
        let n = self.levels.len();
        if n == 0 {
            None
        } else {
            match self.side {
                Side::Ask => Some(0),
                Side::Bid => Some(n - 1),
            }
        }
    }

    /// The best price level and its orders in time order; `None` when the
    /// side is empty.
    pub fn get_best_price_level(&self) -> (r: Option<(Decimal, Vec<u64>)>)
        ensures
            match r {
                Some((p, v)) => best_level(self.side_of(), self.lv()) == Some((p@, v@)),
                None => best_level(self.side_of(), self.lv()) is None,
            },
    {
        match self.best_index() {
            Some(i) => {
                let l = &self.levels[i];
                Some((l.price, l.orders.clone()))
            },
            None => None,
        }
    }

    /// The key of the oldest order at the best price.
    pub fn get_best_order(&self) -> (r: Option<u64>)
        requires
            self.wf(),
        ensures
            r == (match best_level(self.side_of(), self.lv()) {
                Some(l) => Some(l.1[0]),
                None => None,
            }),
    {
        match self.best_index() {
            Some(i) => {
                assert(self.lv()[i as int].1.len() > 0);
                Some(self.levels[i].orders[0])
            },
            None => None,
        }
    }

    /// The best price.
    pub fn get_best_price(&self) -> (r: Option<Decimal>)
        ensures
            match r {
                Some(p) => best_level(self.side_of(), self.lv()) matches Some(l) && p@ == l.0,
                None => best_level(self.side_of(), self.lv()) is None,
            },
    {
        match self.best_index() {
            Some(i) => Some(self.levels[i].price),
            None => None,
        }
    }

    /// The position of the first level priced at least `p`.
    fn position(&self, p: Decimal) -> (r: usize)
        requires
            self.wf(),
        ensures
            r as int == count_below(self.lv(), p@),
            r <= self.levels@.len(),
            self.lv().len() == self.levels@.len(),
    {
        let mut i: usize = 0;
        while i < self.levels.len() && self.levels[i].price.0 < p.0
            invariant
                i <= self.lv().len(),
                self.lv().len() == self.levels@.len(),
                forall|j: int| 0 <= j < i ==> (#[trigger] self.lv()[j]).0 < p@,
            decreases self.levels@.len() - i,
        {
            i = i + 1;
        }
        proof {
            lemma_count_below(self.lv(), p@, i as int);
        }
        i
    }

    /// Puts the order at the back of the queue of its price level.
    pub fn insert_limit_order(&mut self, order: &LimitOrder)
        requires
            old(self).wf(),
        ensures
            final(self).lv() == insert_key(old(self).lv(), order.price@, order.order_key),
            final(self).side_of() == old(self).side_of(),
            final(self).wf(),
    {
        proof {
            lemma_insert_key(self.lv(), order.price@, order.order_key);
        }
        let ghost s = self.lv();
        let i = self.position(order.price);
        if i < self.levels.len() && self.levels[i].price.0 == order.price.0 {
            let mut lvl = self.levels.remove(i);
            lvl.orders.push(order.order_key);
            self.levels.insert(i, lvl);
            assert(self.lv() =~= s.update(i as int, (order.price@, s[i as int].1.push(order.order_key))));
        } else {
            let mut v: Vec<u64> = Vec::new();
            v.push(order.order_key);
            self.levels.insert(i, PriceLevel { price: order.price, orders: v });
            assert(v@ =~= seq![order.order_key]);
            assert(self.lv() =~= s.insert(i as int, (order.price@, seq![order.order_key])));
        }
    }

    /// Takes the order out of its price level, dropping the level when it
    /// becomes empty.
    pub fn remove_order(&mut self, to_remove: &LimitOrder)
        requires
            old(self).wf(),
            has_level(old(self).lv(), to_remove.price@),
        ensures
            final(self).lv() == remove_key(old(self).lv(), to_remove.price@, to_remove.order_key),
            final(self).side_of() == old(self).side_of(),
            final(self).wf(),
    {
        proof {
            lemma_remove_key(self.lv(), to_remove.price@, to_remove.order_key);
        }
        let ghost s = self.lv();
        let i = self.position(to_remove.price);
        let lvl = self.levels.remove(i);
        let k = to_remove.order_key;
        let mut kept: Vec<u64> = Vec::new();
        let mut j: usize = 0;
        while j < lvl.orders.len()
            invariant
                j <= lvl.orders@.len(),
                kept@ == without(lvl.orders@.take(j as int), k),
            decreases lvl.orders@.len() - j,
        {
            proof {
                assert(lvl.orders@.take(j + 1).drop_last() == lvl.orders@.take(j as int));
            }
            if lvl.orders[j] != k {
                kept.push(lvl.orders[j]);
            }
            j = j + 1;
        }
        proof {
            assert(lvl.orders@.take(j as int) == lvl.orders@);
        }
        if kept.len() > 0 {
            self.levels.insert(i, PriceLevel { price: lvl.price, orders: kept });
            assert(self.lv() =~= s.update(i as int, (to_remove.price@, without(s[i as int].1, k))));
        } else {
            assert(self.lv() =~= s.remove(i as int));
        }
    }
}


/// Why the order book or a trading pair refuses a request.
#[derive(Clone, Copy, Debug, PartialEq, Eq, Structural)]
pub enum OrderError {
    /// The bucket holds neither resource of the pair.
    InvalidResource,
    /// A price must be above zero.
    NonPositivePrice,
    /// A quantity must be above zero.
    NonPositiveQuantity,
    /// The order would cross the best order of the other side.
    WouldBeMarketOrder,
    /// An order with this key already exists.
    DuplicateOrderKey,
    /// No order has this key.
    UnknownOrder,
    /// No limit order is left to match a market order.
    InsufficientLiquidity,
    /// The pair holds less than it must pay out.
    InsufficientFunds,
    /// A computation divides by zero or leaves the decimal range.
    Arithmetic,
    /// A matching step would trade nothing, so the market order cannot end.
    NoProgress,
    /// A trading pair trades fungible resources only.
    NonFungibleResource,
    /// The exchange already lists this trading pair.
    TradingPairExists,
    /// Listing a pair needs a proof of the admin badge.
    Unauthorized,
}

/// Every bid is priced below every ask.
pub open spec fn not_crossed(asks: Seq<LevelView>, bids: Seq<LevelView>) -> bool {
    forall|i: int, j: int| 0 <= i < bids.len() && 0 <= j < asks.len() ==> (#[trigger] bids[i]).0 < (#[trigger] asks[j]).0
}

/// Every price of `t` is a price of `s` or `p`.
pub open spec fn prices_within(t: Seq<LevelView>, s: Seq<LevelView>, p: int) -> bool {
    forall|a: int| 0 <= a < t.len() ==> (#[trigger] t[a]).0 == p || exists|b: int| 0 <= b < s.len() && s[b].0 == t[a].0
}

proof fn lemma_insert_prices(s: Seq<LevelView>, p: int, k: u64)
    requires
        sorted_levels(s),
    ensures
        prices_within(insert_key(s, p, k), s, p),
{
    lemma_insert_key(s, p, k);
    let t = insert_key(s, p, k);
    assert forall|a: int| 0 <= a < t.len() implies (#[trigger] t[a]).0 == p || exists|b: int| 0 <= b < s.len() && s[b].0 == t[a].0 by {
        let k2 = t[a].1[0];
        assert(t[a].1.contains(k2));
        assert(rests(t, k2, t[a].0));
        if rests(s, k2, t[a].0) {
            let b = choose|b: int| 0 <= b < s.len() && s[b].0 == t[a].0 && s[b].1.contains(k2);
        }
    }
}

proof fn lemma_remove_prices(s: Seq<LevelView>, p: int, k: u64)
    requires
        sorted_levels(s),
        has_level(s, p),
    ensures
        prices_within(remove_key(s, p, k), s, p),
        forall|a: int| 0 <= a < remove_key(s, p, k).len() ==> exists|b: int| 0 <= b < s.len() && s[b].0 == (#[trigger] remove_key(s, p, k)[a]).0,
{
    lemma_remove_key(s, p, k);
    let t = remove_key(s, p, k);
    assert forall|a: int| 0 <= a < t.len() implies exists|b: int| 0 <= b < s.len() && s[b].0 == (#[trigger] t[a]).0 by {
        let k2 = t[a].1[0];
        assert(t[a].1.contains(k2));
        assert(rests(t, k2, t[a].0));
        let b = choose|b: int| 0 <= b < s.len() && s[b].0 == t[a].0 && s[b].1.contains(k2);
    }
}

/// The order book of a trading pair.
pub struct OrderBook {
    asks: OrderBookSide,
    bids: OrderBookSide,
}

impl OrderBook {
    pub closed spec fn asks_lv(&self) -> Seq<LevelView> {
        self.asks.lv()
    }

    pub closed spec fn bids_lv(&self) -> Seq<LevelView> {
        self.bids.lv()
    }

    pub open spec fn side_lv(&self, s: Side) -> Seq<LevelView> {
        match s {
            Side::Ask => self.asks_lv(),
            Side::Bid => self.bids_lv(),
        }
    }

    pub closed spec fn sides_ok(&self) -> bool {
        self.asks.side_of() == Side::Ask && self.bids.side_of() == Side::Bid
    }

    /// Both sides are sorted and every bid is priced below every ask.
    pub open spec fn wf(&self) -> bool {
        &&& self.sides_ok()
        &&& sorted_levels(self.asks_lv())
        &&& sorted_levels(self.bids_lv())
        &&& not_crossed(self.asks_lv(), self.bids_lv())
    }

    pub fn new() -> (r: OrderBook)
        ensures
            r.wf(),
            r.asks_lv() == Seq::<LevelView>::empty(),
            r.bids_lv() == Seq::<LevelView>::empty(),
    {
        OrderBook { asks: OrderBookSide::new(Side::Ask), bids: OrderBookSide::new(Side::Bid) }
    }

    /// A copy of the book.
    pub fn duplicate(&self) -> (r: OrderBook)
        ensures
            r.asks_lv() == self.asks_lv(),
            r.bids_lv() == self.bids_lv(),
            r.sides_ok() == self.sides_ok(),
    {
        OrderBook { asks: self.asks.duplicate(), bids: self.bids.duplicate() }
    }

    /// The key of the best order on `side`.
    pub fn get_best_order(&self, side: Side) -> (r: Option<u64>)
        requires
            self.wf(),
        ensures
            r == (match best_level(side, self.side_lv(side)) {
                Some(l) => Some(l.1[0]),
                None => None,
            }),
    {
        match side {
            Side::Ask => self.asks.get_best_order(),
            Side::Bid => self.bids.get_best_order(),
        }
    }

    /// The best price on `side`.
    pub fn get_best_price(&self, side: Side) -> (r: Option<Decimal>)
        requires
            self.wf(),
        ensures
            match r {
                Some(p) => best_level(side, self.side_lv(side)) matches Some(l) && p@ == l.0,
                None => best_level(side, self.side_lv(side)) is None,
            },
    {
        match side {
            Side::Ask => self.asks.get_best_price(),
            Side::Bid => self.bids.get_best_price(),
        }
    }

    /// Whether an order at `price` on `side` would rest without crossing:
    /// an ask above the best bid, a bid below the best ask.
    pub open spec fn can_rest(&self, side: Side, price: int) -> bool {
        match side {
            Side::Ask => self.bids_lv().len() == 0 || price > self.bids_lv().last().0,
            Side::Bid => self.asks_lv().len() == 0 || price < self.asks_lv()[0].0,
        }
    }

    /// Whether an order at `price` on `side` would rest without crossing.
    pub fn would_rest(&self, side: Side, price: Decimal) -> (r: bool)
        requires
            self.wf(),
        ensures
            r == self.can_rest(side, price@),
    {
        match side {
            Side::Ask => match self.bids.get_best_price() {
                Some(b) => price.0 > b.0,
                None => true,
            },
            Side::Bid => match self.asks.get_best_price() {
                Some(a) => price.0 < a.0,
                None => true,
            },
        }
    }

    /// Puts a limit order on its side; refuses one that would cross the
    /// other side.
    pub fn insert_limit_order(&mut self, order: &LimitOrder) -> (r: Result<(), OrderError>)
        requires
            old(self).wf(),
        ensures
            final(self).wf(),
            old(self).can_rest(order.side, order.price@) ==> {
                &&& r is Ok
                &&& final(self).side_lv(order.side) == insert_key(old(self).side_lv(order.side), order.price@, order.order_key)
                &&& final(self).side_lv(opposite_side(order.side)) == old(self).side_lv(opposite_side(order.side))
            },
            !old(self).can_rest(order.side, order.price@) ==> r == Err::<(), OrderError>(OrderError::WouldBeMarketOrder)
                && final(self).asks_lv() == old(self).asks_lv() && final(self).bids_lv() == old(self).bids_lv(),
    {
        match order.side {
            Side::Ask => {
                let best_bid = self.bids.get_best_price();
                if best_bid.is_some() && order.price.0 <= best_bid.unwrap().0 {
                    return Err(OrderError::WouldBeMarketOrder);
                }
                proof {
                    lemma_insert_prices(self.asks_lv(), order.price@, order.order_key);
                    let b = self.bids_lv();
                    assert forall|i: int| 0 <= i < b.len() implies (#[trigger] b[i]).0 <= b.last().0 by {
                        if i < b.len() - 1 {
                            assert(b[i].0 < b[b.len() - 1].0);
                        }
                    }
                }
                self.asks.insert_limit_order(order);
                proof {
                    let a = self.asks_lv();
                    let b = self.bids_lv();
                    assert forall|i: int, j: int| 0 <= i < b.len() && 0 <= j < a.len() implies (#[trigger] b[i]).0 < (#[trigger] a[j]).0 by {
                        assert(b[i].0 <= b.last().0);
                    }
                }
            },
            Side::Bid => {
                let best_ask = self.asks.get_best_price();
                if best_ask.is_some() && order.price.0 >= best_ask.unwrap().0 {
                    return Err(OrderError::WouldBeMarketOrder);
                }
                proof {
                    lemma_insert_prices(self.bids_lv(), order.price@, order.order_key);
                    let a = self.asks_lv();
                    assert forall|j: int| 0 <= j < a.len() implies a[0].0 <= (#[trigger] a[j]).0 by {
                        if j > 0 {
                            assert(a[0].0 < a[j].0);
                        }
                    }
                }
                self.bids.insert_limit_order(order);
                proof {
                    let a = self.asks_lv();
                    let b = self.bids_lv();
                    assert forall|i: int, j: int| 0 <= i < b.len() && 0 <= j < a.len() implies (#[trigger] b[i]).0 < (#[trigger] a[j]).0 by {
                        assert(a[0].0 <= a[j].0);
                    }
                }
            },
        }
        Ok(())
    }

    /// Takes a limit order off its side.
    pub fn remove_limit_order(&mut self, order: &LimitOrder)
        requires
            old(self).wf(),
            has_level(old(self).side_lv(order.side), order.price@),
        ensures
            final(self).wf(),
            final(self).side_lv(order.side) == remove_key(old(self).side_lv(order.side), order.price@, order.order_key),
            final(self).side_lv(opposite_side(order.side)) == old(self).side_lv(opposite_side(order.side)),
    {
        match order.side {
            Side::Ask => {
                proof {
                    lemma_remove_prices(self.asks_lv(), order.price@, order.order_key);
                }
                let ghost old_a = self.asks_lv();
                self.asks.remove_order(order);
                proof {
                    let a = self.asks_lv();
                    let b = self.bids_lv();
                    assert forall|i: int, j: int| 0 <= i < b.len() && 0 <= j < a.len() implies (#[trigger] b[i]).0 < (#[trigger] a[j]).0 by {
                        let k = choose|k: int| 0 <= k < old_a.len() && old_a[k].0 == a[j].0;
                        assert(b[i].0 < old_a[k].0);
                    }
                }
            },
            Side::Bid => {
                proof {
                    lemma_remove_prices(self.bids_lv(), order.price@, order.order_key);
                }
                let ghost old_b = self.bids_lv();
                self.bids.remove_order(order);
                proof {
                    let a = self.asks_lv();
                    let b = self.bids_lv();
                    assert forall|i: int, j: int| 0 <= i < b.len() && 0 <= j < a.len() implies (#[trigger] b[i]).0 < (#[trigger] a[j]).0 by {
                        let k = choose|k: int| 0 <= k < old_b.len() && old_b[k].0 == b[i].0;
                        assert(old_b[k].0 < a[j].0);
                    }
                }
            },
        }
    }
}


/// The state of a trading pair as the contracts see it.
pub ghost struct PairModel {
    pub asks: Seq<LevelView>,
    pub bids: Seq<LevelView>,
    /// The data of every order not yet closed.
    pub orders: Seq<LimitOrder>,
    pub base_funds: Decimal,
    pub quote_funds: Decimal,
}


impl PairModel {
    pub open spec fn side_lv(self, s: Side) -> Seq<LevelView> {
        match s {
            Side::Ask => self.asks,
            Side::Bid => self.bids,
        }
    }

    pub open spec fn with_side(self, s: Side, lv: Seq<LevelView>) -> PairModel {
        match s {
            Side::Ask => PairModel { asks: lv, ..self },
            Side::Bid => PairModel { bids: lv, ..self },
        }
    }

    /// The funds that back the orders of a side: the base resource for asks,
    /// the quote resource for bids.
    pub open spec fn funds_of(self, s: Side) -> Decimal {
        match s {
            Side::Ask => self.base_funds,
            Side::Bid => self.quote_funds,
        }
    }

    pub open spec fn with_funds(self, s: Side, v: Decimal) -> PairModel {
        match s {
            Side::Ask => PairModel { base_funds: v, ..self },
            Side::Bid => PairModel { quote_funds: v, ..self },
        }
    }

    /// Whether an order at `price` on `side` would rest without crossing.
    pub open spec fn can_rest(self, side: Side, price: int) -> bool {
        match side {
            Side::Ask => self.bids.len() == 0 || price > self.bids.last().0,
            Side::Bid => self.asks.len() == 0 || price < self.asks[0].0,
        }
    }

    /// The position of the order with key `k`.
    pub open spec fn find(self, k: u64) -> Option<int> {
        if exists|i: int| 0 <= i < self.orders.len() && (#[trigger] self.orders[i]).order_key == k {
            Some(choose|i: int| 0 <= i < self.orders.len() && (#[trigger] self.orders[i]).order_key == k)
        } else {
            None
        }
    }

    /// The invariant of a trading pair: a sorted, uncrossed book; distinct
    /// valid orders; an order rests in the book, at its side and price,
    /// exactly while it is not completely filled; every key in the book
    /// belongs to such an order; funds are not negative.
    pub open spec fn inv(self) -> bool {
        &&& sorted_levels(self.asks)
        &&& sorted_levels(self.bids)
        &&& not_crossed(self.asks, self.bids)
        &&& forall|i: int, j: int|
            0 <= i < j < self.orders.len() ==> (#[trigger] self.orders[i]).order_key != (#[trigger] self.orders[j]).order_key
        &&& forall|i: int| 0 <= i < self.orders.len() ==> (#[trigger] self.orders[i]).valid()
        &&& forall|i: int|
            0 <= i < self.orders.len() ==> ((#[trigger] self.orders[i]).quantity_filled@ < self.orders[i].quantity@
                <==> rests(self.side_lv(self.orders[i].side), self.orders[i].order_key, self.orders[i].price@))
        &&& forall|s: Side, k: u64, q: int|
            #[trigger] rests(self.side_lv(s), k, q) ==> exists|i: int|
                0 <= i < self.orders.len() && (#[trigger] self.orders[i]).order_key == k && self.orders[i].side == s
                    && self.orders[i].price@ == q
        &&& self.base_funds@ >= 0
        &&& self.quote_funds@ >= 0
    }
}

/// The order that a new limit order creates.
pub open spec fn new_order(side: Side, price: Decimal, quantity: Decimal, key: u64) -> LimitOrder {
    LimitOrder { order_key: key, side, price, quantity, quantity_filled: Decimal(0) }
}

/// The side of an order paid with `resource`: asks pay in the base
/// resource, bids in the quote resource.
pub open spec fn side_for(base: ResourceAddress, quote: ResourceAddress, resource: ResourceAddress) -> Option<Side> {
    if resource == base {
        Some(Side::Ask)
    } else if resource == quote {
        Some(Side::Bid)
    } else {
        None
    }
}

/// Placing a limit order: the pair after it and the order created.
pub open spec fn new_limit_order_spec(
    m: PairModel,
    base: ResourceAddress,
    quote: ResourceAddress,
    funds: Bucket,
    price: Decimal,
    key: u64,
) -> Result<(PairModel, LimitOrder), OrderError> {
    match side_for(base, quote, funds.res()) {
        None => Err(OrderError::InvalidResource),
        Some(side) => if price@ <= 0 {
            Err(OrderError::NonPositivePrice)
        } else if funds.amt()@ <= 0 {
            Err(OrderError::NonPositiveQuantity)
        } else if !m.can_rest(side, price@) {
            Err(OrderError::WouldBeMarketOrder)
        } else {
            match dec_of(m.funds_of(side)@ + funds.amt()@) {
                None => Err(OrderError::Arithmetic),
                Some(v) => if m.find(key) is Some {
                    Err(OrderError::DuplicateOrderKey)
                } else {
                    let o = new_order(side, price, funds.amt(), key);
                    let m1 = m.with_side(side, insert_key(m.side_lv(side), price@, key)).with_funds(side, v);
                    Ok((PairModel { orders: m.orders.push(o), ..m1 }, o))
                },
            }
        },
    }
}

/// Closing an order: the pair after it, the refund of the unfilled part
/// and what the filled part traded for.
pub open spec fn close_limit_order_spec(
    m: PairModel,
    base: ResourceAddress,
    quote: ResourceAddress,
    key: u64,
) -> Result<(PairModel, Bucket, Bucket), OrderError> {
    match m.find(key) {
        None => Err(OrderError::UnknownOrder),
        Some(i) => {
            let o = m.orders[i];
            let m1 = if o.quantity_filled@ < o.quantity@ {
                m.with_side(o.side, remove_key(m.side_lv(o.side), o.price@, key))
            } else {
                m
            };
            let m2 = PairModel { orders: m.orders.remove(i), ..m1 };
            match close_amounts(o) {
                None => Err(OrderError::Arithmetic),
                Some((refund, traded)) => {
                    let (own, other) = match o.side {
                        Side::Ask => (Side::Ask, Side::Bid),
                        Side::Bid => (Side::Bid, Side::Ask),
                    };
                    if refund@ < 0 || m2.funds_of(own)@ < refund@ {
                        Err(OrderError::InsufficientFunds)
                    } else if traded@ < 0 || m2.funds_of(other)@ < traded@ {
                        Err(OrderError::InsufficientFunds)
                    } else {
                        let m3 = m2.with_funds(own, Decimal((m2.funds_of(own)@ - refund@) as i128));
                        let m4 = m3.with_funds(other, Decimal((m3.funds_of(other)@ - traded@) as i128));
                        let (own_res, other_res) = match o.side {
                            Side::Ask => (base, quote),
                            Side::Bid => (quote, base),
                        };
                        Ok((m4, Bucket::spec_new(own_res, refund), Bucket::spec_new(other_res, traded)))
                    }
                },
            }
        },
    }
}


/// A key that rests in a sorted side names one of its levels.
pub proof fn lemma_rests_has_level(s: Seq<LevelView>, k: u64, q: int)
    requires
        sorted_levels(s),
        rests(s, k, q),
    ensures
        has_level(s, q),
{
    let j = choose|j: int| 0 <= j < s.len() && s[j].0 == q && s[j].1.contains(k);
    assert forall|a: int| 0 <= a < j implies (#[trigger] s[a]).0 < q by {
        assert(s[a].0 < s[j].0);
    }
    lemma_count_below(s, q, j);
}

/// Adding a key at a price where it can rest keeps the book sorted and
/// uncrossed.
pub proof fn lemma_not_crossed_insert(m: PairModel, side: Side, p: int, k: u64)
    requires
        sorted_levels(m.asks),
        sorted_levels(m.bids),
        not_crossed(m.asks, m.bids),
        m.can_rest(side, p),
    ensures
        ({
            let m1 = m.with_side(side, insert_key(m.side_lv(side), p, k));
            not_crossed(m1.asks, m1.bids) && sorted_levels(m1.asks) && sorted_levels(m1.bids)
        }),
{
    lemma_insert_key(m.side_lv(side), p, k);
    lemma_insert_prices(m.side_lv(side), p, k);
    let a = m.asks;
    let b = m.bids;
    match side {
        Side::Ask => {
            let t = insert_key(a, p, k);
            assert forall|i: int| 0 <= i < b.len() implies (#[trigger] b[i]).0 <= b.last().0 by {
                if i < b.len() - 1 {
                    assert(b[i].0 < b[b.len() - 1].0);
                }
            }
            assert forall|i: int, j: int| 0 <= i < b.len() && 0 <= j < t.len() implies (#[trigger] b[i]).0 < (#[trigger] t[j]).0 by {
                if t[j].0 != p {
                    let c = choose|c: int| 0 <= c < a.len() && a[c].0 == t[j].0;
                    assert(b[i].0 < a[c].0);
                } else {
                    assert(b[i].0 <= b.last().0);
                }
            }
        },
        Side::Bid => {
            let t = insert_key(b, p, k);
            assert forall|j: int| 0 <= j < a.len() implies a[0].0 <= (#[trigger] a[j]).0 by {
                if j > 0 {
                    assert(a[0].0 < a[j].0);
                }
            }
            assert forall|i: int, j: int| 0 <= i < t.len() && 0 <= j < a.len() implies (#[trigger] t[i]).0 < (#[trigger] a[j]).0 by {
                if t[i].0 != p {
                    let c = choose|c: int| 0 <= c < b.len() && b[c].0 == t[i].0;
                    assert(b[c].0 < a[j].0);
                } else {
                    assert(a[0].0 <= a[j].0);
                }
            }
        },
    }
}

/// Taking a key off a level keeps the book sorted and uncrossed.
pub proof fn lemma_not_crossed_remove(m: PairModel, side: Side, p: int, k: u64)
    requires
        sorted_levels(m.asks),
        sorted_levels(m.bids),
        not_crossed(m.asks, m.bids),
        has_level(m.side_lv(side), p),
    ensures
        ({
            let m1 = m.with_side(side, remove_key(m.side_lv(side), p, k));
            not_crossed(m1.asks, m1.bids) && sorted_levels(m1.asks) && sorted_levels(m1.bids)
        }),
{
    lemma_remove_key(m.side_lv(side), p, k);
    lemma_remove_prices(m.side_lv(side), p, k);
    let a = m.asks;
    let b = m.bids;
    match side {
        Side::Ask => {
            let t = remove_key(a, p, k);
            assert forall|i: int, j: int| 0 <= i < b.len() && 0 <= j < t.len() implies (#[trigger] b[i]).0 < (#[trigger] t[j]).0 by {
                let c = choose|c: int| 0 <= c < a.len() && a[c].0 == t[j].0;
                assert(b[i].0 < a[c].0);
            }
        },
        Side::Bid => {
            let t = remove_key(b, p, k);
            assert forall|i: int, j: int| 0 <= i < t.len() && 0 <= j < a.len() implies (#[trigger] t[i]).0 < (#[trigger] a[j]).0 by {
                let c = choose|c: int| 0 <= c < b.len() && b[c].0 == t[i].0;
                assert(b[c].0 < a[j].0);
            }
        },
    }
}

/// Placing a limit order keeps the invariant of the pair.
pub proof fn lemma_new_limit_order_inv(
    m: PairModel,
    base: ResourceAddress,
    quote: ResourceAddress,
    funds: Bucket,
    price: Decimal,
    key: u64,
)
    requires
        m.inv(),
        new_limit_order_spec(m, base, quote, funds, price, key) is Ok,
    ensures
        new_limit_order_spec(m, base, quote, funds, price, key).unwrap().0.inv(),
{
    let side = side_for(base, quote, funds.res()).unwrap();
    let o = new_order(side, price, funds.amt(), key);
    let v = dec_of(m.funds_of(side)@ + funds.amt()@).unwrap();
    let lv = insert_key(m.side_lv(side), price@, key);
    let m1 = m.with_side(side, lv).with_funds(side, v);
    let m2 = PairModel { orders: m.orders.push(o), ..m1 };
    assert(new_limit_order_spec(m, base, quote, funds, price, key).unwrap().0 == m2);
    lemma_not_crossed_insert(m, side, price@, key);
    lemma_insert_key(m.side_lv(side), price@, key);
    assert(m.find(key) is None);
    assert forall|i: int| 0 <= i < m.orders.len() implies (#[trigger] m.orders[i]).order_key != key by {
        if m.orders[i].order_key == key {
            assert(m.find(key) is Some);
        }
    }
    assert forall|s: Side| #[trigger] m2.side_lv(s) == (if s == side { lv } else { m.side_lv(s) }) by {}
    assert forall|i: int, j: int| 0 <= i < j < m2.orders.len() implies (#[trigger] m2.orders[i]).order_key != (#[trigger] m2.orders[j]).order_key by {
        if j == m.orders.len() {
            assert(m2.orders[i] == m.orders[i]);
        } else {
            assert(m2.orders[i] == m.orders[i]);
            assert(m2.orders[j] == m.orders[j]);
        }
    }
    assert forall|i: int| 0 <= i < m2.orders.len() implies ((#[trigger] m2.orders[i]).quantity_filled@ < m2.orders[i].quantity@
        <==> rests(m2.side_lv(m2.orders[i].side), m2.orders[i].order_key, m2.orders[i].price@)) by {
        if i < m.orders.len() {
            assert(m2.orders[i] == m.orders[i]);
        } else {
            assert(m2.orders[i] == o);
        }
    }
    assert forall|s: Side, k: u64, q: int| #[trigger] rests(m2.side_lv(s), k, q) implies exists|i: int|
        0 <= i < m2.orders.len() && (#[trigger] m2.orders[i]).order_key == k && m2.orders[i].side == s
            && m2.orders[i].price@ == q by {
        if s == side && k == key && q == price@ {
            assert(m2.orders[m.orders.len() as int] == o);
        } else {
            assert(rests(m.side_lv(s), k, q));
            let i = choose|i: int| 0 <= i < m.orders.len() && (#[trigger] m.orders[i]).order_key == k && m.orders[i].side == s
                && m.orders[i].price@ == q;
            assert(m2.orders[i] == m.orders[i]);
        }
    }
}


/// Closing an order keeps the invariant of the pair.
pub proof fn lemma_close_limit_order_inv(m: PairModel, base: ResourceAddress, quote: ResourceAddress, key: u64)
    requires
        m.inv(),
        close_limit_order_spec(m, base, quote, key) is Ok,
    ensures
        close_limit_order_spec(m, base, quote, key).unwrap().0.inv(),
{
    let i = m.find(key).unwrap();
    let o = m.orders[i];
    let lv = if o.quantity_filled@ < o.quantity@ {
        remove_key(m.side_lv(o.side), o.price@, key)
    } else {
        m.side_lv(o.side)
    };
    let m1 = m.with_side(o.side, lv);
    let m2 = PairModel { orders: m.orders.remove(i), ..m1 };
    let r = close_limit_order_spec(m, base, quote, key).unwrap().0;
    assert(r.asks == m2.asks && r.bids == m2.bids && r.orders == m2.orders);
    assert(r.base_funds@ >= 0 && r.quote_funds@ >= 0);
    if o.quantity_filled@ < o.quantity@ {
        assert(rests(m.side_lv(o.side), key, o.price@));
        lemma_rests_has_level(m.side_lv(o.side), key, o.price@);
        lemma_not_crossed_remove(m, o.side, o.price@, key);
        lemma_remove_key(m.side_lv(o.side), o.price@, key);
    }
    assert forall|s: Side| #[trigger] m2.side_lv(s) == (if s == o.side { lv } else { m.side_lv(s) }) by {}
    // other keys rest where they did; the closed key rests nowhere
    assert forall|s: Side, k: u64, q: int| #[trigger] rests(m2.side_lv(s), k, q) <==> (rests(m.side_lv(s), k, q) && k != key) by {
        if rests(m.side_lv(s), k, q) && k == key {
            let j = choose|j: int| 0 <= j < m.orders.len() && (#[trigger] m.orders[j]).order_key == k && m.orders[j].side == s
                && m.orders[j].price@ == q;
            if j != i {
                if j < i {
                    assert(m.orders[j].order_key != m.orders[i].order_key);
                } else {
                    assert(m.orders[i].order_key != m.orders[j].order_key);
                }
            }
        }
    }
    assert forall|a: int| 0 <= a < m2.orders.len() implies #[trigger] m2.orders[a] == m.orders[if a < i { a } else { a + 1 }] by {}
    assert forall|a: int| 0 <= a < m2.orders.len() implies (#[trigger] m2.orders[a]).order_key != key by {
        let b = if a < i { a } else { a + 1 };
        if b < i {
            assert(m.orders[b].order_key != m.orders[i].order_key);
        } else {
            assert(m.orders[i].order_key != m.orders[b].order_key);
        }
    }
    assert forall|a: int, b: int| 0 <= a < b < m2.orders.len() implies (#[trigger] m2.orders[a]).order_key != (#[trigger] m2.orders[b]).order_key by {
        let a1 = if a < i { a } else { a + 1 };
        let b1 = if b < i { b } else { b + 1 };
        assert(m.orders[a1].order_key != m.orders[b1].order_key);
    }
    assert forall|a: int| 0 <= a < m2.orders.len() implies ((#[trigger] m2.orders[a]).quantity_filled@ < m2.orders[a].quantity@
        <==> rests(m2.side_lv(m2.orders[a].side), m2.orders[a].order_key, m2.orders[a].price@)) by {
        let a1 = if a < i { a } else { a + 1 };
        assert(m2.orders[a] == m.orders[a1]);
    }
    assert forall|s: Side, k: u64, q: int| #[trigger] rests(m2.side_lv(s), k, q) implies exists|a: int|
        0 <= a < m2.orders.len() && (#[trigger] m2.orders[a]).order_key == k && m2.orders[a].side == s
            && m2.orders[a].price@ == q by {
        let j = choose|j: int| 0 <= j < m.orders.len() && (#[trigger] m.orders[j]).order_key == k && m.orders[j].side == s
            && m.orders[j].price@ == q;
        assert(j != i);
        let a = if j < i { j } else { j - 1 };
        assert(m2.orders[a] == m.orders[j]);
    }
    assert forall|a: int| 0 <= a < m2.orders.len() implies (#[trigger] m2.orders[a]).valid() by {
        let a1 = if a < i { a } else { a + 1 };
        assert(m2.orders[a] == m.orders[a1]);
    }
    assert(sorted_levels(m2.asks) && sorted_levels(m2.bids) && not_crossed(m2.asks, m2.bids));
    assert forall|s: Side| #[trigger] r.side_lv(s) == m2.side_lv(s) by {}
}

} // verus!
