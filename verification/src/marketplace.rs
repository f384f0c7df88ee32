//! A marketplace where traders place buy and sell orders for tokens, paid in
//! one currency. A new order is filled against the resting orders of the
//! other side, best price first, and each order is answered with a ticket
//! that later withdraws what the order holds.
use vstd::prelude::*;
use crate::decimal::{dec_of, ddiv, dmul, Decimal};
use crate::market::{MarketPrices, Order, OrderTicket, TokenRef};
use crate::resource::{group_bucket, Bucket, NonFungible, ResourceAddress};

verus! {

broadcast use group_bucket;

/// Why a marketplace call is refused. A refused call changes nothing.
#[derive(Clone, Copy, Debug, PartialEq, Eq, Structural)]
pub enum MarketError {
    /// A buy order must pay in the market's currency.
    WrongCurrency,
    /// The order numbers are used up.
    TooManyOrders,
    /// Filling the order would take a negative amount from a bucket or
    /// overflow an amount.
    FillFailed,
    /// Only a ticket of this market can withdraw an order.
    NotATicket,
}

/// `b` with `a` more in it; `None` when the amount overflows.
pub open spec fn add_to(b: Bucket, a: int) -> Option<Bucket> {
    match dec_of(b.amt()@ + a) {
        Some(d) => Some(Bucket::spec_new(b.res(), d)),
        None => None,
    }
}

/// Fills `sell` against `buy` at `price`. When the buyer's payment covers
/// everything the seller offers, all of it changes hands for its full
/// price; otherwise the buyer spends all of the payment on as many tokens
/// as it buys. `None` when a bucket would give a negative amount or an
/// amount overflows.
pub open spec fn fill_sell(sell: Order, buy: Order, price: Decimal) -> Option<(Order, Order)> {
    let amount = sell.purse.amt()@;
    let paid = buy.payment.amt()@;
    match dec_of(dmul(price@, amount)) {
        None => None,
        Some(full) => if full@ <= paid {
            if full@ < 0 {
                None
            } else {
                match (add_to(sell.payment, full@), add_to(buy.purse, amount)) {
                    (Some(sp), Some(bp)) => Some(
                        (
                            Order { purse: Bucket::spec_new(sell.purse.res(), Decimal(0)), payment: sp, ..sell },
                            Order {
                                purse: bp,
                                payment: Bucket::spec_new(buy.payment.res(), Decimal((paid - full@) as i128)),
                                ..buy
                            },
                        ),
                    ),
                    _ => None,
                }
            }
        } else if price@ == 0 {
            None
        } else {
            match dec_of(ddiv(paid, price@)) {
                None => None,
                Some(part) => if 0 <= part@ <= amount {
                    match (add_to(sell.payment, paid), add_to(buy.purse, part@)) {
                        (Some(sp), Some(bp)) => Some(
                            (
                                Order {
                                    purse: Bucket::spec_new(sell.purse.res(), Decimal((amount - part@) as i128)),
                                    payment: sp,
                                    ..sell
                                },
                                Order { purse: bp, payment: Bucket::spec_new(buy.payment.res(), Decimal(0)), ..buy },
                            ),
                        ),
                        _ => None,
                    }
                } else {
                    None
                },
            }
        },
    }
}

/// Fills two orders of opposite sides against each other at `price`, and
/// gives them back in the order they came.
pub open spec fn fill_matched(a: Order, b: Order, price: Decimal) -> Option<(Order, Order)> {
    if a.buy == b.buy {
        None
    } else if a.buy {
        match fill_sell(b, a, price) {
            Some((b2, a2)) => Some((a2, b2)),
            None => None,
        }
    } else {
        fill_sell(a, b, price)
    }
}

/// Whether `sell_order` can fill `buy_order`: it still has tokens, it sells
/// the token bought, and it asks no more than the buyer bids, unless the
/// buyer takes any price.
pub open spec fn is_matching_sell(buy_order: Order, sell_order: Order) -> bool {
    if sell_order.filled() || sell_order.token.address != buy_order.token.address {
        false
    } else if buy_order.price@ == 0 {
        true
    } else {
        sell_order.price@ <= buy_order.price@
    }
}

/// Whether `buy_order` can fill `sell_order`: it can still pay, it buys the
/// token sold, and it bids at least what the seller asks, unless the seller
/// takes any price.
pub open spec fn is_matching_buy(sell_order: Order, buy_order: Order) -> bool {
    if buy_order.filled() || buy_order.token.address != sell_order.token.address {
        false
    } else if sell_order.price@ == 0 {
        true
    } else {
        buy_order.price@ >= sell_order.price@
    }
}

/// Whether the resting order `o` is one that `order` is filled against: an
/// order of the other side that passes the market's test. A new buy order
/// passes with a seller that either test accepts.
pub open spec fn matches(order: Order, o: Order) -> bool {
    o.buy != order.buy && ((order.buy && is_matching_sell(order, o)) || is_matching_buy(order, o))
}

/// Whether the resting order at `a` comes before the one at `b`: for a new
/// buy order the cheaper seller first, for a new sell order the dearer buyer
/// first, and between equal prices the older order first.
pub open spec fn ranks_before(buy: bool, book: Seq<Order>, a: usize, b: usize) -> bool {
    let pa = book[a as int].price@;
    let pb = book[b as int].price@;
    if buy {
        pa < pb || (pa == pb && a < b)
    } else {
        pa > pb || (pa == pb && a < b)
    }
}

/// `s` lists the positions of the resting orders that `order` is filled
/// against, each once, in the order the market visits them.
pub open spec fn sorted_matches(order: Order, book: Seq<Order>, s: Seq<usize>) -> bool {
    &&& forall|i: int| 0 <= i < s.len() ==> s[i] < book.len() && #[trigger] matches(order, book[s[i] as int])
    &&& forall|k: usize| k < book.len() && #[trigger] matches(order, book[k as int]) ==> s.contains(k)
    &&& forall|i: int, j: int| 0 <= i < j < s.len() ==> ranks_before(order.buy, book, #[trigger] s[i], #[trigger] s[j])
}

/// The positions of the resting orders that `order` is filled against, in
/// the order the market visits them.
pub open spec fn matching_orders(order: Order, book: Seq<Order>) -> Seq<usize> {
    choose|s: Seq<usize>| sorted_matches(order, book, s)
}

/// Fills `order` against the resting orders at `s[j..]`, one after the
/// other, each at its own price, until `order` is filled. Gives the order,
/// the book and the last price paid; `None` when a fill fails.
pub open spec fn fill_run(order: Order, book: Seq<Order>, s: Seq<usize>, j: int, last: Option<Decimal>) -> Option<
    (Order, Seq<Order>, Option<Decimal>),
>
    decreases s.len() - j,
{
    if j < 0 || j >= s.len() {
        Some((order, book, last))
    } else {
        let k = s[j] as int;
        let m = book[k];
        match fill_matched(order, m, m.price) {
            None => None,
            Some((o2, m2)) => if o2.filled() {
                Some((o2, book.update(k, m2), Some(m.price)))
            } else {
                fill_run(o2, book.update(k, m2), s, j + 1, Some(m.price))
            },
        }
    }
}

/// The book after `order` is filled against it and then added to it, and
/// the last price paid; `None` when a fill fails.
pub open spec fn place(book: Seq<Order>, order: Order) -> Option<(Seq<Order>, Option<Decimal>)> {
    match fill_run(order, book, matching_orders(order, book), 0, None) {
        Some((o, b, l)) => Some((b.push(o), l)),
        None => None,
    }
}

/// At most one list of positions is sorted and holds exactly the same
/// positions as another.
proof fn lemma_sorted_unique(buy: bool, book: Seq<Order>, s1: Seq<usize>, s2: Seq<usize>)
    requires
        forall|i: int, j: int| 0 <= i < j < s1.len() ==> ranks_before(buy, book, #[trigger] s1[i], #[trigger] s1[j]),
        forall|i: int, j: int| 0 <= i < j < s2.len() ==> ranks_before(buy, book, #[trigger] s2[i], #[trigger] s2[j]),
        forall|x: usize| s1.contains(x) <==> s2.contains(x),
    ensures
        s1 == s2,
    decreases s1.len(),
{
    if s1.len() == 0 {
        if s2.len() > 0 {
            assert(s2.contains(s2[0]));
        }
        assert(s1 =~= s2);
    } else {
        assert(s1.contains(s1[0]));
        assert(s2.len() > 0);
        assert(s2.contains(s2[0]));
        let p = choose|p: int| 0 <= p < s2.len() && s2[p] == s1[0];
        let q = choose|q: int| 0 <= q < s1.len() && s1[q] == s2[0];
        if p > 0 {
            assert(ranks_before(buy, book, s2[0], s2[p]));
            if q > 0 {
                assert(ranks_before(buy, book, s1[0], s1[q]));
            }
        }
        assert(s1[0] == s2[0]);
        let t1 = s1.drop_first();
        let t2 = s2.drop_first();
        assert forall|i: int, j: int| 0 <= i < j < t1.len() implies ranks_before(buy, book, #[trigger] t1[i], #[trigger] t1[j]) by {
            assert(t1[i] == s1[i + 1] && t1[j] == s1[j + 1]);
        }
        assert forall|i: int, j: int| 0 <= i < j < t2.len() implies ranks_before(buy, book, #[trigger] t2[i], #[trigger] t2[j]) by {
            assert(t2[i] == s2[i + 1] && t2[j] == s2[j + 1]);
        }
        assert forall|x: usize| t1.contains(x) <==> t2.contains(x) by {
            if t1.contains(x) {
                let i = choose|i: int| 0 <= i < t1.len() && t1[i] == x;
                assert(s1[i + 1] == x);
                assert(ranks_before(buy, book, s1[0], s1[i + 1]));
                assert(s1.contains(x));
                let r = choose|r: int| 0 <= r < s2.len() && s2[r] == x;
                assert(r != 0);
                assert(t2[r - 1] == x);
            }
            if t2.contains(x) {
                let i = choose|i: int| 0 <= i < t2.len() && t2[i] == x;
                assert(s2[i + 1] == x);
                assert(ranks_before(buy, book, s2[0], s2[i + 1]));
                assert(s2.contains(x));
                let r = choose|r: int| 0 <= r < s1.len() && s1[r] == x;
                assert(r != 0);
                assert(t1[r - 1] == x);
            }
        }
        lemma_sorted_unique(buy, book, t1, t2);
        assert(s1 =~= s2) by {
            assert forall|i: int| 0 <= i < s1.len() implies s1[i] == s2[i] by {
                if i > 0 {
                    assert(t1[i - 1] == s1[i]);
                    assert(t2[i - 1] == s2[i]);
                }
            }
        }
    }
}

/// The list of matching positions a new order is filled against is one and
/// only one.
pub proof fn lemma_matching_orders_unique(order: Order, book: Seq<Order>, s: Seq<usize>)
    requires
        sorted_matches(order, book, s),
    ensures
        matching_orders(order, book) == s,
{
    let c = matching_orders(order, book);
    assert(sorted_matches(order, book, c));
    assert forall|x: usize| s.contains(x) <==> c.contains(x) by {
        if s.contains(x) {
            let i = choose|i: int| 0 <= i < s.len() && s[i] == x;
            assert(matches(order, book[s[i] as int]));
        }
        if c.contains(x) {
            let i = choose|i: int| 0 <= i < c.len() && c[i] == x;
            assert(matches(order, book[c[i] as int]));
        }
    }
    lemma_sorted_unique(order.buy, book, s, c);
}


/// `b` with `a` more in it; `None` when the amount overflows.
fn bucket_add(b: Bucket, a: Decimal) -> (r: Option<Bucket>)
    requires
        a@ >= 0,
    ensures
        r == add_to(b, a@),
{
    let amt = b.amount();
    match amt.checked_add(a) {
        Some(d) => Some(Bucket::of(b.resource_address(), d)),
        None => None,
    }
}

/// Fills `sell` against `buy` at `price`.
fn fill_sell_order(sell: &Order, buy: &Order, price: Decimal) -> (r: Option<(Order, Order)>)
    ensures
        r == fill_sell(*sell, *buy, price),
{
    let amount = sell.purse.amount();
    let paid = buy.payment.amount();
    let full = match price.checked_mul(amount) {
        Some(f) => f,
        None => return None,
    };
    if full.0 <= paid.0 {
        if full.0 < 0 {
            return None;
        }
        let sp = match bucket_add(sell.payment, full) {
            Some(b) => b,
            None => return None,
        };
        let bp = match bucket_add(buy.purse, amount) {
            Some(b) => b,
            None => return None,
        };
        let s2 = sell.with_buckets(Bucket::empty(sell.purse.resource_address()), sp);
        let b2 = buy.with_buckets(bp, Bucket::of(buy.payment.resource_address(), Decimal(paid.0 - full.0)));
        Some((s2, b2))
    } else {
        if price.0 == 0 {
            return None;
        }
        let part = match paid.checked_div(price) {
            Some(p) => p,
            None => return None,
        };
        if part.0 < 0 || part.0 > amount.0 {
            return None;
        }
        let sp = match bucket_add(sell.payment, paid) {
            Some(b) => b,
            None => return None,
        };
        let bp = match bucket_add(buy.purse, part) {
            Some(b) => b,
            None => return None,
        };
        let s2 = sell.with_buckets(Bucket::of(sell.purse.resource_address(), Decimal(amount.0 - part.0)), sp);
        let b2 = buy.with_buckets(bp, Bucket::empty(buy.payment.resource_address()));
        Some((s2, b2))
    }
}

/// Fills two orders of opposite sides against each other at `price`.
fn fill_matched_order(order_a: &Order, order_b: &Order, price: Decimal) -> (r: Option<(Order, Order)>)
    ensures
        r == fill_matched(*order_a, *order_b, price),
{
    if order_a.is_buy_order() == order_b.is_buy_order() {
        return None;
    }
    if order_a.is_buy_order() && order_b.is_sell_order() {
        match fill_sell_order(order_b, order_a, price) {
            Some((b2, a2)) => Some((a2, b2)),
            None => None,
        }
    } else {
        fill_sell_order(order_a, order_b, price)
    }
}

fn is_matching_sell_order(buy_order: &Order, sell_order: &Order) -> (r: bool)
    ensures
        r == is_matching_sell(*buy_order, *sell_order),
{
    if sell_order.is_filled() || sell_order.token.address != buy_order.token.address {
        return false;
    }
    if buy_order.is_market_order() {
        return true;
    }
    sell_order.price.0 <= buy_order.price.0
}

fn is_matching_buy_order(sell_order: &Order, buy_order: &Order) -> (r: bool)
    ensures
        r == is_matching_buy(*sell_order, *buy_order),
{
    if buy_order.is_filled() || buy_order.token.address != sell_order.token.address {
        return false;
    }
    if sell_order.is_market_order() {
        return true;
    }
    buy_order.price.0 >= sell_order.price.0
}

fn is_match(order: &Order, o: &Order) -> (r: bool)
    ensures
        r == matches(*order, *o),
{
    let buy = order.is_buy_order();
    o.is_buy_order() != buy && ((buy && is_matching_sell_order(order, o)) || is_matching_buy_order(order, o))
}

fn comes_before(book: &Vec<Order>, buy: bool, a: usize, b: usize) -> (r: bool)
    requires
        a < book@.len(),
        b < book@.len(),
    ensures
        r == ranks_before(buy, book@, a, b),
{
    let pa = book[a].price.0;
    let pb = book[b].price.0;
    if buy {
        pa < pb || (pa == pb && a < b)
    } else {
        pa > pb || (pa == pb && a < b)
    }
}

/// The positions of the resting orders that `order` is filled against, in
/// the order the market visits them.
fn matching_positions(book: &Vec<Order>, order: &Order) -> (r: Vec<usize>)
    ensures
        sorted_matches(*order, book@, r@),
{
    let buy = order.is_buy_order();
    let mut s: Vec<usize> = Vec::new();
    let mut k: usize = 0;
    while k < book.len()
        invariant
            buy == order.buy,
            k <= book@.len(),
            forall|i: int| 0 <= i < s@.len() ==> #[trigger] s@[i] < k && matches(*order, book@[s@[i] as int]),
            forall|x: usize| x < k && #[trigger] matches(*order, book@[x as int]) ==> s@.contains(x),
            forall|i: int, j: int| 0 <= i < j < s@.len() ==> ranks_before(buy, book@, #[trigger] s@[i], #[trigger] s@[j]),
        decreases book@.len() - k,
    {
        if is_match(order, &book[k]) {
            let mut p: usize = 0;
            while p < s.len()
                invariant
                    k < book@.len(),
                    p <= s@.len(),
                    forall|i: int| 0 <= i < s@.len() ==> #[trigger] s@[i] < k,
                    forall|i: int| 0 <= i < p ==> ranks_before(buy, book@, #[trigger] s@[i], k),
                ensures
                    p <= s@.len(),
                    forall|i: int| 0 <= i < p ==> ranks_before(buy, book@, #[trigger] s@[i], k),
                    p < s@.len() ==> ranks_before(buy, book@, k, s@[p as int]),
                decreases s@.len() - p,
            {
                if comes_before(book, buy, k, s[p]) {
                    break;
                }
                assert(s@[p as int] < k);
                p = p + 1;
            }
            let ghost old_s = s@;
            s.insert(p, k);
            proof {
                let t = s@;
                assert forall|i: int, j: int| 0 <= i < j < t.len() implies ranks_before(buy, book@, #[trigger] t[i], #[trigger] t[j]) by {
                    if j < p {
                        assert(t[i] == old_s[i] && t[j] == old_s[j]);
                    } else if j == p {
                        assert(t[i] == old_s[i]);
                    } else if i < p {
                        assert(t[i] == old_s[i] && t[j] == old_s[j - 1]);
                    } else if i == p {
                        assert(t[j] == old_s[j - 1]);
                        if j - 1 > p {
                            assert(ranks_before(buy, book@, old_s[p as int], old_s[j - 1]));
                        }
                    } else {
                        assert(t[i] == old_s[i - 1] && t[j] == old_s[j - 1]);
                    }
                }
                assert forall|i: int| 0 <= i < t.len() implies t[i] < k + 1 && #[trigger] matches(*order, book@[t[i] as int]) by {
                    if i < p {
                        assert(t[i] == old_s[i]);
                    } else if i > p {
                        assert(t[i] == old_s[i - 1]);
                    }
                }
                assert forall|x: usize| x < k + 1 && #[trigger] matches(*order, book@[x as int]) implies t.contains(x) by {
                    if x == k {
                        assert(t[p as int] == k);
                    } else {
                        assert(old_s.contains(x));
                        let q = choose|q: int| 0 <= q < old_s.len() && old_s[q] == x;
                        if q < p {
                            assert(t[q] == x);
                        } else {
                            assert(t[q + 1] == x);
                        }
                    }
                }
            }
        }
        k = k + 1;
    }
    s
}

/// Fills `order` against the resting orders of `book` at the positions in
/// `s`, one after the other, until it is filled.
fn fill_order(order: Order, start: Vec<Order>, s: &Vec<usize>) -> (r: Option<(Order, Vec<Order>, Option<Decimal>)>)
    requires
        forall|i: int| 0 <= i < s@.len() ==> #[trigger] s@[i] < start@.len(),
    ensures
        match r {
            Some((o, b, l)) => fill_run(order, start@, s@, 0, None) == Some((o, b@, l)),
            None => fill_run(order, start@, s@, 0, None) is None,
        },
{
    let ghost order0 = order;
    let ghost book0 = start@;
    let mut cur = order;
    let mut book = start;
    let mut last: Option<Decimal> = None;
    let mut j: usize = 0;
    while j < s.len()
        invariant
            j <= s@.len(),
            book@.len() == book0.len(),
            forall|i: int| 0 <= i < s@.len() ==> #[trigger] s@[i] < book0.len(),
            fill_run(order0, book0, s@, 0, None) == fill_run(cur, book@, s@, j as int, last),
            order0 == order,
            book0 == start@,
        decreases s@.len() - j,
    {
        let k = s[j];
        let price = book[k].price;
        match fill_matched_order(&cur, &book[k], price) {
            None => {
                return None;
            },
            Some((o2, m2)) => {
                book.set(k, m2);
                if o2.is_filled() {
                    return Some((o2, book, Some(price)));
                }
                cur = o2;
                last = Some(price);
            },
        }
        j = j + 1;
    }
    Some((cur, book, last))
}



/// Two orders alike in all but the amounts in their buckets.
pub open spec fn same_shape(x: Order, y: Order) -> bool {
    &&& x.number == y.number
    &&& x.buy == y.buy
    &&& x.token == y.token
    &&& x.price == y.price
    &&& x.currency == y.currency
    &&& x.purse.res() == y.purse.res()
    &&& x.payment.res() == y.payment.res()
}

/// Filling moves amounts between the buckets of orders and changes nothing
/// else about them.
pub proof fn lemma_fill_run_shape(order: Order, book: Seq<Order>, s: Seq<usize>, j: int, last: Option<Decimal>)
    requires
        forall|i: int| 0 <= i < s.len() ==> #[trigger] s[i] < book.len(),
    ensures
        match fill_run(order, book, s, j, last) {
            Some((o, b, _)) => {
                &&& same_shape(o, order)
                &&& b.len() == book.len()
                &&& forall|i: int| 0 <= i < book.len() ==> same_shape(#[trigger] b[i], book[i])
            },
            None => true,
        },
    decreases s.len() - j,
{
    if j < 0 || j >= s.len() {
    } else {
        let k = s[j] as int;
        let m = book[k];
        match fill_matched(order, m, m.price) {
            None => {},
            Some((o2, m2)) => {
                let b2 = book.update(k, m2);
                assert forall|i: int| 0 <= i < s.len() implies #[trigger] s[i] < b2.len() by {}
                if !o2.filled() {
                    lemma_fill_run_shape(o2, b2, s, j + 1, Some(m.price));
                }
            },
        }
    }
}


/// How much of resource `r` the buckets of `o` hold.
pub open spec fn holds(o: Order, r: ResourceAddress) -> int {
    (if o.purse.res() == r { o.purse.amt()@ } else { 0 }) + (if o.payment.res() == r { o.payment.amt()@ } else { 0 })
}

/// How much of resource `r` the orders of `book` hold together.
pub open spec fn held(book: Seq<Order>, r: ResourceAddress) -> int
    decreases book.len(),
{
    if book.len() == 0 {
        0
    } else {
        held(book.drop_last(), r) + holds(book.last(), r)
    }
}

/// Replacing one order of a book changes what the book holds by the
/// difference between the two orders.
proof fn lemma_held_update(book: Seq<Order>, k: int, x: Order, r: ResourceAddress)
    requires
        0 <= k < book.len(),
    ensures
        held(book.update(k, x), r) == held(book, r) - holds(book[k], r) + holds(x, r),
    decreases book.len(),
{
    let u = book.update(k, x);
    if k == book.len() - 1 {
        assert(u.drop_last() =~= book.drop_last());
    } else {
        lemma_held_update(book.drop_last(), k, x, r);
        assert(u.drop_last() =~= book.drop_last().update(k, x));
    }
}

/// Removing one order of a book takes what it holds out of the book.
pub proof fn lemma_held_remove(book: Seq<Order>, k: int, r: ResourceAddress)
    requires
        0 <= k < book.len(),
    ensures
        held(book.remove(k), r) == held(book, r) - holds(book[k], r),
    decreases book.len(),
{
    let u = book.remove(k);
    if k == book.len() - 1 {
        assert(u =~= book.drop_last());
    } else {
        lemma_held_remove(book.drop_last(), k, r);
        assert(u.drop_last() =~= book.drop_last().remove(k));
        assert(u.last() == book.last());
    }
}

/// Filling a sell order against a buy order of the same token and currency
/// moves tokens and currency between them and creates or destroys none:
/// the two purses hold together what they held before, and so do the two
/// payments.
pub proof fn lemma_fill_sell_conserves(sell: Order, buy: Order, price: Decimal)
    requires
        fill_sell(sell, buy, price) is Some,
    ensures
        ({
            let (s2, b2) = fill_sell(sell, buy, price)->Some_0;
            &&& same_shape(s2, sell)
            &&& same_shape(b2, buy)
            &&& s2.purse.amt()@ + b2.purse.amt()@ == sell.purse.amt()@ + buy.purse.amt()@
            &&& s2.payment.amt()@ + b2.payment.amt()@ == sell.payment.amt()@ + buy.payment.amt()@
        }),
{
    let amount = sell.purse.amt()@;
    let paid = buy.payment.amt()@;
    let full = dec_of(dmul(price@, amount))->Some_0;
    if full@ <= paid {
        let sd = dec_of(sell.payment.amt()@ + full@)->Some_0;
        let bd = dec_of(buy.purse.amt()@ + amount)->Some_0;
        Bucket::lemma_spec_new(sell.payment.res(), sd);
        Bucket::lemma_spec_new(buy.purse.res(), bd);
        Bucket::lemma_spec_new(sell.purse.res(), Decimal(0));
        Bucket::lemma_spec_new(buy.payment.res(), Decimal((paid - full@) as i128));
    } else {
        let part = dec_of(ddiv(paid, price@))->Some_0;
        let sd = dec_of(sell.payment.amt()@ + paid)->Some_0;
        let bd = dec_of(buy.purse.amt()@ + part@)->Some_0;
        Bucket::lemma_spec_new(sell.payment.res(), sd);
        Bucket::lemma_spec_new(buy.purse.res(), bd);
        Bucket::lemma_spec_new(sell.purse.res(), Decimal((amount - part@) as i128));
        Bucket::lemma_spec_new(buy.payment.res(), Decimal(0));
    }
}

/// Whether `o` is of the other side than `order` and trades the same token.
pub open spec fn counterpart(order: Order, o: Order) -> bool {
    o.buy != order.buy && o.token.address == order.token.address
}

/// A book whose orders keep `token`s in their purses and `currency` in
/// their payments.
pub open spec fn book_consistent(book: Seq<Order>, currency: ResourceAddress) -> bool {
    forall|i: int| 0 <= i < book.len() ==> order_consistent(#[trigger] book[i], currency)
}

/// An order that keeps its token in its purse and `currency` in its payment.
pub open spec fn order_consistent(o: Order, currency: ResourceAddress) -> bool {
    o.purse.res() == o.token.address && o.payment.res() == currency
}

/// Filling an order against a book moves tokens and currency between the
/// order and the book and creates or destroys none.
proof fn lemma_fill_run_conserves(
    order: Order,
    book: Seq<Order>,
    s: Seq<usize>,
    j: int,
    last: Option<Decimal>,
    currency: ResourceAddress,
    r: ResourceAddress,
)
    requires
        forall|i: int| 0 <= i < s.len() ==> #[trigger] s[i] < book.len() && counterpart(order, book[s[i] as int]),
        book_consistent(book, currency),
        order_consistent(order, currency),
        fill_run(order, book, s, j, last) is Some,
    ensures
        ({
            let (o, b, _) = fill_run(order, book, s, j, last)->Some_0;
            held(b, r) + holds(o, r) == held(book, r) + holds(order, r)
        }),
    decreases s.len() - j,
{
    if j < 0 || j >= s.len() {
    } else {
        let k = s[j] as int;
        let m = book[k];
        assert(counterpart(order, book[s[j] as int]));
        let (o2, m2) = fill_matched(order, m, m.price)->Some_0;
        if order.buy {
            lemma_fill_sell_conserves(m, order, m.price);
        } else {
            lemma_fill_sell_conserves(order, m, m.price);
        }
        let b2 = book.update(k, m2);
        lemma_held_update(book, k, m2, r);
        if !o2.filled() {
            assert(order_consistent(o2, currency));
            assert forall|i: int| 0 <= i < b2.len() implies order_consistent(#[trigger] b2[i], currency) by {
                assert(order_consistent(book[i], currency));
            }
            assert forall|i: int| 0 <= i < s.len() implies #[trigger] s[i] < b2.len() && counterpart(o2, b2[s[i] as int]) by {
                assert(counterpart(order, book[s[i] as int]));
            }
            lemma_fill_run_conserves(o2, b2, s, j + 1, Some(m.price), currency, r);
        }
    }
}


/// The first position from `i` on where `x` ranks before the entry of `t`,
/// or the length of `t`.
spec fn first_after(buy: bool, book: Seq<Order>, t: Seq<usize>, x: usize, i: int) -> int
    decreases t.len() - i,
{
    if i < 0 || i >= t.len() {
        t.len() as int
    } else if ranks_before(buy, book, x, t[i]) {
        i
    } else {
        first_after(buy, book, t, x, i + 1)
    }
}

proof fn lemma_first_after(buy: bool, book: Seq<Order>, t: Seq<usize>, x: usize, i: int)
    requires
        0 <= i <= t.len(),
    ensures
        i <= first_after(buy, book, t, x, i) <= t.len(),
        forall|j: int| i <= j < first_after(buy, book, t, x, i) ==> !ranks_before(buy, book, x, #[trigger] t[j]),
        first_after(buy, book, t, x, i) < t.len() ==> ranks_before(buy, book, x, t[first_after(buy, book, t, x, i)]),
    decreases t.len() - i,
{
    if i < t.len() && !ranks_before(buy, book, x, t[i]) {
        lemma_first_after(buy, book, t, x, i + 1);
    }
}

/// The positions below `n` of the resting orders that `order` is filled
/// against, sorted in the order the market visits them.
proof fn lemma_sorted_prefix(order: Order, book: Seq<Order>, n: int) -> (s: Seq<usize>)
    requires
        0 <= n <= book.len(),
        book.len() <= usize::MAX,
    ensures
        forall|i: int| 0 <= i < s.len() ==> #[trigger] s[i] < n && matches(order, book[s[i] as int]),
        forall|k: usize| k < n && #[trigger] matches(order, book[k as int]) ==> s.contains(k),
        forall|i: int, j: int| 0 <= i < j < s.len() ==> ranks_before(order.buy, book, #[trigger] s[i], #[trigger] s[j]),
    decreases n,
{
    if n == 0 {
        Seq::empty()
    } else {
        let t = lemma_sorted_prefix(order, book, n - 1);
        let x = (n - 1) as usize;
        if !matches(order, book[x as int]) {
            t
        } else {
            let buy = order.buy;
            let p = first_after(buy, book, t, x, 0);
            lemma_first_after(buy, book, t, x, 0);
            let u = t.insert(p, x);
            assert forall|i: int, j: int| 0 <= i < j < u.len() implies ranks_before(buy, book, #[trigger] u[i], #[trigger] u[j]) by {
                if j < p {
                    assert(u[i] == t[i] && u[j] == t[j]);
                } else if j == p {
                    assert(u[i] == t[i]);
                    assert(t[i] < x);
                    assert(!ranks_before(buy, book, x, t[i]));
                } else if i < p {
                    assert(u[i] == t[i] && u[j] == t[j - 1]);
                } else if i == p {
                    assert(u[j] == t[j - 1]);
                    if j - 1 > p {
                        assert(ranks_before(buy, book, t[p], t[j - 1]));
                    }
                } else {
                    assert(u[i] == t[i - 1] && u[j] == t[j - 1]);
                }
            }
            assert forall|i: int| 0 <= i < u.len() implies #[trigger] u[i] < n && matches(order, book[u[i] as int]) by {
                if i < p {
                    assert(u[i] == t[i]);
                } else if i > p {
                    assert(u[i] == t[i - 1]);
                }
            }
            assert forall|k: usize| k < n && #[trigger] matches(order, book[k as int]) implies u.contains(k) by {
                if k == x {
                    assert(u[p] == x);
                } else {
                    assert(t.contains(k));
                    let q = choose|q: int| 0 <= q < t.len() && t[q] == k;
                    if q < p {
                        assert(u[q] == k);
                    } else {
                        assert(u[q + 1] == k);
                    }
                }
            }
            u
        }
    }
}

/// Every new order has a list of matching positions to be filled against.
pub proof fn lemma_matching_orders_exist(order: Order, book: Seq<Order>)
    requires
        book.len() <= usize::MAX,
    ensures
        sorted_matches(order, book, matching_orders(order, book)),
{
    let s = lemma_sorted_prefix(order, book, book.len() as int);
    assert(sorted_matches(order, book, s));
}

/// Placing an order creates or destroys no tokens: afterwards the book holds
/// of every resource what it held before and what the new order brought.
pub proof fn lemma_place_conserves(book: Seq<Order>, order: Order, currency: ResourceAddress, r: ResourceAddress)
    requires
        book.len() <= usize::MAX,
        book_consistent(book, currency),
        order_consistent(order, currency),
        place(book, order) is Some,
    ensures
        held(place(book, order)->Some_0.0, r) == held(book, r) + holds(order, r),
{
    let s = matching_orders(order, book);
    lemma_matching_orders_exist(order, book);
    assert forall|i: int| 0 <= i < s.len() implies #[trigger] s[i] < book.len() && counterpart(order, book[s[i] as int]) by {
        assert(matches(order, book[s[i] as int]));
    }
    lemma_fill_run_conserves(order, book, s, 0, None, currency, r);
    let (o, b, _) = fill_run(order, book, s, 0, None)->Some_0;
    assert(b.push(o).drop_last() =~= b);
}

/// The first position of the order numbered `n`, when there is one.
pub open spec fn order_position(book: Seq<Order>, n: i64) -> Option<int> {
    if exists|i: int| 0 <= i < book.len() && (#[trigger] book[i]).number == n {
        Some(
            choose|i: int|
                0 <= i < book.len() && (#[trigger] book[i]).number == n && forall|j: int|
                    0 <= j < i ==> (#[trigger] book[j]).number != n,
        )
    } else {
        None
    }
}

/// A new sell order of `tokens` of `token` at `price`.
pub open spec fn sell_order(number: i64, token: TokenRef, price: Decimal, tokens: Bucket, currency: TokenRef) -> Order {
    Order {
        number,
        buy: false,
        token,
        price,
        purse: tokens,
        payment: Bucket::spec_new(currency.address, Decimal(0)),
        currency,
    }
}

/// A new buy order of `token` at `price`, paid with `payment`.
pub open spec fn buy_order(number: i64, token: TokenRef, price: Decimal, payment: Bucket, currency: TokenRef) -> Order {
    Order {
        number,
        buy: true,
        token,
        price,
        purse: Bucket::spec_new(token.address, Decimal(0)),
        payment,
        currency,
    }
}

/// A marketplace: the orders it holds, the number of the last order, the
/// currency it trades in, the resource of its order tickets and the last
/// price paid for each token.
pub struct Market {
    order_count: i64,
    currency: TokenRef,
    ticket_resource: ResourceAddress,
    orders: Vec<Order>,
    market_prices: MarketPrices,
}

impl Market {
    pub closed spec fn count(&self) -> i64 {
        self.order_count
    }

    pub closed spec fn book(&self) -> Seq<Order> {
        self.orders@
    }

    pub closed spec fn currency_ref(&self) -> TokenRef {
        self.currency
    }

    pub closed spec fn tickets(&self) -> ResourceAddress {
        self.ticket_resource
    }

    pub closed spec fn prices(&self) -> MarketPrices {
        self.market_prices
    }

    /// The orders are numbered from one up to the last number given, no two
    /// alike; each holds its token in its purse and the currency in its
    /// payment; and no token has two prices.
    pub closed spec fn wf(&self) -> bool {
        &&& self.market_prices.wf()
        &&& self.order_count >= 0
        &&& forall|i: int| 0 <= i < self.orders@.len() ==> 1 <= (#[trigger] self.orders@[i]).number <= self.order_count
        &&& forall|i: int, j: int|
            0 <= i < j < self.orders@.len() ==> (#[trigger] self.orders@[i]).number != (#[trigger] self.orders@[j]).number
        &&& forall|i: int|
            0 <= i < self.orders@.len() ==> (#[trigger] self.orders@[i]).purse.res() == self.orders@[i].token.address
                && self.orders@[i].payment.res() == self.currency.address
                && self.orders@[i].currency == self.currency
    }

    /// Whether the market is `old` after an order numbered `number` was
    /// placed and filled, leaving the book `book` and the last price `last`.
    pub closed spec fn placed(&self, old: Market, number: i64, book: Seq<Order>, last: Option<Decimal>, symbol: Seq<char>) -> bool {
        &&& self.order_count == number
        &&& self.currency == old.currency
        &&& self.ticket_resource == old.ticket_resource
        &&& self.orders@ == book
        &&& match last {
            Some(p) => self.market_prices.price_of(symbol) == Some(p),
            None => self.market_prices.price_of(symbol) == old.market_prices.price_of(symbol),
        }
        &&& forall|q: Seq<char>| q != symbol ==> #[trigger] self.market_prices.price_of(q) == old.market_prices.price_of(q)
    }

    /// In a well-formed market every order keeps its token in its purse and
    /// the market's currency in its payment, and no two orders share a
    /// number.
    pub proof fn lemma_wf_book(&self)
        requires
            self.wf(),
        ensures
            book_consistent(self.book(), self.currency_ref().address),
            forall|i: int, j: int|
                0 <= i < j < self.book().len() ==> (#[trigger] self.book()[i]).number != (#[trigger] self.book()[j]).number,
            forall|i: int| 0 <= i < self.book().len() ==> 1 <= (#[trigger] self.book()[i]).number <= self.count(),
    {
        assert forall|i: int| 0 <= i < self.book().len() implies order_consistent(#[trigger] self.book()[i], self.currency_ref().address) by {
            assert(self.orders@[i].purse.res() == self.orders@[i].token.address);
        }
    }

    /// A market trading in `currency`, whose order tickets are tokens of
    /// `ticket_resource`.
    pub fn open(currency: TokenRef, ticket_resource: ResourceAddress) -> (r: Market)
        ensures
            r.wf(),
            r.count() == 0,
            r.currency_ref() == currency,
            r.tickets() == ticket_resource,
            r.book() == Seq::<Order>::empty(),
            forall|q: Seq<char>| #[trigger] r.prices().price_of(q) is None,
    {
        Market { order_count: 0, currency, ticket_resource, orders: Vec::new(), market_prices: MarketPrices::new() }
    }

    /// The symbol of the market's currency.
    pub fn base_currency(&self) -> (r: String)
        ensures
            r@ == self.currency_ref().symbol@,
    {
        self.currency.symbol.clone()
    }

    /// The resource of the market's order tickets.
    pub fn ticket_nft_address(&self) -> (r: ResourceAddress)
        ensures
            r == self.tickets(),
    {
        self.ticket_resource
    }

    /// The orders the market holds, oldest first.
    pub fn orders(&self) -> (r: &Vec<Order>)
        ensures
            r@ == self.book(),
    {
        &self.orders
    }

    /// The last price paid for each token.
    pub fn market_prices(&self) -> (r: &MarketPrices)
        ensures
            *r == self.prices(),
    {
        &self.market_prices
    }

    /// The ticket answered for the order numbered `number` of `token_address`.
    pub open spec fn ticket_for(&self, r: (NonFungible, OrderTicket), number: i64, token_address: ResourceAddress) -> bool {
        &&& r.0 == (NonFungible { resource: self.tickets(), id: number as u64 })
        &&& r.1.order_number == number
        &&& r.1.order_token_address == token_address
        &&& r.1.order_currency@ == self.currency_ref().symbol@
    }

    /// What placing `order` as the next order gives: the ticket, or why it
    /// is refused.
    pub open spec fn place_outcome(&self, old: Market, order: Order, r: Result<(NonFungible, OrderTicket), MarketError>) -> bool {
        if old.count() == i64::MAX {
            r == Err::<(NonFungible, OrderTicket), MarketError>(MarketError::TooManyOrders) && *self == old
        } else {
            match place(old.book(), order) {
                None => r == Err::<(NonFungible, OrderTicket), MarketError>(MarketError::FillFailed) && *self == old,
                Some((b, l)) => {
                    &&& self.placed(old, order.number, b, l, order.token.symbol@)
                    &&& r is Ok
                    &&& old.ticket_for(r->Ok_0, order.number, order.token.address)
                },
            }
        }
    }

    /// Places a sell order of `tokens`, which are of `token`, asking `price`
    /// apiece, or any price when it is zero. It is filled at once against
    /// the buy orders that match it, the best bid first, and the rest of it
    /// rests in the book.
    pub fn limit_sell(&mut self, tokens: Bucket, token: TokenRef, price: Decimal) -> (r: Result<(NonFungible, OrderTicket), MarketError>)
        requires
            old(self).wf(),
            tokens.res() == token.address,
        ensures
            final(self).wf(),
            final(self).place_outcome(
                *old(self),
                sell_order((old(self).count() + 1) as i64, token, price, tokens, old(self).currency_ref()),
                r,
            ),
    {
        if self.order_count == i64::MAX {
            return Err(MarketError::TooManyOrders);
        }
        let number = self.order_count + 1;
        let address = token.address;
        let order = Order {
            number,
            buy: false,
            token,
            price,
            purse: tokens,
            payment: Bucket::empty(self.currency.address),
            currency: self.currency.copy(),
        };
        let ticket = self.order_ticket(number, address);
        if self.create_limit_order(order) {
            Ok(ticket)
        } else {
            Err(MarketError::FillFailed)
        }
    }

    /// Places a buy order of `token` bidding `price` apiece, or any price
    /// when it is zero, paid with `payment`, which must be in the market's
    /// currency. It is filled at once against the sell orders that match
    /// it, and the rest of it rests in the book.
    pub fn limit_buy(&mut self, token: TokenRef, price: Decimal, payment: Bucket) -> (r: Result<(NonFungible, OrderTicket), MarketError>)
        requires
            old(self).wf(),
        ensures
            final(self).wf(),
            payment.res() != old(self).currency_ref().address ==> r == Err::<(NonFungible, OrderTicket), MarketError>(
                MarketError::WrongCurrency,
            ) && *final(self) == *old(self),
            payment.res() == old(self).currency_ref().address ==> final(self).place_outcome(
                *old(self),
                buy_order((old(self).count() + 1) as i64, token, price, payment, old(self).currency_ref()),
                r,
            ),
    {
        if payment.resource_address() != self.currency.address {
            return Err(MarketError::WrongCurrency);
        }
        if self.order_count == i64::MAX {
            return Err(MarketError::TooManyOrders);
        }
        let number = self.order_count + 1;
        let address = token.address;
        let order = Order {
            number,
            buy: true,
            purse: Bucket::empty(token.address),
            token,
            price,
            payment,
            currency: self.currency.copy(),
        };
        let ticket = self.order_ticket(number, address);
        if self.create_limit_order(order) {
            Ok(ticket)
        } else {
            Err(MarketError::FillFailed)
        }
    }

    /// Places a buy order of `token` that takes any price.
    pub fn market_buy(&mut self, token: TokenRef, payment: Bucket) -> (r: Result<(NonFungible, OrderTicket), MarketError>)
        requires
            old(self).wf(),
        ensures
            final(self).wf(),
            payment.res() != old(self).currency_ref().address ==> r == Err::<(NonFungible, OrderTicket), MarketError>(
                MarketError::WrongCurrency,
            ) && *final(self) == *old(self),
            payment.res() == old(self).currency_ref().address ==> final(self).place_outcome(
                *old(self),
                buy_order((old(self).count() + 1) as i64, token, Decimal(0), payment, old(self).currency_ref()),
                r,
            ),
    {
        self.limit_buy(token, Decimal(0), payment)
    }

    /// Places a sell order of `tokens` that takes any price.
    pub fn market_sell(&mut self, tokens: Bucket, token: TokenRef) -> (r: Result<(NonFungible, OrderTicket), MarketError>)
        requires
            old(self).wf(),
            tokens.res() == token.address,
        ensures
            final(self).wf(),
            final(self).place_outcome(
                *old(self),
                sell_order((old(self).count() + 1) as i64, token, Decimal(0), tokens, old(self).currency_ref()),
                r,
            ),
    {
        self.limit_sell(tokens, token, Decimal(0))
    }

    /// Withdraws the order that the ticket `ticket`, holding `data`, stands
    /// for, filled or not: gives what it bought or has left to sell, and
    /// what it has left to pay or received, and burns the ticket. When no
    /// order has the ticket's number, gives back two empty buckets and the
    /// ticket.
    pub fn withdraw_order(&mut self, ticket: NonFungible, data: OrderTicket) -> (r: Result<
        (Bucket, Bucket, Option<NonFungible>),
        MarketError,
    >)
        requires
            old(self).wf(),
        ensures
            final(self).wf(),
            match order_position(old(self).book(), data.order_number) {
                Some(i) => if ticket.resource == old(self).tickets() {
                    &&& r == Ok::<(Bucket, Bucket, Option<NonFungible>), MarketError>(
                        (old(self).book()[i].purse, old(self).book()[i].payment, None),
                    )
                    &&& final(self).book() == old(self).book().remove(i)
                    &&& final(self).count() == old(self).count()
                    &&& final(self).currency_ref() == old(self).currency_ref()
                    &&& final(self).tickets() == old(self).tickets()
                    &&& final(self).prices() == old(self).prices()
                } else {
                    r == Err::<(Bucket, Bucket, Option<NonFungible>), MarketError>(MarketError::NotATicket)
                        && *final(self) == *old(self)
                },
                None => {
                    &&& r == Ok::<(Bucket, Bucket, Option<NonFungible>), MarketError>(
                        (
                            Bucket::spec_new(data.order_token_address, Decimal(0)),
                            Bucket::spec_new(old(self).currency_ref().address, Decimal(0)),
                            Some(ticket),
                        ),
                    )
                    &&& *final(self) == *old(self)
                },
            },
    {
        let mut i: usize = 0;
        while i < self.orders.len()
            invariant
                i <= self.orders@.len(),
                forall|j: int| 0 <= j < i ==> (#[trigger] self.orders@[j]).number != data.order_number,
            ensures
                i <= self.orders@.len(),
                forall|j: int| 0 <= j < i ==> (#[trigger] self.orders@[j]).number != data.order_number,
                i < self.orders@.len() ==> self.orders@[i as int].number == data.order_number,
            decreases self.orders@.len() - i,
        {
            if self.orders[i].number == data.order_number {
                break;
            }
            i = i + 1;
        }
        if i < self.orders.len() {
            proof {
                let book = self.orders@;
                assert(book[i as int].number == data.order_number);
                let c = choose|c: int|
                    0 <= c < book.len() && (#[trigger] book[c]).number == data.order_number && forall|j: int|
                        0 <= j < c ==> (#[trigger] book[j]).number != data.order_number;
                assert(c == i as int) by {
                    if c < i {
                        assert(book[c].number != data.order_number);
                    }
                    if c > i {
                        assert(book[i as int].number != data.order_number);
                    }
                }
            }
            if ticket.resource != self.ticket_resource {
                return Err(MarketError::NotATicket);
            }
            let ghost before = self.orders@;
            let order = self.orders.remove(i);
            proof {
                let after = self.orders@;
                assert forall|a: int| 0 <= a < after.len() implies (#[trigger] after[a]) == before[if a < i { a } else { a + 1 }] by {}
                assert forall|a: int, b: int| 0 <= a < b < after.len() implies (#[trigger] after[a]).number != (#[trigger] after[b]).number by {
                    assert(after[a] == before[if a < i { a } else { a + 1 }]);
                    assert(after[b] == before[if b < i { b } else { b + 1 }]);
                }
            }
            Ok((order.purse, order.payment, None))
        } else {
            Ok((Bucket::empty(data.order_token_address), Bucket::empty(self.currency.address), Some(ticket)))
        }
    }

    /// A copy of the orders.
    fn copy_orders(&self) -> (r: Vec<Order>)
        ensures
            r@ == self.orders@,
    {
        let mut r: Vec<Order> = Vec::new();
        let mut i: usize = 0;
        while i < self.orders.len()
            invariant
                i <= self.orders@.len(),
                r@ == self.orders@.subrange(0, i as int),
            decreases self.orders@.len() - i,
        {
            let o = &self.orders[i];
            r.push(o.with_buckets(o.purse, o.payment));
            i = i + 1;
        }
        assert(self.orders@.subrange(0, self.orders@.len() as int) =~= self.orders@);
        r
    }

    /// The ticket of the order numbered `order_number`.
    fn order_ticket(&self, order_number: i64, token_address: ResourceAddress) -> (r: (NonFungible, OrderTicket))
        requires
            order_number >= 1,
        ensures
            r.0 == (NonFungible { resource: self.ticket_resource, id: order_number as u64 }),
            r.1.order_number == order_number,
            r.1.order_token_address == token_address,
            r.1.order_currency@ == self.currency.symbol@,
    {
        let ticket = OrderTicket { order_number, order_token_address: token_address, order_currency: self.base_currency() };
        (NonFungible { resource: self.ticket_resource, id: order_number as u64 }, ticket)
    }

    /// Fills the new order `order` against the book and adds it to the book.
    /// On `false` the market is unchanged.
    fn create_limit_order(&mut self, order: Order) -> (r: bool)
        requires
            old(self).wf(),
            order.number == old(self).order_count + 1,
            order.purse.res() == order.token.address,
            order.payment.res() == old(self).currency.address,
            order.currency == old(self).currency,
        ensures
            final(self).wf(),
            r == place(old(self).orders@, order) is Some,
            r ==> match place(old(self).orders@, order) {
                Some((b, l)) => final(self).placed(*old(self), order.number, b, l, order.token.symbol@),
                None => false,
            },
            !r ==> *final(self) == *old(self),
    {
        let number = order.number;
        let s = matching_positions(&self.orders, &order);
        proof {
            lemma_matching_orders_unique(order, self.orders@, s@);
        }
        let start = self.copy_orders();
        let ghost book0 = self.orders@;
        assert forall|i: int| 0 <= i < s@.len() implies #[trigger] s@[i] < book0.len() by {
            assert(matches(order, book0[s@[i] as int]));
        }
        match fill_order(order, start, &s) {
            None => false,
            Some((o, b, last)) => {
                proof {
                    lemma_fill_run_shape(order, book0, s@, 0, None);
                }
                let symbol = o.token_symbol();
                let mut b = b;
                b.push(o);
                self.orders = b;
                self.order_count = number;
                match last {
                    Some(p) => self.market_prices.update(symbol, p),
                    None => {},
                }
                true
            },
        }
    }
}

} // verus!
