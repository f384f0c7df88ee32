//! The data of a marketplace: its orders, the tickets that stand for them,
//! and the last known prices of its assets by symbol.
use vstd::prelude::*;
use crate::decimal::Decimal;
use crate::resource::{Bucket, ResourceAddress};

verus! {

/// A resource with the symbol its metadata gives it.
#[derive(Clone, Debug)]
pub struct TokenRef {
    pub address: ResourceAddress,
    pub symbol: String,
}

impl TokenRef {
    /// A copy of the reference.
    pub fn copy(&self) -> (r: TokenRef)
        ensures
            r == *self,
    {
        TokenRef { address: self.address, symbol: self.symbol.clone() }
    }
}

/// An order of the marketplace.
pub struct Order {
    /// Order number, counted from one.
    pub number: i64,
    /// Whether the order buys; otherwise it sells.
    pub buy: bool,
    /// The token bought or sold.
    pub token: TokenRef,
    /// The price per token in the market's currency; zero for a market
    /// order.
    pub price: Decimal,
    /// The tokens bought, or still to be sold.
    pub purse: Bucket,
    /// The market's currency still to be paid, or received.
    pub payment: Bucket,
    /// The market's currency.
    pub currency: TokenRef,
}

/// The ticket a trader receives for an order.
#[derive(Clone, Debug)]
pub struct OrderTicket {
    pub order_number: i64,
    pub order_token_address: ResourceAddress,
    pub order_currency: String,
}

impl Order {
    /// The same order holding the given purse and payment.
    pub fn with_buckets(&self, purse: Bucket, payment: Bucket) -> (r: Order)
        ensures
            r == (Order { purse, payment, ..*self }),
    {
        Order {
            number: self.number,
            buy: self.buy,
            token: self.token.copy(),
            price: self.price,
            purse,
            payment,
            currency: self.currency.copy(),
        }
    }

    /// Whether the order is done: a buy order whose payment is spent or no
    /// longer covers the price, or a sell order with nothing left to sell.
    pub open spec fn filled(&self) -> bool {
        if self.buy {
            self.payment.amt()@ == 0 || self.payment.amt()@ < self.price@
        } else {
            self.purse.amt()@ == 0
        }
    }

    /// The symbol of the token traded.
    pub fn token_symbol(&self) -> (r: String)
        ensures
            r@ == self.token.symbol@,
    {
        self.token.symbol.clone()
    }

    /// The symbol of the market's currency.
    pub fn currency(&self) -> (r: String)
        ensures
            r@ == self.currency.symbol@,
    {
        self.currency.symbol.clone()
    }

    pub fn is_filled(&self) -> (r: bool)
        ensures
            r == self.filled(),
    {
        if self.buy {
            self.payment.amount().0 == 0 || self.payment.amount().0 < self.price.0
        } else {
            self.purse.is_empty()
        }
    }

    /// Whether the order takes any price.
    pub fn is_market_order(&self) -> (r: bool)
        ensures
            r == (self.price@ == 0),
    {
        self.price.0 == 0
    }

    pub fn is_buy_order(&self) -> (r: bool)
        ensures
            r == self.buy,
    {
        self.buy
    }

    pub fn is_sell_order(&self) -> (r: bool)
        ensures
            r == !self.buy,
    {
        !self.is_buy_order()
    }
}

/// The price of one asset.
#[derive(Clone, Debug)]
pub struct PriceEntry {
    pub symbol: String,
    pub price: Decimal,
}

/// The last known price of each asset, by symbol.
pub struct MarketPrices {
    asset_prices: Vec<PriceEntry>,
}

/// The position of the price of `symbol`.
pub open spec fn price_index(s: Seq<PriceEntry>, symbol: Seq<char>) -> Option<int> {
    if exists|i: int| 0 <= i < s.len() && (#[trigger] s[i]).symbol@ == symbol {
        Some(choose|i: int| 0 <= i < s.len() && (#[trigger] s[i]).symbol@ == symbol)
    } else {
        None
    }
}

impl MarketPrices {
    pub closed spec fn entries(&self) -> Seq<PriceEntry> {
        self.asset_prices@
    }

    /// The price of `symbol`, when known.
    pub open spec fn price_of(&self, symbol: Seq<char>) -> Option<Decimal> {
        match price_index(self.entries(), symbol) {
            Some(i) => Some(self.entries()[i].price),
            None => None,
        }
    }

    /// No symbol has two prices.
    pub closed spec fn wf(&self) -> bool {
        forall|i: int, j: int| 0 <= i < j < self.asset_prices@.len() ==> (#[trigger] self.asset_prices@[i]).symbol@
            != (#[trigger] self.asset_prices@[j]).symbol@
    }

    /// No prices yet.
    pub fn new() -> (r: MarketPrices)
        ensures
            r.wf(),
            r.entries().len() == 0,
            forall|s: Seq<char>| r.price_of(s) is None,
    {
        MarketPrices { asset_prices: Vec::new() }
    }

    /// The symbols with a price, in the order they were first priced.
    pub fn assets(&self) -> (r: Vec<String>)
        ensures
            r@.len() == self.entries().len(),
            forall|i: int| 0 <= i < r@.len() ==> (#[trigger] r@[i])@ == self.entries()[i].symbol@,
    {
        let mut r: Vec<String> = Vec::new();
        let mut i: usize = 0;
        while i < self.asset_prices.len()
            invariant
                i <= self.asset_prices@.len(),
                r@.len() == i,
                forall|j: int| 0 <= j < i ==> (#[trigger] r@[j])@ == self.asset_prices@[j].symbol@,
            decreases self.asset_prices@.len() - i,
        {
            r.push(self.asset_prices[i].symbol.clone());
            i = i + 1;
        }
        r
    }

    fn find(&self, symbol: &String) -> (r: Option<usize>)
        requires
            self.wf(),
        ensures
            match r {
                Some(i) => i < self.entries().len() && price_index(self.entries(), symbol@) == Some(i as int),
                None => price_index(self.entries(), symbol@) is None,
            },
    {
        let ghost s = self.asset_prices@;
        let mut i: usize = 0;
        while i < self.asset_prices.len()
            invariant
                i <= s.len(),
                s == self.asset_prices@,
                self.wf(),
                forall|j: int| 0 <= j < i ==> (#[trigger] s[j]).symbol@ != symbol@,
            decreases s.len() - i,
        {
            if self.asset_prices[i].symbol == *symbol {
                proof {
                    let c = choose|c: int| 0 <= c < s.len() && (#[trigger] s[c]).symbol@ == symbol@;
                    if c > i {
                        assert(s[i as int].symbol@ != s[c].symbol@);
                    }
                }
                return Some(i);
            }
            i = i + 1;
        }
        None
    }

    /// The price of `asset_symbol`.
    pub fn get(&self, asset_symbol: String) -> (r: Option<Decimal>)
        requires
            self.wf(),
        ensures
            r == self.price_of(asset_symbol@),
    {
        match self.find(&asset_symbol) {
            Some(i) => Some(self.asset_prices[i].price),
            None => None,
        }
    }

    /// The price of the asset with the given address, by its symbol.
    pub fn for_address(&self, token: &TokenRef) -> (r: Option<Decimal>)
        requires
            self.wf(),
        ensures
            r == self.price_of(token.symbol@),
    {
        self.get(token.symbol.clone())
    }

    /// Sets the price of `asset_symbol`.
    pub fn update(&mut self, asset_symbol: String, price: Decimal)
        requires
            old(self).wf(),
        ensures
            final(self).wf(),
            final(self).price_of(asset_symbol@) == Some(price),
            forall|s: Seq<char>| s != asset_symbol@ ==> #[trigger] final(self).price_of(s) == old(self).price_of(s),
    {
        let ghost s = self.asset_prices@;
        match self.find(&asset_symbol) {
            Some(i) => {
                let ghost sym = asset_symbol@;
                self.asset_prices.set(i, PriceEntry { symbol: asset_symbol, price });
                proof {
                    let t = self.asset_prices@;
                    assert forall|a: int, b: int| 0 <= a < b < t.len() implies (#[trigger] t[a]).symbol@ != (#[trigger] t[b]).symbol@ by {
                        assert(s[a].symbol@ != s[b].symbol@);
                    }
                    assert(t[i as int].symbol@ == sym);
                    assert forall|q: Seq<char>| q != sym implies #[trigger] self.price_of(q) == old(self).price_of(q) by {
                        if exists|k: int| 0 <= k < s.len() && (#[trigger] s[k]).symbol@ == q {
                            let k = choose|k: int| 0 <= k < s.len() && (#[trigger] s[k]).symbol@ == q;
                            assert(t[k].symbol@ == q);
                        }
                        if exists|k: int| 0 <= k < t.len() && (#[trigger] t[k]).symbol@ == q {
                            let k = choose|k: int| 0 <= k < t.len() && (#[trigger] t[k]).symbol@ == q;
                            assert(s[k].symbol@ == q);
                        }
                    }
                }
            },
            None => {
                let ghost sym = asset_symbol@;
                self.asset_prices.push(PriceEntry { symbol: asset_symbol, price });
                proof {
                    let t = self.asset_prices@;
                    assert forall|a: int, b: int| 0 <= a < b < t.len() implies (#[trigger] t[a]).symbol@ != (#[trigger] t[b]).symbol@ by {
                        if b == s.len() {
                            assert(t[a].symbol@ == s[a].symbol@);
                        } else {
                            assert(s[a].symbol@ != s[b].symbol@);
                        }
                    }
                    assert(t[s.len() as int].symbol@ == sym);
                    assert forall|q: Seq<char>| q != sym implies #[trigger] self.price_of(q) == old(self).price_of(q) by {
                        if exists|k: int| 0 <= k < s.len() && (#[trigger] s[k]).symbol@ == q {
                            let k = choose|k: int| 0 <= k < s.len() && (#[trigger] s[k]).symbol@ == q;
                            assert(t[k].symbol@ == q);
                        }
                        if exists|k: int| 0 <= k < t.len() && (#[trigger] t[k]).symbol@ == q {
                            let k = choose|k: int| 0 <= k < t.len() && (#[trigger] t[k]).symbol@ == q;
                            assert(s[k].symbol@ == q);
                        }
                    }
                }
            },
        }
    }
}

} // verus!
