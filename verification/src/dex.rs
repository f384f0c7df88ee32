//! The exchange's register of trading pairs: admins list pairs, and users
//! look up the component that trades a pair.
use vstd::prelude::*;
use crate::orderbook::OrderError;
use crate::resource::{ComponentAddress, Proof, ResourceAddress, ResourceType};
use crate::trading_pair::TradingPair;

verus! {

/// A trading pair on the register: its base and quote resources and the
/// component that trades them.
#[derive(Clone, Copy, Debug, PartialEq, Eq, Structural)]
pub struct TradingPairInfo {
    pub base_resource_address: ResourceAddress,
    pub quote_resource_address: ResourceAddress,
    pub component_address: ComponentAddress,
}

/// The position of the pair of `base` and `quote`, in that order.
pub open spec fn pair_index(s: Seq<TradingPairInfo>, base: ResourceAddress, quote: ResourceAddress) -> Option<int> {
    if exists|i: int| 0 <= i < s.len() && (#[trigger] s[i]).base_resource_address == base && s[i].quote_resource_address == quote {
        Some(
            choose|i: int|
                0 <= i < s.len() && (#[trigger] s[i]).base_resource_address == base && s[i].quote_resource_address
                    == quote,
        )
    } else {
        None
    }
}

/// The register of trading pairs.
pub struct Dex {
    admin_badge: ResourceAddress,
    trading_pairs: Vec<TradingPairInfo>,
}

impl Dex {
    pub closed spec fn pairs(&self) -> Seq<TradingPairInfo> {
        self.trading_pairs@
    }

    /// The admin badge, which alone lists pairs.
    pub closed spec fn admin(&self) -> ResourceAddress {
        self.admin_badge
    }

    /// No pair is listed twice in the same order; the reverse of a listed
    /// pair may be listed too.
    pub closed spec fn wf(&self) -> bool {
        forall|i: int, j: int|
            0 <= i < j < self.trading_pairs@.len() ==> !((#[trigger] self.trading_pairs@[i]).base_resource_address
                == (#[trigger] self.trading_pairs@[j]).base_resource_address
                && self.trading_pairs@[i].quote_resource_address == self.trading_pairs@[j].quote_resource_address)
    }

    /// An empty register whose admin badge is `admin_badge`.
    pub fn instantiate(admin_badge: ResourceAddress) -> (r: Dex)
        ensures
            r.wf(),
            r.pairs() == Seq::<TradingPairInfo>::empty(),
            r.admin() == admin_badge,
    {
        Dex { admin_badge, trading_pairs: Vec::new() }
    }

    fn find(&self, base: ResourceAddress, quote: ResourceAddress) -> (r: Option<usize>)
        requires
            self.wf(),
        ensures
            match r {
                Some(i) => i < self.trading_pairs@.len() && pair_index(self.trading_pairs@, base, quote) == Some(i as int),
                None => pair_index(self.trading_pairs@, base, quote) is None,
            },
    {
        let mut i: usize = 0;
        while i < self.trading_pairs.len()
            invariant
                i <= self.trading_pairs@.len(),
                self.wf(),
                forall|j: int|
                    0 <= j < i ==> !((#[trigger] self.trading_pairs@[j]).base_resource_address == base
                        && self.trading_pairs@[j].quote_resource_address == quote),
            decreases self.trading_pairs@.len() - i,
        {
            let t = self.trading_pairs[i];
            if t.base_resource_address == base && t.quote_resource_address == quote {
                proof {
                    let s = self.trading_pairs@;
                    let c = choose|c: int|
                        0 <= c < s.len() && (#[trigger] s[c]).base_resource_address == base && s[c].quote_resource_address
                            == quote;
                    if c < i {
                        assert(!(s[c].base_resource_address == base && s[c].quote_resource_address == quote));
                    } else if c > i {
                        assert(!(s[i as int].base_resource_address == s[c].base_resource_address
                            && s[i as int].quote_resource_address == s[c].quote_resource_address));
                    }
                }
                return Some(i);
            }
            i = i + 1;
        }
        None
    }

    /// Lists a new trading pair of `base_resource_address` and
    /// `quote_resource_address`, traded by a new component at
    /// `component_address`, and gives that component. The same pair cannot
    /// be listed twice.
    pub fn add_trading_pair(
        &mut self,
        auth: Proof,
        base_resource_address: ResourceAddress,
        base_type: ResourceType,
        quote_resource_address: ResourceAddress,
        quote_type: ResourceType,
        component_address: ComponentAddress,
    ) -> (r: Result<TradingPair, OrderError>)
        requires
            old(self).wf(),
        ensures
            !(auth.shows(old(self).admin())) ==> r == Err::<TradingPair, OrderError>(OrderError::Unauthorized) && *final(self) == *old(self),
            final(self).wf(),
            r is Err ==> *final(self) == *old(self),
            (auth.shows(old(self).admin())) ==> (if pair_index(old(self).pairs(), base_resource_address, quote_resource_address) is Some {
                r matches Err(e) && e == OrderError::TradingPairExists
            } else if base_type is NonFungible || quote_type is NonFungible {
                r matches Err(e) && e == OrderError::NonFungibleResource
            } else {
                &&& r matches Ok(p) && p.wf() && p.base_resource() == base_resource_address && p.quote_resource()
                    == quote_resource_address
                &&& final(self).admin() == old(self).admin()
                &&& final(self).pairs() == old(self).pairs().push(
                    TradingPairInfo { base_resource_address, quote_resource_address, component_address },
                )
            }),
    {
        if !auth.check(self.admin_badge) {
            return Err(OrderError::Unauthorized);
        }
        if self.find(base_resource_address, quote_resource_address).is_some() {
            return Err(OrderError::TradingPairExists);
        }
        let pair = match TradingPair::instantiate(base_resource_address, base_type, quote_resource_address, quote_type) {
            Ok(p) => p,
            Err(e) => return Err(e),
        };
        let ghost before = self.trading_pairs@;
        self.trading_pairs.push(TradingPairInfo { base_resource_address, quote_resource_address, component_address });
        proof {
            let s = self.trading_pairs@;
            assert forall|i: int, j: int| 0 <= i < j < s.len() implies !((#[trigger] s[i]).base_resource_address
                == (#[trigger] s[j]).base_resource_address && s[i].quote_resource_address == s[j].quote_resource_address) by {
                if j == before.len() {
                    assert(s[i] == before[i]);
                    if before[i].base_resource_address == base_resource_address && before[i].quote_resource_address
                        == quote_resource_address {
                        assert(exists|k: int| 0 <= k < before.len() && (#[trigger] before[k]).base_resource_address
                            == base_resource_address && before[k].quote_resource_address == quote_resource_address);
                    }
                } else {
                    assert(s[i] == before[i] && s[j] == before[j]);
                }
            }
        }
        Ok(pair)
    }

    /// All the trading pairs on the register, in the order they were listed.
    pub fn get_trading_pairs(&self) -> (r: Vec<TradingPairInfo>)
        ensures
            r@ == self.pairs(),
    {
        self.trading_pairs.clone()
    }

    /// The component that trades `base_resource_address` for
    /// `quote_resource_address`, when the pair is listed in that order.
    pub fn get_trading_pair_component_address(
        &self,
        base_resource_address: ResourceAddress,
        quote_resource_address: ResourceAddress,
    ) -> (r: Option<ComponentAddress>)
        requires
            self.wf(),
        ensures
            match pair_index(self.pairs(), base_resource_address, quote_resource_address) {
                Some(i) => r == Some(self.pairs()[i].component_address),
                None => r is None,
            },
    {
        match self.find(base_resource_address, quote_resource_address) {
            Some(i) => Some(self.trading_pairs[i].component_address),
            None => None,
        }
    }
}

} // verus!
