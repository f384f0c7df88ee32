//! Names of tokens and token pairs: the symbol a token's metadata gives
//! it, or its address where it has none.
use vstd::prelude::*;
use vstd::string::StringExecFns;
use crate::resource::ResourceAddress;

verus! {

/// A resource as the ledger describes it: its address, the symbol in its
/// metadata if any, and its address written out.
#[derive(Clone, Debug)]
pub struct TokenInfo {
    pub address: ResourceAddress,
    pub symbol: Option<String>,
    pub address_text: String,
}

/// The name of a token: its symbol, or else its address written out.
pub open spec fn token_label(t: TokenInfo) -> Seq<char> {
    match t.symbol {
        Some(s) => s@,
        None => t.address_text@,
    }
}

/// The symbol of a pair of tokens: their names, the one with the greater
/// address first, joined by a hyphen.
pub open spec fn pair_symbol(t1: TokenInfo, t2: TokenInfo) -> Seq<char> {
    let (a, b) = if t1.address.0 > t2.address.0 {
        (t1, t2)
    } else {
        (t2, t1)
    };
    token_label(a) + seq!['-'] + token_label(b)
}

fn label(t: &TokenInfo) -> (r: &String)
    ensures
        r@ == token_label(*t),
{
    match &t.symbol {
        Some(s) => s,
        None => &t.address_text,
    }
}

/// The symbol of two tokens does not depend on the order in which they are
/// given, as long as a token's label is a function of its address: two
/// infos of one address carry the same label.
pub proof fn lemma_pair_symbol_symmetric(t1: TokenInfo, t2: TokenInfo)
    requires
        t1.address == t2.address ==> token_label(t1) == token_label(t2),
    ensures
        pair_symbol(t1, t2) == pair_symbol(t2, t1),
{
}

/// The symbol of the pair of two tokens.
pub fn address_pair_symbol(token1: &TokenInfo, token2: &TokenInfo) -> (r: String)
    ensures
        r@ == pair_symbol(*token1, *token2),
{
    let (a, b) = if token1.address.0 > token2.address.0 {
        (token1, token2)
    } else {
        (token2, token1)
    };
    let mut r = String::new();
    r.append(label(a).as_str());
    proof {
        reveal_strlit("-");
    }
    r.append("-");
    r.append(label(b).as_str());
    r
}

/// A candy token of the exchange with the meta token that stands for it.
#[derive(Clone, Debug)]
pub struct MetaToken {
    candy_name: String,
    candy_symbol: String,
    candy_address: ResourceAddress,
    meta_res_def: ResourceAddress,
}

impl MetaToken {
    pub closed spec fn name(&self) -> Seq<char> {
        self.candy_name@
    }

    pub closed spec fn symbol(&self) -> Seq<char> {
        self.candy_symbol@
    }

    pub closed spec fn candy(&self) -> ResourceAddress {
        self.candy_address
    }

    pub closed spec fn meta(&self) -> ResourceAddress {
        self.meta_res_def
    }

    pub fn new(candy_name: String, candy_symbol: String, candy_address: ResourceAddress, meta_res_def: ResourceAddress) -> (r: MetaToken)
        ensures
            r.name() == candy_name@,
            r.symbol() == candy_symbol@,
            r.candy() == candy_address,
            r.meta() == meta_res_def,
    {
        MetaToken { candy_name, candy_symbol, candy_address, meta_res_def }
    }
}

} // verus!
