//! Verified models of a collection of Radix DeFi components: fixed-point
//! decimals, bonding curves, constant-product pools, an order book, lending
//! accounts, real estate rights and their market, and several small
//! vault-keeping components.
//!
//! Each component is held as plain state (amounts, addresses, ids) and each
//! of its methods is a function from that state and the call's inputs to the
//! next state and the amounts that leave the component.
#![allow(unused_imports)]

pub mod bignum;
pub mod decimal;
pub mod bonding;
pub mod resource;
pub mod amm;
pub mod orderbook;
pub mod trading_pair;
pub mod pool;
pub mod trustmore;
pub mod gumball;
pub mod awesome;
pub mod savings;
pub mod lending;
pub mod estate;
pub mod estate_service;
pub mod estate_institute;
pub mod estate_market;
pub mod hello_token;
pub mod hello_land;
pub mod market;
pub mod platform;
pub mod labels;
pub mod curves;
pub mod dao;
pub mod marketplace;
pub mod timelock;
pub mod crowdsourcing;
pub mod donations;
pub mod insurance;
pub mod krulkswap;
pub mod flashloan;
pub mod loanpool;
pub mod singlepool;
pub mod dex;
pub mod candy;
