//! A verified core for a small point-of-sale / membership backend:
//! accounts with balances, a goods catalog with stock, an atomic
//! multi-item purchase workflow, a per-month consumption ledger,
//! a lost-and-found register, and internal messaging.

use vstd::prelude::*;

pub mod accounts;
pub mod clock;
pub mod credentials;
pub mod dates;
pub mod goods;
pub mod laws;
pub mod db_config;
pub mod lost_items;
pub mod messages;
pub mod model;
pub mod purchase;
pub mod validate;

verus! {

} // verus!
