use vstd::prelude::*;

pub mod agg_book;
pub mod api;
pub mod book;
pub mod bs;
pub mod calendar;
pub mod clock;
pub mod decimal;
pub mod digest;
pub mod evm;
pub mod ledger;
pub mod lexi;
pub mod market;
pub mod models;
pub mod order_id;
pub mod rate_limits;
pub mod rate_tier;
pub mod tasks;
pub mod telegram;
pub mod venue;
pub mod ws_book;
pub mod text;

verus! {

} // verus!
