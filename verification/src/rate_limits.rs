//! Per-account request budgets by exchange and tier.

use vstd::prelude::*;
use crate::rate_tier::RateTier;
use crate::text::{append_str, str_eq, string_from_chars};

verus! {

/// An account's request budget, in requests (or tokens) per second.
#[derive(Debug, Clone, Copy, PartialEq, Eq, Structural)]
pub struct AccountLimits {
    /// Burst capacity (most tokens held at once).
    pub burst: u32,
    /// Sustained refill rate of the general budget.
    pub sustained: u32,
    /// Order placements per second.
    pub order_rps: u32,
    /// Cancellations per second.
    pub cancel_rps: u32,
}

/// The position of a tier from the lowest (`Tier1`) to the highest
/// (`MarketMaker`).
pub open spec fn tier_rank(t: RateTier) -> int {
    match t {
        RateTier::Tier1 => 0,
        RateTier::Tier2 => 1,
        RateTier::Vip1 => 2,
        RateTier::Vip2 => 3,
        RateTier::Vip3 => 4,
        RateTier::Vip4 => 5,
        RateTier::Vip5 => 6,
        RateTier::MarketMaker => 7,
    }
}

/// A budget from its four rates.
pub open spec fn budget(burst: u32, sustained: u32, order_rps: u32, cancel_rps: u32) -> AccountLimits {
    AccountLimits { burst, sustained, order_rps, cancel_rps }
}

/// The budget table of one exchange, by tier rank (0 to 7).
pub open spec fn table_row(exchange: Seq<char>, rank: int) -> AccountLimits {
    if exchange == "deribit"@ {
        if rank == 0 { budget(20, 10, 10, 10) }
        else if rank == 1 { budget(40, 20, 20, 20) }
        else if rank == 2 { budget(100, 50, 50, 50) }
        else if rank == 3 { budget(200, 100, 100, 100) }
        else if rank == 4 { budget(400, 200, 200, 200) }
        else if rank == 5 { budget(800, 500, 500, 500) }
        else if rank == 6 { budget(1000, 1000, 1000, 1000) }
        else { budget(2000, 2000, 2000, 2000) }
    } else if exchange == "bybit"@ {
        if rank == 0 { budget(20, 10, 10, 10) }
        else if rank == 1 { budget(40, 20, 20, 20) }
        else if rank == 2 { budget(60, 30, 30, 30) }
        else if rank == 3 { budget(80, 40, 40, 40) }
        else if rank == 4 { budget(100, 50, 50, 50) }
        else if rank == 5 { budget(120, 60, 60, 60) }
        else if rank == 6 { budget(200, 100, 100, 100) }
        else { budget(400, 200, 100, 200) }
    } else if exchange == "okx"@ {
        if rank == 0 { budget(40, 20, 20, 20) }
        else if rank == 1 { budget(80, 40, 40, 40) }
        else if rank == 2 { budget(120, 60, 60, 60) }
        else if rank == 3 { budget(180, 90, 90, 90) }
        else if rank == 4 { budget(300, 150, 150, 150) }
        else if rank == 5 { budget(400, 200, 200, 200) }
        else { budget(600, 300, 300, 300) }
    } else if exchange == "coincall"@ {
        if rank == 0 { budget(20, 10, 10, 10) }
        else if rank == 1 { budget(40, 20, 20, 20) }
        else if rank == 2 { budget(60, 30, 30, 30) }
        else if rank == 3 { budget(100, 50, 50, 50) }
        else if rank == 4 { budget(160, 80, 80, 80) }
        else if rank == 5 { budget(200, 100, 100, 100) }
        else if rank == 6 { budget(300, 150, 150, 150) }
        else { budget(400, 200, 200, 200) }
    } else if exchange == "binance"@ {
        if rank == 0 { budget(100, 50, 10, 10) }
        else if rank == 1 { budget(200, 100, 20, 20) }
        else if rank == 2 { budget(400, 200, 50, 50) }
        else if rank == 3 { budget(600, 300, 100, 100) }
        else if rank == 4 { budget(800, 400, 150, 150) }
        else if rank == 5 { budget(1000, 500, 200, 200) }
        else if rank == 6 { budget(1200, 600, 300, 300) }
        else { budget(2000, 1000, 500, 500) }
    } else if exchange == "mexc"@ {
        if rank == 0 { budget(20, 10, 5, 5) }
        else if rank == 1 { budget(40, 20, 10, 10) }
        else if rank == 2 { budget(80, 40, 20, 20) }
        else if rank == 3 { budget(120, 60, 30, 30) }
        else if rank == 4 { budget(200, 100, 50, 50) }
        else if rank == 5 { budget(300, 150, 75, 75) }
        else if rank == 6 { budget(400, 200, 100, 100) }
        else { budget(600, 300, 150, 150) }
    } else if exchange == "hyperliquid"@ {
        if rank == 0 { budget(20, 10, 5, 5) }
        else if rank == 1 { budget(40, 20, 10, 10) }
        else if rank == 7 { budget(200, 100, 100, 100) }
        else { budget(60, 30, 15, 15) }
    } else if exchange == "uniswap"@ {
        budget(10, 5, 2, 0)
    } else {
        if rank == 0 { budget(10, 5, 5, 5) }
        else if rank == 1 { budget(20, 10, 10, 10) }
        else { budget(50, 25, 25, 25) }
    }
}

/// The budget of an account of tier `tier` on `exchange`.
pub open spec fn limits_for(exchange: Seq<char>, tier: RateTier) -> AccountLimits {
    table_row(exchange, tier_rank(tier))
}

fn make(burst: u32, sustained: u32, order_rps: u32, cancel_rps: u32) -> (r: AccountLimits)
    ensures
        r == budget(burst, sustained, order_rps, cancel_rps),
{
    AccountLimits { burst, sustained, order_rps, cancel_rps }
}

/// The per-account budget for an exchange and tier; an exchange without a
/// table of its own gets the generic one.
pub fn tier_limits(exchange: &str, tier: &RateTier) -> (r: AccountLimits)
    ensures
        r == limits_for(exchange@, *tier),
{
    let t = *tier;
    if str_eq(exchange, "deribit") {
        match t {
            RateTier::Tier1 => make(20, 10, 10, 10),
            RateTier::Tier2 => make(40, 20, 20, 20),
            RateTier::Vip1 => make(100, 50, 50, 50),
            RateTier::Vip2 => make(200, 100, 100, 100),
            RateTier::Vip3 => make(400, 200, 200, 200),
            RateTier::Vip4 => make(800, 500, 500, 500),
            RateTier::Vip5 => make(1000, 1000, 1000, 1000),
            RateTier::MarketMaker => make(2000, 2000, 2000, 2000),
        }
    } else if str_eq(exchange, "bybit") {
        match t {
            RateTier::Tier1 => make(20, 10, 10, 10),
            RateTier::Tier2 => make(40, 20, 20, 20),
            RateTier::Vip1 => make(60, 30, 30, 30),
            RateTier::Vip2 => make(80, 40, 40, 40),
            RateTier::Vip3 => make(100, 50, 50, 50),
            RateTier::Vip4 => make(120, 60, 60, 60),
            RateTier::Vip5 => make(200, 100, 100, 100),
            RateTier::MarketMaker => make(400, 200, 100, 200),
        }
    } else if str_eq(exchange, "okx") {
        match t {
            RateTier::Tier1 => make(40, 20, 20, 20),
            RateTier::Tier2 => make(80, 40, 40, 40),
            RateTier::Vip1 => make(120, 60, 60, 60),
            RateTier::Vip2 => make(180, 90, 90, 90),
            RateTier::Vip3 => make(300, 150, 150, 150),
            RateTier::Vip4 => make(400, 200, 200, 200),
            RateTier::Vip5 => make(600, 300, 300, 300),
            RateTier::MarketMaker => make(600, 300, 300, 300),
        }
    } else if str_eq(exchange, "coincall") {
        match t {
            RateTier::Tier1 => make(20, 10, 10, 10),
            RateTier::Tier2 => make(40, 20, 20, 20),
            RateTier::Vip1 => make(60, 30, 30, 30),
            RateTier::Vip2 => make(100, 50, 50, 50),
            RateTier::Vip3 => make(160, 80, 80, 80),
            RateTier::Vip4 => make(200, 100, 100, 100),
            RateTier::Vip5 => make(300, 150, 150, 150),
            RateTier::MarketMaker => make(400, 200, 200, 200),
        }
    } else if str_eq(exchange, "binance") {
        match t {
            RateTier::Tier1 => make(100, 50, 10, 10),
            RateTier::Tier2 => make(200, 100, 20, 20),
            RateTier::Vip1 => make(400, 200, 50, 50),
            RateTier::Vip2 => make(600, 300, 100, 100),
            RateTier::Vip3 => make(800, 400, 150, 150),
            RateTier::Vip4 => make(1000, 500, 200, 200),
            RateTier::Vip5 => make(1200, 600, 300, 300),
            RateTier::MarketMaker => make(2000, 1000, 500, 500),
        }
    } else if str_eq(exchange, "mexc") {
        match t {
            RateTier::Tier1 => make(20, 10, 5, 5),
            RateTier::Tier2 => make(40, 20, 10, 10),
            RateTier::Vip1 => make(80, 40, 20, 20),
            RateTier::Vip2 => make(120, 60, 30, 30),
            RateTier::Vip3 => make(200, 100, 50, 50),
            RateTier::Vip4 => make(300, 150, 75, 75),
            RateTier::Vip5 => make(400, 200, 100, 100),
            RateTier::MarketMaker => make(600, 300, 150, 150),
        }
    } else if str_eq(exchange, "hyperliquid") {
        match t {
            RateTier::Tier1 => make(20, 10, 5, 5),
            RateTier::Tier2 => make(40, 20, 10, 10),
            RateTier::MarketMaker => make(200, 100, 100, 100),
            _ => make(60, 30, 15, 15),
        }
    } else if str_eq(exchange, "uniswap") {
        make(10, 5, 2, 0)
    } else {
        match t {
            RateTier::Tier1 => make(10, 5, 5, 5),
            RateTier::Tier2 => make(20, 10, 10, 10),
            _ => make(50, 25, 25, 25),
        }
    }
}

/// On every exchange a higher tier never gets a smaller budget, and the
/// burst capacity is never below the sustained rate.
pub proof fn lemma_limits_grow_with_tier(exchange: Seq<char>, lower: RateTier, higher: RateTier)
    requires
        tier_rank(lower) <= tier_rank(higher),
    ensures
        limits_for(exchange, lower).burst <= limits_for(exchange, higher).burst,
        limits_for(exchange, lower).sustained <= limits_for(exchange, higher).sustained,
        limits_for(exchange, lower).order_rps <= limits_for(exchange, higher).order_rps,
        limits_for(exchange, lower).cancel_rps <= limits_for(exchange, higher).cancel_rps,
        limits_for(exchange, lower).sustained <= limits_for(exchange, lower).burst,
{
}

/// The names of the exchanges with tables of their own differ.
proof fn lemma_exchange_names_differ()
    ensures
        "deribit"@ != "bybit"@,
        "deribit"@ != "okx"@,
        "deribit"@ != "coincall"@,
        "deribit"@ != "binance"@,
        "deribit"@ != "mexc"@,
        "deribit"@ != "hyperliquid"@,
        "deribit"@ != "uniswap"@,
        "bybit"@ != "okx"@,
        "bybit"@ != "coincall"@,
        "bybit"@ != "binance"@,
        "bybit"@ != "mexc"@,
        "bybit"@ != "hyperliquid"@,
        "bybit"@ != "uniswap"@,
        "okx"@ != "coincall"@,
        "okx"@ != "binance"@,
        "okx"@ != "mexc"@,
        "okx"@ != "hyperliquid"@,
        "okx"@ != "uniswap"@,
        "coincall"@ != "binance"@,
        "coincall"@ != "mexc"@,
        "coincall"@ != "hyperliquid"@,
        "coincall"@ != "uniswap"@,
        "binance"@ != "mexc"@,
        "binance"@ != "hyperliquid"@,
        "binance"@ != "uniswap"@,
        "mexc"@ != "hyperliquid"@,
        "mexc"@ != "uniswap"@,
        "hyperliquid"@ != "uniswap"@,
{
    reveal_strlit("deribit");
    reveal_strlit("bybit");
    reveal_strlit("okx");
    reveal_strlit("coincall");
    reveal_strlit("binance");
    reveal_strlit("mexc");
    reveal_strlit("hyperliquid");
    reveal_strlit("uniswap");
    assert("deribit"@[0] != "bybit"@[0]);
    assert("deribit"@[0] != "okx"@[0]);
    assert("deribit"@[0] != "coincall"@[0]);
    assert("deribit"@[0] != "binance"@[0]);
    assert("deribit"@[0] != "mexc"@[0]);
    assert("deribit"@[0] != "hyperliquid"@[0]);
    assert("deribit"@[0] != "uniswap"@[0]);
    assert("bybit"@[0] != "okx"@[0]);
    assert("bybit"@[0] != "coincall"@[0]);
    assert("bybit"@[1] != "binance"@[1]);
    assert("bybit"@[0] != "mexc"@[0]);
    assert("bybit"@[0] != "hyperliquid"@[0]);
    assert("bybit"@[0] != "uniswap"@[0]);
    assert("okx"@[0] != "coincall"@[0]);
    assert("okx"@[0] != "binance"@[0]);
    assert("okx"@[0] != "mexc"@[0]);
    assert("okx"@[0] != "hyperliquid"@[0]);
    assert("okx"@[0] != "uniswap"@[0]);
    assert("coincall"@[0] != "binance"@[0]);
    assert("coincall"@[0] != "mexc"@[0]);
    assert("coincall"@[0] != "hyperliquid"@[0]);
    assert("coincall"@[0] != "uniswap"@[0]);
    assert("binance"@[0] != "mexc"@[0]);
    assert("binance"@[0] != "hyperliquid"@[0]);
    assert("binance"@[0] != "uniswap"@[0]);
    assert("mexc"@[0] != "hyperliquid"@[0]);
    assert("mexc"@[0] != "uniswap"@[0]);
    assert("hyperliquid"@[0] != "uniswap"@[0]);
}

/// The four rates of a budget: (burst, sustained, orders, cancellations).
pub open spec fn budget_rates(l: AccountLimits) -> (u32, u32, u32, u32) {
    (l.burst, l.sustained, l.order_rps, l.cancel_rps)
}

/// The documented Deribit budgets by tier (burst, sustained, orders,
/// cancellations per second).
pub proof fn lemma_deribit_budgets(tier: RateTier)
    ensures
        budget_rates(limits_for("deribit"@, tier)) == (match tier {
            RateTier::Tier1 => (20u32, 10u32, 10u32, 10u32),
            RateTier::Tier2 => (40u32, 20u32, 20u32, 20u32),
            RateTier::Vip1 => (100u32, 50u32, 50u32, 50u32),
            RateTier::Vip2 => (200u32, 100u32, 100u32, 100u32),
            RateTier::Vip3 => (400u32, 200u32, 200u32, 200u32),
            RateTier::Vip4 => (800u32, 500u32, 500u32, 500u32),
            RateTier::Vip5 => (1000u32, 1000u32, 1000u32, 1000u32),
            RateTier::MarketMaker => (2000u32, 2000u32, 2000u32, 2000u32),
        }),
{
    lemma_exchange_names_differ();
}

/// The documented Bybit budgets by tier (burst, sustained, orders,
/// cancellations per second).
pub proof fn lemma_bybit_budgets(tier: RateTier)
    ensures
        budget_rates(limits_for("bybit"@, tier)) == (match tier {
            RateTier::Tier1 => (20u32, 10u32, 10u32, 10u32),
            RateTier::Tier2 => (40u32, 20u32, 20u32, 20u32),
            RateTier::Vip1 => (60u32, 30u32, 30u32, 30u32),
            RateTier::Vip2 => (80u32, 40u32, 40u32, 40u32),
            RateTier::Vip3 => (100u32, 50u32, 50u32, 50u32),
            RateTier::Vip4 => (120u32, 60u32, 60u32, 60u32),
            RateTier::Vip5 => (200u32, 100u32, 100u32, 100u32),
            RateTier::MarketMaker => (400u32, 200u32, 100u32, 200u32),
        }),
{
    lemma_exchange_names_differ();
}

/// The documented OKX budgets by tier (burst, sustained, orders,
/// cancellations per second).
pub proof fn lemma_okx_budgets(tier: RateTier)
    ensures
        budget_rates(limits_for("okx"@, tier)) == (match tier {
            RateTier::Tier1 => (40u32, 20u32, 20u32, 20u32),
            RateTier::Tier2 => (80u32, 40u32, 40u32, 40u32),
            RateTier::Vip1 => (120u32, 60u32, 60u32, 60u32),
            RateTier::Vip2 => (180u32, 90u32, 90u32, 90u32),
            RateTier::Vip3 => (300u32, 150u32, 150u32, 150u32),
            RateTier::Vip4 => (400u32, 200u32, 200u32, 200u32),
            RateTier::Vip5 => (600u32, 300u32, 300u32, 300u32),
            RateTier::MarketMaker => (600u32, 300u32, 300u32, 300u32),
        }),
{
    lemma_exchange_names_differ();
}

/// The documented CoInCall budgets by tier (burst, sustained, orders,
/// cancellations per second).
pub proof fn lemma_coincall_budgets(tier: RateTier)
    ensures
        budget_rates(limits_for("coincall"@, tier)) == (match tier {
            RateTier::Tier1 => (20u32, 10u32, 10u32, 10u32),
            RateTier::Tier2 => (40u32, 20u32, 20u32, 20u32),
            RateTier::Vip1 => (60u32, 30u32, 30u32, 30u32),
            RateTier::Vip2 => (100u32, 50u32, 50u32, 50u32),
            RateTier::Vip3 => (160u32, 80u32, 80u32, 80u32),
            RateTier::Vip4 => (200u32, 100u32, 100u32, 100u32),
            RateTier::Vip5 => (300u32, 150u32, 150u32, 150u32),
            RateTier::MarketMaker => (400u32, 200u32, 200u32, 200u32),
        }),
{
    lemma_exchange_names_differ();
}

/// The documented Binance budgets by tier (burst, sustained, orders,
/// cancellations per second).
pub proof fn lemma_binance_budgets(tier: RateTier)
    ensures
        budget_rates(limits_for("binance"@, tier)) == (match tier {
            RateTier::Tier1 => (100u32, 50u32, 10u32, 10u32),
            RateTier::Tier2 => (200u32, 100u32, 20u32, 20u32),
            RateTier::Vip1 => (400u32, 200u32, 50u32, 50u32),
            RateTier::Vip2 => (600u32, 300u32, 100u32, 100u32),
            RateTier::Vip3 => (800u32, 400u32, 150u32, 150u32),
            RateTier::Vip4 => (1000u32, 500u32, 200u32, 200u32),
            RateTier::Vip5 => (1200u32, 600u32, 300u32, 300u32),
            RateTier::MarketMaker => (2000u32, 1000u32, 500u32, 500u32),
        }),
{
    lemma_exchange_names_differ();
}

/// The documented MEXC budgets by tier (burst, sustained, orders,
/// cancellations per second).
pub proof fn lemma_mexc_budgets(tier: RateTier)
    ensures
        budget_rates(limits_for("mexc"@, tier)) == (match tier {
            RateTier::Tier1 => (20u32, 10u32, 5u32, 5u32),
            RateTier::Tier2 => (40u32, 20u32, 10u32, 10u32),
            RateTier::Vip1 => (80u32, 40u32, 20u32, 20u32),
            RateTier::Vip2 => (120u32, 60u32, 30u32, 30u32),
            RateTier::Vip3 => (200u32, 100u32, 50u32, 50u32),
            RateTier::Vip4 => (300u32, 150u32, 75u32, 75u32),
            RateTier::Vip5 => (400u32, 200u32, 100u32, 100u32),
            RateTier::MarketMaker => (600u32, 300u32, 150u32, 150u32),
        }),
{
    lemma_exchange_names_differ();
}

/// The documented Hyperliquid budgets by tier (burst, sustained, orders,
/// cancellations per second).
pub proof fn lemma_hyperliquid_budgets(tier: RateTier)
    ensures
        budget_rates(limits_for("hyperliquid"@, tier)) == (match tier {
            RateTier::Tier1 => (20u32, 10u32, 5u32, 5u32),
            RateTier::Tier2 => (40u32, 20u32, 10u32, 10u32),
            RateTier::Vip1 => (60u32, 30u32, 15u32, 15u32),
            RateTier::Vip2 => (60u32, 30u32, 15u32, 15u32),
            RateTier::Vip3 => (60u32, 30u32, 15u32, 15u32),
            RateTier::Vip4 => (60u32, 30u32, 15u32, 15u32),
            RateTier::Vip5 => (60u32, 30u32, 15u32, 15u32),
            RateTier::MarketMaker => (200u32, 100u32, 100u32, 100u32),
        }),
{
    lemma_exchange_names_differ();
}

/// Uniswap has one budget for every tier: burst 10, sustained 5, 2 swaps
/// per second and no cancellations.
pub proof fn lemma_uniswap_budget(tier: RateTier)
    ensures
        budget_rates(limits_for("uniswap"@, tier)) == (10u32, 5u32, 2u32, 0u32),
{
    lemma_exchange_names_differ();
}

/// An exchange without a table of its own gets the generic budgets.
pub proof fn lemma_generic_budgets(exchange: Seq<char>, tier: RateTier)
    requires
        exchange != "deribit"@
            && exchange != "bybit"@
            && exchange != "okx"@
            && exchange != "coincall"@
            && exchange != "binance"@
            && exchange != "mexc"@
            && exchange != "hyperliquid"@
            && exchange != "uniswap"@,
    ensures
        budget_rates(limits_for(exchange, tier)) == (match tier {
            RateTier::Tier1 => (10u32, 5u32, 5u32, 5u32),
            RateTier::Tier2 => (20u32, 10u32, 10u32, 10u32),
            _ => (50u32, 25u32, 25u32, 25u32),
        }),
{
}

/// Which per-account bucket an endpoint draws on besides the general one.
#[derive(Debug, Clone, Copy, PartialEq, Eq, Structural)]
pub enum EndpointBucket {
    /// Order placement (`place_order`, `batch_order`).
    Order,
    /// Cancellation (`cancel_order`, `cancel_all`).
    Cancel,
    /// No endpoint bucket.
    General,
}

/// The per-account bucket that an endpoint draws on.
pub open spec fn endpoint_bucket_of(endpoint: Seq<char>) -> EndpointBucket {
    if endpoint == "place_order"@ || endpoint == "batch_order"@ {
        EndpointBucket::Order
    } else if endpoint == "cancel_order"@ || endpoint == "cancel_all"@ {
        EndpointBucket::Cancel
    } else {
        EndpointBucket::General
    }
}

/// The per-account bucket that an endpoint draws on.
pub fn endpoint_bucket(endpoint: &str) -> (r: EndpointBucket)
    ensures
        r == endpoint_bucket_of(endpoint@),
{
    if str_eq(endpoint, "place_order") || str_eq(endpoint, "batch_order") {
        EndpointBucket::Order
    } else if str_eq(endpoint, "cancel_order") || str_eq(endpoint, "cancel_all") {
        EndpointBucket::Cancel
    } else {
        EndpointBucket::General
    }
}

/// The exchanges that get rate-limit groups by default.
pub open spec fn limited_exchanges() -> Seq<Seq<char>> {
    seq!["deribit"@, "bybit"@, "okx"@, "coincall"@]
}

/// The exchanges that get rate-limit groups by default, in order.
pub fn default_limited_exchanges() -> (r: Vec<&'static str>)
    ensures
        r@.map_values(|e: &'static str| e@) == limited_exchanges(),
{
    let mut v: Vec<&'static str> = Vec::new();
    v.push("deribit");
    v.push("bybit");
    v.push("okx");
    v.push("coincall");
    assert(v@.map_values(|e: &'static str| e@) =~= limited_exchanges());
    v
}

/// The exchange-wide budget of public endpoints, in requests per second.
pub fn public_rps(exchange: &str) -> (r: u32)
    ensures
        r == (if exchange@ == "deribit"@ || exchange@ == "okx"@ {
            1000u32
        } else if exchange@ == "bybit"@ {
            600
        } else if exchange@ == "coincall"@ {
            300
        } else {
            200
        }),
{
    if str_eq(exchange, "deribit") || str_eq(exchange, "okx") {
        1000
    } else if str_eq(exchange, "bybit") {
        600
    } else if str_eq(exchange, "coincall") {
        300
    } else {
        200
    }
}

/// The exchange-wide budget of private endpoints, in requests per second.
pub fn private_rps(exchange: &str) -> (r: u32)
    ensures
        r == (if exchange@ == "deribit"@ {
            2000u32
        } else if exchange@ == "bybit"@ || exchange@ == "okx"@ {
            600
        } else {
            200
        }),
{
    if str_eq(exchange, "deribit") {
        2000
    } else if str_eq(exchange, "bybit") || str_eq(exchange, "okx") {
        600
    } else {
        200
    }
}

/// The key of an exchange's rate-limit group: `exchange:group`.
pub fn group_key(exchange: &str, group: &str) -> (r: String)
    ensures
        r@ == exchange@ + ":"@ + group@,
{
    let mut v: Vec<char> = Vec::new();
    append_str(&mut v, exchange);
    append_str(&mut v, ":");
    append_str(&mut v, group);
    assert(v@ =~= exchange@ + ":"@ + group@);
    string_from_chars(v.as_slice())
}

/// A token bucket that a request draws on.
#[derive(Debug, Clone, Copy, PartialEq, Eq, Structural)]
pub enum LimitBucket {
    /// The exchange group's bucket (`exchange:group`).
    Group,
    /// The group's bucket for the endpoint.
    GroupEndpoint,
    /// The account's general bucket.
    AccountGeneral,
    /// The account's order bucket.
    AccountOrder,
    /// The account's cancel bucket.
    AccountCancel,
}

/// The level at which a request is refused.
#[derive(Debug, Clone, Copy, PartialEq, Eq, Structural)]
pub enum LimitLevel {
    ExchangeGroup,
    ExchangeEndpoint,
    Account,
    AccountEndpoint,
}

/// The buckets a request draws on, in the order they are tried: the
/// exchange group (where one is configured), then its bucket for the
/// endpoint (where the endpoint is named and has one), then the account's
/// general bucket and its order or cancel bucket (where the account is
/// named and configured).
pub open spec fn check_plan_of(
    has_group: bool,
    group_has_endpoint: bool,
    account_id: Seq<char>,
    account_configured: bool,
    endpoint: Seq<char>,
) -> Seq<LimitBucket> {
    let group = if has_group { seq![LimitBucket::Group] } else { Seq::empty() };
    let group_endpoint = if has_group && endpoint.len() > 0 && group_has_endpoint {
        seq![LimitBucket::GroupEndpoint]
    } else {
        Seq::empty()
    };
    let account = if account_id.len() > 0 && account_configured {
        seq![LimitBucket::AccountGeneral] + match endpoint_bucket_of(endpoint) {
            EndpointBucket::Order => seq![LimitBucket::AccountOrder],
            EndpointBucket::Cancel => seq![LimitBucket::AccountCancel],
            EndpointBucket::General => Seq::empty(),
        }
    } else {
        Seq::empty()
    };
    group + group_endpoint + account
}

/// Lists the buckets a request draws on (see `check_plan_of`).
pub fn check_plan(
    has_group: bool,
    group_has_endpoint: bool,
    account_id: &str,
    account_configured: bool,
    endpoint: &str,
) -> (r: Vec<LimitBucket>)
    ensures
        r@ == check_plan_of(has_group, group_has_endpoint, account_id@, account_configured, endpoint@),
{
    let mut plan: Vec<LimitBucket> = Vec::new();
    if has_group {
        plan.push(LimitBucket::Group);
        if endpoint.unicode_len() > 0 && group_has_endpoint {
            plan.push(LimitBucket::GroupEndpoint);
        }
    }
    if account_id.unicode_len() > 0 && account_configured {
        plan.push(LimitBucket::AccountGeneral);
        match endpoint_bucket(endpoint) {
            EndpointBucket::Order => plan.push(LimitBucket::AccountOrder),
            EndpointBucket::Cancel => plan.push(LimitBucket::AccountCancel),
            EndpointBucket::General => {},
        }
    }
    assert(plan@ =~= check_plan_of(has_group, group_has_endpoint, account_id@, account_configured, endpoint@));
    plan
}

/// The level reported when a bucket refuses.
pub open spec fn level_of(b: LimitBucket) -> LimitLevel {
    match b {
        LimitBucket::Group => LimitLevel::ExchangeGroup,
        LimitBucket::GroupEndpoint => LimitLevel::ExchangeEndpoint,
        LimitBucket::AccountGeneral => LimitLevel::Account,
        LimitBucket::AccountOrder => LimitLevel::AccountEndpoint,
        LimitBucket::AccountCancel => LimitLevel::AccountEndpoint,
    }
}

/// The level reported when a bucket refuses (see `level_of`).
pub fn refusal_level(b: LimitBucket) -> (r: LimitLevel)
    ensures
        r == level_of(b),
{
    match b {
        LimitBucket::Group => LimitLevel::ExchangeGroup,
        LimitBucket::GroupEndpoint => LimitLevel::ExchangeEndpoint,
        LimitBucket::AccountGeneral => LimitLevel::Account,
        LimitBucket::AccountOrder => LimitLevel::AccountEndpoint,
        LimitBucket::AccountCancel => LimitLevel::AccountEndpoint,
    }
}

/// The outcome of a request once its buckets were tried in plan order:
/// where every bucket gave its tokens, the request passes and nothing is
/// given back; where the bucket at `failed_at` refused, the request is
/// refused at that bucket's level and exactly the buckets drawn before it
/// get their tokens back.
pub fn check_verdict(plan: &Vec<LimitBucket>, failed_at: Option<usize>) -> (r: (Result<(), LimitLevel>, Vec<LimitBucket>))
    requires
        failed_at matches Some(i) ==> i < plan@.len(),
    ensures
        match failed_at {
            None => r.0 is Ok && r.1@ == Seq::<LimitBucket>::empty(),
            Some(i) => r.0 == Err::<(), LimitLevel>(level_of(plan@[i as int])) && r.1@ == plan@.take(i as int),
        },
{
    match failed_at {
        None => (Ok(()), Vec::new()),
        Some(i) => {
            let mut refunds: Vec<LimitBucket> = Vec::new();
            let mut j: usize = 0;
            while j < i
                invariant
                    i < plan@.len(),
                    j <= i,
                    refunds@ == plan@.take(j as int),
                decreases i - j,
            {
                refunds.push(plan[j]);
                j = j + 1;
                assert(refunds@ =~= plan@.take(j as int));
            }
            (Err(refusal_level(plan[i])), refunds)
        },
    }
}

/// The text of a refusal level.
pub fn level_text(level: LimitLevel) -> (r: &'static str)
    ensures
        r@ == match level {
            LimitLevel::ExchangeGroup => "exchange_group"@,
            LimitLevel::ExchangeEndpoint => "exchange_endpoint"@,
            LimitLevel::Account => "account"@,
            LimitLevel::AccountEndpoint => "account_endpoint"@,
        },
{
    match level {
        LimitLevel::ExchangeGroup => "exchange_group",
        LimitLevel::ExchangeEndpoint => "exchange_endpoint",
        LimitLevel::Account => "account",
        LimitLevel::AccountEndpoint => "account_endpoint",
    }
}

/// The name under which a bucket's refusal is reported: the group key,
/// the group key and endpoint, or the account's exchange and bucket.
pub fn bucket_name(b: LimitBucket, group_key: &str, endpoint: &str, account_exchange: &str) -> (r: String)
    ensures
        r@ == match b {
            LimitBucket::Group => group_key@,
            LimitBucket::GroupEndpoint => group_key@ + ":"@ + endpoint@,
            LimitBucket::AccountGeneral => account_exchange@ + ":general"@,
            LimitBucket::AccountOrder => account_exchange@ + ":order"@,
            LimitBucket::AccountCancel => account_exchange@ + ":cancel"@,
        },
{
    let mut v: Vec<char> = Vec::new();
    match b {
        LimitBucket::Group => {
            append_str(&mut v, group_key);
        },
        LimitBucket::GroupEndpoint => {
            append_str(&mut v, group_key);
            append_str(&mut v, ":");
            append_str(&mut v, endpoint);
        },
        LimitBucket::AccountGeneral => {
            append_str(&mut v, account_exchange);
            append_str(&mut v, ":general");
        },
        LimitBucket::AccountOrder => {
            append_str(&mut v, account_exchange);
            append_str(&mut v, ":order");
        },
        LimitBucket::AccountCancel => {
            append_str(&mut v, account_exchange);
            append_str(&mut v, ":cancel");
        },
    }
    proof {
        match b {
            LimitBucket::Group => assert(v@ =~= group_key@),
            LimitBucket::GroupEndpoint => assert(v@ =~= group_key@ + ":"@ + endpoint@),
            LimitBucket::AccountGeneral => assert(v@ =~= account_exchange@ + ":general"@),
            LimitBucket::AccountOrder => assert(v@ =~= account_exchange@ + ":order"@),
            LimitBucket::AccountCancel => assert(v@ =~= account_exchange@ + ":cancel"@),
        }
    }
    string_from_chars(v.as_slice())
}

/// The endpoint buckets of an exchange group and their shares of the
/// group's rate, in percent: public groups split between book, instrument
/// and ticker requests, private groups give order placement and
/// cancellation half each and the reads their own shares.
pub open spec fn endpoint_shares_of(group: Seq<char>) -> Seq<(Seq<char>, u32)> {
    if group == "public"@ {
        seq![("orderbook"@, 50u32), ("instruments"@, 20u32), ("ticker"@, 30u32)]
    } else if group == "private"@ {
        seq![
            ("place_order"@, 50u32),
            ("cancel_order"@, 50u32),
            ("open_orders"@, 30u32),
            ("trade_history"@, 20u32),
            ("positions"@, 30u32),
            ("account"@, 10u32),
        ]
    } else {
        Seq::empty()
    }
}

/// The endpoint buckets of a default exchange group (see
/// `endpoint_shares_of`).
pub fn endpoint_shares(group: &str) -> (r: Vec<(&'static str, u32)>)
    ensures
        r@.map_values(|e: (&'static str, u32)| (e.0@, e.1)) == endpoint_shares_of(group@),
{
    let r: Vec<(&'static str, u32)> = if str_eq(group, "public") {
        vec![("orderbook", 50), ("instruments", 20), ("ticker", 30)]
    } else if str_eq(group, "private") {
        vec![
            ("place_order", 50),
            ("cancel_order", 50),
            ("open_orders", 30),
            ("trade_history", 20),
            ("positions", 30),
            ("account", 10),
        ]
    } else {
        Vec::new()
    };
    proof {
        assert(r@.map_values(|e: (&'static str, u32)| (e.0@, e.1)) =~= endpoint_shares_of(group@));
    }
    r
}

} // verus!
