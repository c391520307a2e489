use order_dashboard::rate_limits::{
    bucket_name, check_plan, check_verdict, endpoint_shares, level_text, tier_limits, AccountLimits, LimitBucket,
    LimitLevel,
};
use order_dashboard::rate_tier::RateTier;

fn limits(burst: u32, sustained: u32, order_rps: u32, cancel_rps: u32) -> AccountLimits {
    AccountLimits { burst, sustained, order_rps, cancel_rps }
}

#[test]
fn tier_limits_vary_by_exchange() {
    let d1 = tier_limits("deribit", &RateTier::Tier1);
    let dv5 = tier_limits("deribit", &RateTier::Vip5);
    assert!(dv5.order_rps > d1.order_rps);

    let b1 = tier_limits("bybit", &RateTier::Tier1);
    let bv5 = tier_limits("bybit", &RateTier::Vip5);
    assert!(bv5.order_rps > b1.order_rps);
}

#[test]
fn documented_tier_table() {
    // The tier reference: Deribit vip5 1000 req/s, Bybit market-maker orders 100 req/s.
    let d = tier_limits("deribit", &RateTier::Vip5);
    assert_eq!((d.order_rps, d.sustained), (1000, 1000));
    assert_eq!(tier_limits("bybit", &RateTier::MarketMaker).order_rps, 100);
    assert_eq!(tier_limits("bybit", &RateTier::Vip5).order_rps, 100);
}

#[test]
fn table_values() {
    assert_eq!(tier_limits("deribit", &RateTier::MarketMaker), limits(2000, 2000, 2000, 2000));
    assert_eq!(tier_limits("okx", &RateTier::Vip5), limits(600, 300, 300, 300));
    assert_eq!(tier_limits("okx", &RateTier::MarketMaker), limits(600, 300, 300, 300));
    assert_eq!(tier_limits("binance", &RateTier::Tier1), limits(100, 50, 10, 10));
    assert_eq!(tier_limits("mexc", &RateTier::Vip4), limits(300, 150, 75, 75));
    assert_eq!(tier_limits("coincall", &RateTier::Vip3), limits(160, 80, 80, 80));
}

#[test]
fn hyperliquid_middle_tiers_share_limits() {
    for t in [RateTier::Vip1, RateTier::Vip2, RateTier::Vip3, RateTier::Vip4, RateTier::Vip5] {
        assert_eq!(tier_limits("hyperliquid", &t), limits(60, 30, 15, 15));
    }
    assert_eq!(tier_limits("hyperliquid", &RateTier::MarketMaker), limits(200, 100, 100, 100));
}

#[test]
fn uniswap_ignores_tier() {
    assert_eq!(tier_limits("uniswap", &RateTier::Tier1), limits(10, 5, 2, 0));
    assert_eq!(tier_limits("uniswap", &RateTier::MarketMaker), limits(10, 5, 2, 0));
}

#[test]
fn unknown_exchange_gets_generic_table() {
    assert_eq!(tier_limits("kraken", &RateTier::Tier1), limits(10, 5, 5, 5));
    assert_eq!(tier_limits("kraken", &RateTier::Tier2), limits(20, 10, 10, 10));
    assert_eq!(tier_limits("kraken", &RateTier::Vip3), limits(50, 25, 25, 25));
    assert_eq!(tier_limits("Deribit", &RateTier::Tier1), limits(10, 5, 5, 5));
}

#[test]
fn higher_tier_never_smaller() {
    let order = [
        RateTier::Tier1,
        RateTier::Tier2,
        RateTier::Vip1,
        RateTier::Vip2,
        RateTier::Vip3,
        RateTier::Vip4,
        RateTier::Vip5,
        RateTier::MarketMaker,
    ];
    for ex in ["deribit", "bybit", "okx", "coincall", "binance", "mexc", "hyperliquid", "uniswap", "other"] {
        for w in order.windows(2) {
            let a = tier_limits(ex, &w[0]);
            let b = tier_limits(ex, &w[1]);
            assert!(a.burst <= b.burst && a.sustained <= b.sustained);
            assert!(a.order_rps <= b.order_rps && a.cancel_rps <= b.cancel_rps);
            assert!(a.sustained <= a.burst);
        }
    }
}

#[test]
fn tier_names_roundtrip() {
    for t in [
        RateTier::Tier1,
        RateTier::Tier2,
        RateTier::Vip1,
        RateTier::Vip2,
        RateTier::Vip3,
        RateTier::Vip4,
        RateTier::Vip5,
        RateTier::MarketMaker,
    ] {
        assert_eq!(RateTier::from_str(t.as_str()), t);
        assert_eq!(RateTier::from_str(&t.as_str().to_uppercase()), t);
    }
}

#[test]
fn tier_aliases_and_default() {
    assert_eq!(RateTier::from_str("mm"), RateTier::MarketMaker);
    assert_eq!(RateTier::from_str("MM"), RateTier::MarketMaker);
    assert_eq!(RateTier::from_str("gold"), RateTier::Tier1);
    assert_eq!(RateTier::from_str(""), RateTier::Tier1);
    assert_eq!(RateTier::as_str(&RateTier::MarketMaker), "market_maker");
}

#[test]
fn plan_orders_group_endpoint_then_account() {
    let plan = check_plan(true, true, "acc1", true, "place_order");
    assert_eq!(
        plan,
        vec![LimitBucket::Group, LimitBucket::GroupEndpoint, LimitBucket::AccountGeneral, LimitBucket::AccountOrder]
    );
    assert_eq!(check_plan(true, true, "acc1", true, ""), vec![LimitBucket::Group, LimitBucket::AccountGeneral]);
    assert_eq!(check_plan(false, true, "", true, "cancel_all"), Vec::<LimitBucket>::new());
    assert_eq!(check_plan(false, false, "a", true, "cancel_all"), vec![LimitBucket::AccountGeneral, LimitBucket::AccountCancel]);
    assert_eq!(check_plan(true, false, "a", false, "orderbook"), vec![LimitBucket::Group]);
}

#[test]
fn refusal_refunds_only_earlier_buckets() {
    let plan = check_plan(true, true, "acc1", true, "cancel_order");
    let (ok, refunds) = check_verdict(&plan, None);
    assert!(ok.is_ok());
    assert!(refunds.is_empty());
    let (v, refunds) = check_verdict(&plan, Some(0));
    assert_eq!(v, Err(LimitLevel::ExchangeGroup));
    assert!(refunds.is_empty());
    let (v, refunds) = check_verdict(&plan, Some(1));
    assert_eq!(v, Err(LimitLevel::ExchangeEndpoint));
    assert_eq!(refunds, vec![LimitBucket::Group]);
    let (v, refunds) = check_verdict(&plan, Some(2));
    assert_eq!(v, Err(LimitLevel::Account));
    assert_eq!(refunds, vec![LimitBucket::Group, LimitBucket::GroupEndpoint]);
    let (v, refunds) = check_verdict(&plan, Some(3));
    assert_eq!(v, Err(LimitLevel::AccountEndpoint));
    assert_eq!(refunds, vec![LimitBucket::Group, LimitBucket::GroupEndpoint, LimitBucket::AccountGeneral]);
    assert_eq!(level_text(LimitLevel::AccountEndpoint), "account_endpoint");
}

#[test]
fn refusal_names_and_shares() {
    assert_eq!(bucket_name(LimitBucket::Group, "okx:private", "place_order", "okx"), "okx:private");
    assert_eq!(bucket_name(LimitBucket::GroupEndpoint, "okx:private", "place_order", "okx"), "okx:private:place_order");
    assert_eq!(bucket_name(LimitBucket::AccountGeneral, "k", "e", "bybit"), "bybit:general");
    assert_eq!(bucket_name(LimitBucket::AccountOrder, "k", "e", "bybit"), "bybit:order");
    assert_eq!(bucket_name(LimitBucket::AccountCancel, "k", "e", "bybit"), "bybit:cancel");
    assert_eq!(endpoint_shares("public"), vec![("orderbook", 50), ("instruments", 20), ("ticker", 30)]);
    assert_eq!(endpoint_shares("private").len(), 6);
    assert_eq!(endpoint_shares("private")[5], ("account", 10));
    assert!(endpoint_shares("other").is_empty());
}
