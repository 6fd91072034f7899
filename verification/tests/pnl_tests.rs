use market_stats::pnl::{calculate_pnl, AssetPosition};
use market_stats::rat::Rat;

fn rf(n: i64, d: i64) -> Rat {
    Rat::new(n, d).unwrap()
}

fn example_position() -> AssetPosition {
    AssetPosition {
        asset_id: String::from("EUR/USD"),
        buy_price: rf(108, 100),
        sell_price: rf(111, 100),
        contracted_volume: Rat::from_int(1_000_000),
        realized_volume: Some(Rat::from_int(1_020_000)),
        market_price: rf(110, 100),
        additional_costs: Rat::from_int(1500),
    }
}

#[test]
fn pnl_of_the_example_position() {
    let out = calculate_pnl(&example_position()).unwrap();
    assert_eq!(out.revenue.num(), 1_110_000);
    assert_eq!(out.revenue.den(), 1);
    assert_eq!(out.cost.num(), 1_080_000);
    assert_eq!(out.cost.den(), 1);
    assert_eq!(out.exposure.num(), 22_000);
    assert_eq!(out.exposure.den(), 1);
    assert_eq!(out.pnl.num(), 6_500);
    assert_eq!(out.pnl.den(), 1);
}

#[test]
fn pnl_without_realized_volume_has_zero_exposure() {
    let mut p = example_position();
    p.realized_volume = None;
    let out = calculate_pnl(&p).unwrap();
    assert_eq!(out.exposure.num(), 0);
    // pnl = revenue - cost - 0 - additional costs
    assert_eq!(out.pnl.num(), 1_110_000 - 1_080_000 - 1500);
    assert_eq!(out.pnl.den(), 1);
    // The market price is irrelevant without a realized volume.
    p.market_price = Rat::from_int(999);
    let out2 = calculate_pnl(&p).unwrap();
    assert_eq!(out2.exposure.num(), 0);
    assert_eq!(out2.pnl, out.pnl);
}

#[test]
fn pnl_with_fractional_costs_is_exact() {
    let p = AssetPosition {
        asset_id: String::from("AAPL"),
        buy_price: rf(1, 3),
        sell_price: rf(1, 2),
        contracted_volume: Rat::from_int(6),
        realized_volume: None,
        market_price: Rat::zero(),
        additional_costs: rf(1, 4),
    };
    let out = calculate_pnl(&p).unwrap();
    // revenue 3, cost 2, pnl 3 - 2 - 1/4 = 3/4
    assert_eq!(out.revenue.num(), 3);
    assert_eq!(out.cost.num(), 2);
    assert_eq!(out.pnl.num(), 3);
    assert_eq!(out.pnl.den(), 4);
}

#[test]
fn pnl_is_deterministic() {
    let p = example_position();
    assert_eq!(calculate_pnl(&p), calculate_pnl(&p));
}

#[test]
fn pnl_overflow_reports_none() {
    let mut p = example_position();
    p.sell_price = Rat::from_int(i64::MAX);
    p.contracted_volume = Rat::from_int(i64::MAX);
    assert!(calculate_pnl(&p).is_none());
}
