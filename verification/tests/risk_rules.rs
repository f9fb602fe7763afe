use execution_engine::models::Direction;
use execution_engine::risk::{
    effective_max_positions, evaluate, evaluate_swing, CapBreach, RiskDecision, RiskFacts, RiskVerdict, SwingRiskFacts,
    SwingRiskVerdict,
};
use execution_engine::throttle::OrderThrottle;

/// The day-trading risk settings, with the service defaults.
#[derive(Clone, Copy)]
struct Config {
    max_daily_loss_pct: f64,
    max_position_size_pct: f64,
    max_open_positions: usize,
    min_signal_confidence: f64,
    order_throttle_secs: u64,
    regime_filter_enabled: bool,
    regime_filter_threshold_pct: f64,
    max_net_exposure_pct: f64,
    max_positions_per_strategy: usize,
    daily_loss_tier1_pct: f64,
    daily_loss_tier2_pct: f64,
    regime_boosted_exposure_pct: f64,
}

fn default_config() -> Config {
    Config {
        max_daily_loss_pct: 0.02,
        max_position_size_pct: 0.10,
        max_open_positions: 4,
        min_signal_confidence: 0.60,
        order_throttle_secs: 300,
        regime_filter_enabled: true,
        regime_filter_threshold_pct: 0.01,
        max_net_exposure_pct: 0.40,
        max_positions_per_strategy: 2,
        daily_loss_tier1_pct: 0.02,
        daily_loss_tier2_pct: 0.03,
        regime_boosted_exposure_pct: 0.70,
    }
}

fn tiered_config() -> Config {
    Config {
        max_daily_loss_pct: 0.05,
        daily_loss_tier1_pct: 0.02,
        daily_loss_tier2_pct: 0.03,
        max_open_positions: 8,
        regime_boosted_exposure_pct: 0.70,
        ..default_config()
    }
}

struct Ctx {
    trading_halted: bool,
    account_equity: f64,
    daily_loss: f64,
    open_position_count: usize,
    position_value_for_symbol: f64,
    spy_day_change_pct: f64,
    net_long_exposure: f64,
    net_short_exposure: f64,
    strategy_position_count: usize,
    profit_target_hit: bool,
}

fn default_ctx() -> Ctx {
    Ctx {
        trading_halted: false,
        account_equity: 100_000.0,
        daily_loss: 0.0,
        open_position_count: 0,
        position_value_for_symbol: 5_000.0,
        spy_day_change_pct: 0.0,
        net_long_exposure: 0.0,
        net_short_exposure: 0.0,
        strategy_position_count: 0,
        profit_target_hit: false,
    }
}

fn breach(pct: f64, c: &Config) -> CapBreach {
    CapBreach {
        over_base_cap: pct > c.max_net_exposure_pct,
        over_boosted_cap: pct > c.regime_boosted_exposure_pct,
    }
}

/// The comparisons that the service makes before applying the risk rules.
fn facts(c: &Config, direction: Direction, confidence: f64, x: &Ctx, throttled: bool) -> RiskFacts {
    let loss_pct = if x.account_equity > 0.0 && x.daily_loss < 0.0 {
        x.daily_loss.abs() / x.account_equity
    } else {
        0.0
    };
    let eq = x.account_equity;
    let v = x.position_value_for_symbol;
    RiskFacts {
        direction,
        trading_halted: x.trading_halted,
        loss_at_halt_limit: loss_pct >= c.max_daily_loss_pct,
        loss_at_tier2: loss_pct >= c.daily_loss_tier2_pct,
        loss_at_tier1: loss_pct >= c.daily_loss_tier1_pct,
        profit_target_hit: x.profit_target_hit,
        confidence_below_min: confidence < c.min_signal_confidence,
        regime_filter_enabled: c.regime_filter_enabled,
        market_up_beyond_threshold: x.spy_day_change_pct > c.regime_filter_threshold_pct,
        market_down_beyond_threshold: x.spy_day_change_pct < -c.regime_filter_threshold_pct,
        equity_positive: eq > 0.0,
        long_now: breach(x.net_long_exposure / eq, c),
        long_with_order: breach((x.net_long_exposure + v) / eq, c),
        short_now: breach(x.net_short_exposure / eq, c),
        short_with_order: breach((x.net_short_exposure + v) / eq, c),
        strategy_position_count: x.strategy_position_count,
        max_positions_per_strategy: c.max_positions_per_strategy,
        open_position_count: x.open_position_count,
        max_open_positions: c.max_open_positions,
        exceeds_size_limit: v > eq * c.max_position_size_pct,
        exceeds_reduced_size_limit: v > eq * (c.max_position_size_pct * 0.5),
        throttled,
    }
}

fn judge(c: &Config, direction: Direction, confidence: f64, x: &Ctx) -> RiskVerdict {
    evaluate(&facts(c, direction, confidence, x, false))
}

#[test]
fn test_reject_when_trading_halted() {
    let mut ctx = default_ctx();
    ctx.trading_halted = true;
    let v = judge(&default_config(), Direction::Buy, 0.80, &ctx);
    assert_eq!(v, RiskVerdict::Halted);
    let reason = v.fixed_reason().expect("a halt has a fixed reason");
    assert_eq!(v.into_decision(reason), RiskDecision::Rejected("Trading is halted".into()));
}

#[test]
fn test_halt_all_on_daily_loss_breach() {
    let mut ctx = default_ctx();
    ctx.daily_loss = -2_500.0;
    let v = judge(&default_config(), Direction::Buy, 0.80, &ctx);
    assert!(matches!(v.into_decision("loss".into()), RiskDecision::HaltAll(_)));
}

#[test]
fn test_no_halt_when_loss_below_limit() {
    let mut ctx = default_ctx();
    ctx.daily_loss = -1_000.0;
    assert_eq!(judge(&default_config(), Direction::Buy, 0.80, &ctx), RiskVerdict::Approved);
}

#[test]
fn test_reject_low_confidence() {
    let v = judge(&default_config(), Direction::Buy, 0.40, &default_ctx());
    assert_eq!(v, RiskVerdict::LowConfidence);
}

#[test]
fn test_hold_always_approved() {
    assert_eq!(judge(&default_config(), Direction::Hold, 0.65, &default_ctx()), RiskVerdict::Approved);
}

#[test]
fn test_hold_with_low_confidence_rejected() {
    let v = judge(&default_config(), Direction::Hold, 0.10, &default_ctx());
    assert!(matches!(v.into_decision("low".into()), RiskDecision::Rejected(_)));
}

#[test]
fn test_reject_buy_at_max_positions() {
    let mut ctx = default_ctx();
    ctx.open_position_count = 4;
    let v = judge(&default_config(), Direction::Buy, 0.80, &ctx);
    assert_eq!(v, RiskVerdict::MaxOpenPositions { limit: 4, reduced: false });
}

#[test]
fn test_sell_rejected_at_max_positions() {
    let mut ctx = default_ctx();
    ctx.open_position_count = 4;
    let v = judge(&default_config(), Direction::Sell, 0.80, &ctx);
    assert_eq!(v, RiskVerdict::MaxOpenPositions { limit: 4, reduced: false });
}

#[test]
fn test_reject_oversized_position() {
    let mut ctx = default_ctx();
    ctx.position_value_for_symbol = 15_000.0;
    let v = judge(&default_config(), Direction::Buy, 0.80, &ctx);
    assert_eq!(v, RiskVerdict::PositionSize { reduced: false });
}

#[test]
fn test_reject_throttled_order() {
    let c = default_config();
    let mut throttle = OrderThrottle::new();
    throttle.record_order("AAPL");
    let throttled = throttle.is_throttled("AAPL", c.order_throttle_secs);
    assert!(throttled);
    let v = evaluate(&facts(&c, Direction::Buy, 0.80, &default_ctx(), throttled));
    assert_eq!(v, RiskVerdict::Throttled);
}

#[test]
fn test_different_symbol_not_throttled() {
    let c = default_config();
    let mut throttle = OrderThrottle::new();
    throttle.record_order("AAPL");
    let throttled = throttle.is_throttled("MSFT", c.order_throttle_secs);
    assert!(!throttled);
    let v = evaluate(&facts(&c, Direction::Buy, 0.80, &default_ctx(), throttled));
    assert_eq!(v, RiskVerdict::Approved);
}

#[test]
fn test_approved_when_all_checks_pass() {
    assert_eq!(judge(&default_config(), Direction::Buy, 0.80, &default_ctx()), RiskVerdict::Approved);
}

#[test]
fn test_halted_takes_priority_over_loss() {
    let mut ctx = default_ctx();
    ctx.trading_halted = true;
    ctx.daily_loss = -5_000.0;
    let v = judge(&default_config(), Direction::Buy, 0.80, &ctx);
    assert!(matches!(v.into_decision("halted".into()), RiskDecision::Rejected(_)));
}

#[test]
fn test_regime_filter_blocks_short_in_uptrend() {
    let mut ctx = default_ctx();
    ctx.spy_day_change_pct = 0.015;
    assert_eq!(judge(&default_config(), Direction::Sell, 0.80, &ctx), RiskVerdict::RegimeBlocksShort);
}

#[test]
fn test_regime_filter_blocks_long_in_downtrend() {
    let mut ctx = default_ctx();
    ctx.spy_day_change_pct = -0.015;
    assert_eq!(judge(&default_config(), Direction::Buy, 0.80, &ctx), RiskVerdict::RegimeBlocksLong);
}

#[test]
fn test_regime_filter_allows_long_in_uptrend() {
    let mut ctx = default_ctx();
    ctx.spy_day_change_pct = 0.015;
    assert_eq!(judge(&default_config(), Direction::Buy, 0.80, &ctx), RiskVerdict::Approved);
}

#[test]
fn test_regime_filter_allows_short_in_downtrend() {
    let mut ctx = default_ctx();
    ctx.spy_day_change_pct = -0.015;
    assert_eq!(judge(&default_config(), Direction::Sell, 0.80, &ctx), RiskVerdict::Approved);
}

#[test]
fn test_regime_filter_allows_within_threshold() {
    let mut ctx = default_ctx();
    ctx.spy_day_change_pct = 0.005;
    assert_eq!(judge(&default_config(), Direction::Sell, 0.80, &ctx), RiskVerdict::Approved);
}

#[test]
fn test_regime_filter_disabled() {
    let mut c = default_config();
    c.regime_filter_enabled = false;
    let mut ctx = default_ctx();
    ctx.spy_day_change_pct = 0.03;
    assert_eq!(judge(&c, Direction::Sell, 0.80, &ctx), RiskVerdict::Approved);
}

#[test]
fn test_reject_long_exceeding_net_exposure_cap() {
    let mut ctx = default_ctx();
    ctx.net_long_exposure = 35_000.0;
    ctx.position_value_for_symbol = 10_000.0;
    let v = judge(&default_config(), Direction::Buy, 0.80, &ctx);
    assert_eq!(v, RiskVerdict::LongExposureCap { boosted: false });
}

#[test]
fn test_reject_short_exceeding_net_exposure_cap() {
    let mut ctx = default_ctx();
    ctx.net_short_exposure = 35_000.0;
    ctx.position_value_for_symbol = 10_000.0;
    let v = judge(&default_config(), Direction::Sell, 0.80, &ctx);
    assert_eq!(v, RiskVerdict::ShortExposureCap { boosted: false });
}

#[test]
fn test_allow_within_net_exposure_cap() {
    let mut ctx = default_ctx();
    ctx.net_long_exposure = 20_000.0;
    ctx.position_value_for_symbol = 10_000.0;
    assert_eq!(judge(&default_config(), Direction::Buy, 0.80, &ctx), RiskVerdict::Approved);
}

#[test]
fn test_regime_boost_allows_long_in_uptrend() {
    let mut ctx = default_ctx();
    ctx.spy_day_change_pct = 0.015;
    ctx.net_long_exposure = 50_000.0;
    ctx.position_value_for_symbol = 10_000.0;
    assert_eq!(judge(&default_config(), Direction::Buy, 0.80, &ctx), RiskVerdict::Approved);
}

#[test]
fn test_regime_boost_still_caps_at_boosted_limit() {
    let mut ctx = default_ctx();
    ctx.spy_day_change_pct = 0.015;
    ctx.net_long_exposure = 65_000.0;
    ctx.position_value_for_symbol = 10_000.0;
    let v = judge(&default_config(), Direction::Buy, 0.80, &ctx);
    assert_eq!(v, RiskVerdict::LongExposureCap { boosted: true });
}

#[test]
fn test_regime_boost_does_not_apply_to_opposite_direction() {
    let mut c = default_config();
    c.regime_filter_enabled = false;
    let mut ctx = default_ctx();
    ctx.spy_day_change_pct = 0.015;
    ctx.net_short_exposure = 35_000.0;
    ctx.position_value_for_symbol = 10_000.0;
    let v = judge(&c, Direction::Sell, 0.80, &ctx);
    assert!(matches!(v.into_decision("cap".into()), RiskDecision::Rejected(_)));
}

#[test]
fn test_regime_boost_allows_short_in_downtrend() {
    let mut ctx = default_ctx();
    ctx.spy_day_change_pct = -0.015;
    ctx.net_short_exposure = 50_000.0;
    ctx.position_value_for_symbol = 10_000.0;
    assert_eq!(judge(&default_config(), Direction::Sell, 0.80, &ctx), RiskVerdict::Approved);
}

#[test]
fn test_no_regime_boost_in_flat_market() {
    let mut ctx = default_ctx();
    ctx.spy_day_change_pct = 0.005;
    ctx.net_long_exposure = 35_000.0;
    ctx.position_value_for_symbol = 10_000.0;
    let v = judge(&default_config(), Direction::Buy, 0.80, &ctx);
    assert!(matches!(v.into_decision("cap".into()), RiskDecision::Rejected(_)));
}

#[test]
fn test_reject_strategy_at_max_positions() {
    let mut ctx = default_ctx();
    ctx.strategy_position_count = 2;
    assert_eq!(judge(&default_config(), Direction::Sell, 0.80, &ctx), RiskVerdict::StrategyLimit);
}

#[test]
fn test_allow_strategy_below_limit() {
    let mut ctx = default_ctx();
    ctx.strategy_position_count = 1;
    assert_eq!(judge(&default_config(), Direction::Sell, 0.80, &ctx), RiskVerdict::Approved);
}

#[test]
fn test_tier1_reduces_max_positions() {
    let mut ctx = default_ctx();
    ctx.daily_loss = -2_500.0;
    ctx.open_position_count = 4;
    let v = judge(&tiered_config(), Direction::Buy, 0.80, &ctx);
    assert_eq!(v, RiskVerdict::MaxOpenPositions { limit: 4, reduced: true });
}

#[test]
fn test_tier1_allows_below_reduced_limit() {
    let mut ctx = default_ctx();
    ctx.daily_loss = -2_500.0;
    ctx.open_position_count = 3;
    assert_eq!(judge(&tiered_config(), Direction::Buy, 0.80, &ctx), RiskVerdict::Approved);
}

#[test]
fn test_tier2_blocks_all_new_entries() {
    let mut ctx = default_ctx();
    ctx.daily_loss = -3_500.0;
    assert_eq!(judge(&tiered_config(), Direction::Buy, 0.80, &ctx), RiskVerdict::LossTier2);
}

#[test]
fn test_tier2_blocks_sells_too() {
    let mut ctx = default_ctx();
    ctx.daily_loss = -3_500.0;
    assert_eq!(judge(&tiered_config(), Direction::Sell, 0.80, &ctx), RiskVerdict::LossTier2);
}

#[test]
fn test_tier3_halts_all_trading() {
    let mut ctx = default_ctx();
    ctx.daily_loss = -5_500.0;
    let v = judge(&tiered_config(), Direction::Buy, 0.80, &ctx);
    assert_eq!(v, RiskVerdict::DailyLossLimit);
    assert!(matches!(v.into_decision("halt".into()), RiskDecision::HaltAll(_)));
}

#[test]
fn test_profit_target_blocks_new_buy() {
    let mut ctx = default_ctx();
    ctx.profit_target_hit = true;
    assert_eq!(judge(&default_config(), Direction::Buy, 0.80, &ctx), RiskVerdict::ProfitTargetHit);
}

#[test]
fn test_profit_target_blocks_new_sell() {
    let mut ctx = default_ctx();
    ctx.profit_target_hit = true;
    assert_eq!(judge(&default_config(), Direction::Sell, 0.80, &ctx), RiskVerdict::ProfitTargetHit);
}

#[test]
fn test_profit_target_allows_hold() {
    let mut ctx = default_ctx();
    ctx.profit_target_hit = true;
    assert_eq!(judge(&default_config(), Direction::Hold, 0.80, &ctx), RiskVerdict::Approved);
}

#[test]
fn test_no_block_when_profit_target_not_hit() {
    let mut ctx = default_ctx();
    ctx.profit_target_hit = false;
    assert_eq!(judge(&default_config(), Direction::Buy, 0.80, &ctx), RiskVerdict::Approved);
}

#[test]
fn test_no_tier_when_loss_below_tier1() {
    let mut ctx = default_ctx();
    ctx.daily_loss = -1_500.0;
    ctx.open_position_count = 7;
    assert_eq!(judge(&tiered_config(), Direction::Buy, 0.80, &ctx), RiskVerdict::Approved);
}

// --- Swing rules, with the swing defaults: 6 positions, 6% heat, 5% stop,
// 0.65 composite confidence, and the shared 2% daily loss limit ---

struct SwingCtx {
    trading_halted: bool,
    account_equity: f64,
    daily_loss: f64,
    swing_position_count: usize,
    current_portfolio_heat: f64,
    position_value_for_symbol: f64,
}

fn default_swing_ctx() -> SwingCtx {
    SwingCtx {
        trading_halted: false,
        account_equity: 100_000.0,
        daily_loss: 0.0,
        swing_position_count: 0,
        current_portfolio_heat: 0.0,
        position_value_for_symbol: 10_000.0,
    }
}

fn swing_judge(direction: Direction, confidence: f64, x: &SwingCtx) -> SwingRiskVerdict {
    let eq = x.account_equity;
    let loss_hit = eq > 0.0 && x.daily_loss < 0.0 && x.daily_loss.abs() / eq >= 0.02;
    let heat = eq > 0.0 && x.current_portfolio_heat + x.position_value_for_symbol * 0.05 / eq > 0.06;
    evaluate_swing(&SwingRiskFacts {
        direction,
        trading_halted: x.trading_halted,
        loss_at_halt_limit: loss_hit,
        confidence_below_min: confidence < 0.65,
        swing_position_count: x.swing_position_count,
        max_swing_positions: 6,
        heat_exceeded: heat,
    })
}

#[test]
fn test_swing_approved_when_all_checks_pass() {
    assert_eq!(swing_judge(Direction::Buy, 0.80, &default_swing_ctx()), SwingRiskVerdict::Approved);
}

#[test]
fn test_swing_reject_low_composite_confidence() {
    assert_eq!(swing_judge(Direction::Buy, 0.40, &default_swing_ctx()), SwingRiskVerdict::LowConfidence);
}

#[test]
fn test_swing_reject_max_positions() {
    let mut ctx = default_swing_ctx();
    ctx.swing_position_count = 6;
    assert_eq!(swing_judge(Direction::Buy, 0.80, &ctx), SwingRiskVerdict::MaxSwingPositions);
}

#[test]
fn test_swing_sell_rejected_at_max_positions() {
    let mut ctx = default_swing_ctx();
    ctx.swing_position_count = 6;
    assert_eq!(swing_judge(Direction::Sell, 0.80, &ctx), SwingRiskVerdict::MaxSwingPositions);
}

#[test]
fn test_swing_reject_portfolio_heat_exceeded() {
    let mut ctx = default_swing_ctx();
    ctx.current_portfolio_heat = 0.055;
    ctx.position_value_for_symbol = 20_000.0;
    assert_eq!(swing_judge(Direction::Buy, 0.80, &ctx), SwingRiskVerdict::PortfolioHeat);
}

#[test]
fn test_swing_hold_always_approved() {
    assert_eq!(swing_judge(Direction::Hold, 0.80, &default_swing_ctx()), SwingRiskVerdict::Approved);
}

#[test]
fn test_swing_halted_rejected() {
    let mut ctx = default_swing_ctx();
    ctx.trading_halted = true;
    let v = swing_judge(Direction::Buy, 0.80, &ctx);
    assert!(matches!(v.into_decision("halted".into()), RiskDecision::Rejected(_)));
}

#[test]
fn swing_daily_loss_halts_all() {
    let mut ctx = default_swing_ctx();
    ctx.daily_loss = -2_000.0;
    let v = swing_judge(Direction::Buy, 0.80, &ctx);
    assert_eq!(v, SwingRiskVerdict::DailyLossLimit);
    assert!(matches!(v.into_decision("loss".into()), RiskDecision::HaltAll(_)));
}

#[test]
fn stricter_situation_rejects_what_laxer_one_approved() {
    let c = default_config();
    let lax = facts(&c, Direction::Buy, 0.80, &default_ctx(), false);
    assert_eq!(evaluate(&lax), RiskVerdict::Approved);
    let mut strict = lax;
    strict.open_position_count = 4;
    assert_ne!(evaluate(&strict), RiskVerdict::Approved);
}

#[test]
fn tier1_never_goes_below_one_position() {
    assert_eq!(effective_max_positions(1, true), 1);
    assert_eq!(effective_max_positions(3, true), 1);
    assert_eq!(effective_max_positions(8, true), 4);
    assert_eq!(effective_max_positions(8, false), 8);
}

#[test]
fn hold_is_approved_even_over_the_exposure_caps() {
    let mut ctx = default_ctx();
    ctx.net_long_exposure = 60_000.0;
    ctx.net_short_exposure = 80_000.0;
    assert_eq!(judge(&default_config(), Direction::Hold, 0.65, &ctx), RiskVerdict::Approved);
    assert_eq!(judge(&default_config(), Direction::Buy, 0.65, &ctx), RiskVerdict::LongExposureCap { boosted: false });
}

#[test]
fn profit_target_rejection_has_its_fixed_reason() {
    let mut ctx = default_ctx();
    ctx.profit_target_hit = true;
    let v = judge(&default_config(), Direction::Buy, 0.80, &ctx);
    assert_eq!(
        v.into_decision(v.fixed_reason().unwrap()),
        RiskDecision::Rejected("Daily profit target already hit — no new entries until next trading day".into())
    );
    assert_eq!(RiskVerdict::LowConfidence.fixed_reason(), None);
}

#[test]
fn swing_halt_has_its_fixed_reason() {
    assert_eq!(SwingRiskVerdict::Halted.fixed_reason(), Some("Trading is halted".to_string()));
    assert_eq!(SwingRiskVerdict::PortfolioHeat.fixed_reason(), None);
}
