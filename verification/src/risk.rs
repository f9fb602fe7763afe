//! The risk rules: the ordered checks that every signal passes before an order
//! reaches the broker.
//!
//! The service holds the risk configuration, the account figures and the market
//! data as floating-point numbers. It compares them and hands the outcomes to
//! [`evaluate`] and [`evaluate_swing`] as [`RiskFacts`] and [`SwingRiskFacts`];
//! these functions decide, in the fixed order of the rules, which rule (if any)
//! stops the signal.

use vstd::prelude::*;

use crate::models::Direction;

verus! {

/// Whether an exposure, as a fraction of equity, is above the base net-exposure
/// cap and above the regime-boosted cap.
#[derive(Debug, Clone, Copy, PartialEq, Eq, Structural)]
pub struct CapBreach {
    /// Above `max_net_exposure_pct`.
    pub over_base_cap: bool,
    /// Above `regime_boosted_exposure_pct`.
    pub over_boosted_cap: bool,
}

/// The outcomes of the comparisons that a day-trading signal is judged on.
#[derive(Debug, Clone, Copy, PartialEq, Eq, Structural)]
pub struct RiskFacts {
    pub direction: Direction,
    /// Trading was halted by hand or by an earlier loss breach.
    pub trading_halted: bool,
    /// The day's loss as a fraction of equity (zero when there is no loss or no
    /// positive equity) is at least `max_daily_loss_pct`.
    pub loss_at_halt_limit: bool,
    /// The same fraction is at least `daily_loss_tier2_pct`.
    pub loss_at_tier2: bool,
    /// The same fraction is at least `daily_loss_tier1_pct`.
    pub loss_at_tier1: bool,
    /// The daily profit target was hit today.
    pub profit_target_hit: bool,
    /// The signal's confidence is below `min_signal_confidence`.
    pub confidence_below_min: bool,
    pub regime_filter_enabled: bool,
    /// SPY's change today is above `regime_filter_threshold_pct`.
    pub market_up_beyond_threshold: bool,
    /// SPY's change today is below the negated threshold.
    pub market_down_beyond_threshold: bool,
    /// Account equity is positive.
    pub equity_positive: bool,
    /// The current long exposure against the caps.
    pub long_now: CapBreach,
    /// The long exposure with the symbol's position value added.
    pub long_with_order: CapBreach,
    /// The current short exposure against the caps.
    pub short_now: CapBreach,
    /// The short exposure with the symbol's position value added.
    pub short_with_order: CapBreach,
    /// Open positions of the signal's strategy.
    pub strategy_position_count: usize,
    pub max_positions_per_strategy: usize,
    pub open_position_count: usize,
    pub max_open_positions: usize,
    /// The position value is above `max_position_size_pct` of equity.
    pub exceeds_size_limit: bool,
    /// The position value is above half of `max_position_size_pct` of equity.
    pub exceeds_reduced_size_limit: bool,
    /// An order for the symbol was placed within the throttle window.
    pub throttled: bool,
}

/// Which rule decided a day-trading signal.
#[derive(Debug, Clone, Copy, PartialEq, Eq, Structural)]
pub enum RiskVerdict {
    Approved,
    /// Trading is halted.
    Halted,
    /// The daily loss limit is reached: all trading must halt.
    DailyLossLimit,
    /// Loss tier 2: no new entries.
    LossTier2,
    /// The daily profit target was hit: no new entries.
    ProfitTargetHit,
    /// The signal's confidence is too low.
    LowConfidence,
    /// The regime filter suppresses a short in a rising market.
    RegimeBlocksShort,
    /// The regime filter suppresses a long in a falling market.
    RegimeBlocksLong,
    /// Net long exposure would exceed its cap; `boosted` when the regime-boosted cap applied.
    LongExposureCap { boosted: bool },
    /// Net short exposure would exceed its cap; `boosted` when the regime-boosted cap applied.
    ShortExposureCap { boosted: bool },
    /// The signal's strategy holds its maximum number of positions.
    StrategyLimit,
    /// The open position limit is reached; `reduced` when loss tier 1 halved it.
    MaxOpenPositions { limit: usize, reduced: bool },
    /// The position value exceeds the size limit; `reduced` when loss tier 1 halved it.
    PositionSize { reduced: bool },
    /// An order for the symbol was placed too recently.
    Throttled,
}

/// The open-position limit in force: halved (but at least one) in loss tier 1.
pub open spec fn effective_max_positions_spec(max_open_positions: usize, tier1: bool) -> usize {
    if tier1 {
        if max_open_positions / 2 >= 1 {
            (max_open_positions / 2) as usize
        } else {
            1
        }
    } else {
        max_open_positions
    }
}

/// The regime confirms a rising market for the exposure caps.
pub open spec fn regime_bullish(f: RiskFacts) -> bool {
    f.regime_filter_enabled && f.market_up_beyond_threshold
}

/// The regime confirms a falling market for the exposure caps.
pub open spec fn regime_bearish(f: RiskFacts) -> bool {
    f.regime_filter_enabled && f.market_down_beyond_threshold
}

/// The long exposure that the signal would leave: with the order's value for a BUY.
pub open spec fn long_exposure(f: RiskFacts) -> CapBreach {
    if f.direction == Direction::Buy {
        f.long_with_order
    } else {
        f.long_now
    }
}

/// The short exposure that the signal would leave: with the order's value for a SELL.
pub open spec fn short_exposure(f: RiskFacts) -> CapBreach {
    if f.direction == Direction::Sell {
        f.short_with_order
    } else {
        f.short_now
    }
}

/// An exposure breaches the cap that applies: the boosted one when the regime
/// confirms that side, the base one otherwise.
pub open spec fn breaches(b: CapBreach, boosted: bool) -> bool {
    if boosted {
        b.over_boosted_cap
    } else {
        b.over_base_cap
    }
}

/// The risk rules for day-trading signals, in the order in which they are
/// applied; the first rule that objects decides.
pub open spec fn risk_verdict(f: RiskFacts) -> RiskVerdict {
    let entry = f.direction != Direction::Hold;
    let limit = effective_max_positions_spec(f.max_open_positions, f.loss_at_tier1);
    if f.trading_halted {
        RiskVerdict::Halted
    } else if f.loss_at_halt_limit {
        RiskVerdict::DailyLossLimit
    } else if f.loss_at_tier2 && entry {
        RiskVerdict::LossTier2
    } else if f.profit_target_hit && entry {
        RiskVerdict::ProfitTargetHit
    } else if f.confidence_below_min {
        RiskVerdict::LowConfidence
    } else if !entry {
        RiskVerdict::Approved
    } else if f.regime_filter_enabled && f.direction == Direction::Sell
        && f.market_up_beyond_threshold {
        RiskVerdict::RegimeBlocksShort
    } else if f.regime_filter_enabled && f.direction == Direction::Buy
        && f.market_down_beyond_threshold {
        RiskVerdict::RegimeBlocksLong
    } else if f.equity_positive && breaches(long_exposure(f), regime_bullish(f)) {
        RiskVerdict::LongExposureCap { boosted: regime_bullish(f) }
    } else if f.equity_positive && breaches(short_exposure(f), regime_bearish(f)) {
        RiskVerdict::ShortExposureCap { boosted: regime_bearish(f) }
    } else if f.strategy_position_count >= f.max_positions_per_strategy {
        RiskVerdict::StrategyLimit
    } else if f.open_position_count >= limit {
        RiskVerdict::MaxOpenPositions { limit, reduced: f.loss_at_tier1 }
    } else if f.equity_positive && (if f.loss_at_tier1 {
        f.exceeds_reduced_size_limit
    } else {
        f.exceeds_size_limit
    }) {
        RiskVerdict::PositionSize { reduced: f.loss_at_tier1 }
    } else if f.throttled {
        RiskVerdict::Throttled
    } else {
        RiskVerdict::Approved
    }
}

/// The open-position limit in force: `max_open_positions`, or in loss tier 1 half
/// of it rounded down, but never below one.
pub fn effective_max_positions(max_open_positions: usize, tier1: bool) -> (r: usize)
    ensures
        r == effective_max_positions_spec(max_open_positions, tier1),
{
    if tier1 {
        let half = max_open_positions / 2;
        if half >= 1 {
            half
        } else {
            1
        }
    } else {
        max_open_positions
    }
}

fn exposure_breach(b: CapBreach, boosted: bool) -> (r: bool)
    ensures
        r == breaches(b, boosted),
{
    if boosted {
        b.over_boosted_cap
    } else {
        b.over_base_cap
    }
}

/// Judges a day-trading signal. The checks run in this order, and the first that
/// objects decides: trading halted; daily loss at the halt limit; loss tier 2 (not
/// for HOLD); profit target hit (not for HOLD); confidence too low; a HOLD is
/// approved here, as it places no order; the regime filter; the long and then the
/// short exposure cap (with positive equity); the per-strategy limit; the
/// open-position limit; the position size (with positive equity); the throttle.
pub fn evaluate(f: &RiskFacts) -> (r: RiskVerdict)
    ensures
        r == risk_verdict(*f),
        f.trading_halted ==> r == RiskVerdict::Halted,
{
    let entry = match f.direction {
        Direction::Hold => false,
        _ => true,
    };
    if f.trading_halted {
        return RiskVerdict::Halted;
    }
    if f.loss_at_halt_limit {
        return RiskVerdict::DailyLossLimit;
    }
    if f.loss_at_tier2 && entry {
        return RiskVerdict::LossTier2;
    }
    if f.profit_target_hit && entry {
        return RiskVerdict::ProfitTargetHit;
    }
    let limit = effective_max_positions(f.max_open_positions, f.loss_at_tier1);
    if f.confidence_below_min {
        return RiskVerdict::LowConfidence;
    }
    if !entry {
        return RiskVerdict::Approved;
    }
    if f.regime_filter_enabled {
        if f.direction == Direction::Sell && f.market_up_beyond_threshold {
            return RiskVerdict::RegimeBlocksShort;
        }
        if f.direction == Direction::Buy && f.market_down_beyond_threshold {
            return RiskVerdict::RegimeBlocksLong;
        }
    }
    if f.equity_positive {
        let bullish = f.regime_filter_enabled && f.market_up_beyond_threshold;
        let bearish = f.regime_filter_enabled && f.market_down_beyond_threshold;
        let long_side = if f.direction == Direction::Buy {
            f.long_with_order
        } else {
            f.long_now
        };
        let short_side = if f.direction == Direction::Sell {
            f.short_with_order
        } else {
            f.short_now
        };
        if exposure_breach(long_side, bullish) {
            return RiskVerdict::LongExposureCap { boosted: bullish };
        }
        if exposure_breach(short_side, bearish) {
            return RiskVerdict::ShortExposureCap { boosted: bearish };
        }
    }
    if f.strategy_position_count >= f.max_positions_per_strategy {
        return RiskVerdict::StrategyLimit;
    }
    if f.open_position_count >= limit {
        return RiskVerdict::MaxOpenPositions { limit, reduced: f.loss_at_tier1 };
    }
    if f.equity_positive {
        let over = if f.loss_at_tier1 {
            f.exceeds_reduced_size_limit
        } else {
            f.exceeds_size_limit
        };
        if over {
            return RiskVerdict::PositionSize { reduced: f.loss_at_tier1 };
        }
    }
    if f.throttled {
        return RiskVerdict::Throttled;
    }
    RiskVerdict::Approved
}


/// The answer of the risk rules, with the reason shown to the operator.
#[derive(Debug, Clone, PartialEq)]
pub enum RiskDecision {
    Approved,
    Rejected(String),
    /// The daily loss limit is breached: halt all trading.
    HaltAll(String),
}

/// The reason shown when trading is halted.
pub open spec fn halted_text() -> Seq<char> {
    "Trading is halted"@
}

/// The reason shown when the daily profit target blocks a new entry.
pub open spec fn profit_target_text() -> Seq<char> {
    "Daily profit target already hit — no new entries until next trading day"@
}

impl RiskVerdict {
    /// The reason text of a verdict whose reason names no figure: a halt, or the
    /// profit target; `None` for every other verdict, whose reason the service
    /// writes with its figures.
    pub fn fixed_reason(&self) -> (r: Option<String>)
        ensures
            *self == RiskVerdict::Halted ==> (r matches Some(t) && t@ == halted_text()),
            *self == RiskVerdict::ProfitTargetHit ==> (r matches Some(t) && t@ == profit_target_text()),
            *self != RiskVerdict::Halted && *self != RiskVerdict::ProfitTargetHit ==> r is None,
    {
        match self {
            RiskVerdict::Halted => Some(String::from_str("Trading is halted")),
            RiskVerdict::ProfitTargetHit => Some(
                String::from_str("Daily profit target already hit — no new entries until next trading day"),
            ),
            _ => None,
        }
    }

    /// The decision for this verdict with the given reason text: approval carries
    /// no reason, the daily loss limit halts all trading, every other rule rejects.
    pub fn into_decision(self, reason: String) -> (r: RiskDecision)
        ensures
            self == RiskVerdict::Approved ==> r == RiskDecision::Approved,
            self == RiskVerdict::DailyLossLimit ==> r == RiskDecision::HaltAll(reason),
            self != RiskVerdict::Approved && self != RiskVerdict::DailyLossLimit ==> r
                == RiskDecision::Rejected(reason),
    {
        match self {
            RiskVerdict::Approved => RiskDecision::Approved,
            RiskVerdict::DailyLossLimit => RiskDecision::HaltAll(reason),
            _ => RiskDecision::Rejected(reason),
        }
    }
}

/// The outcomes of the comparisons that a swing signal is judged on.
#[derive(Debug, Clone, Copy, PartialEq, Eq, Structural)]
pub struct SwingRiskFacts {
    pub direction: Direction,
    pub trading_halted: bool,
    /// Equity is positive, the day shows a loss, and the loss as a fraction of
    /// equity is at least `max_daily_loss_pct`.
    pub loss_at_halt_limit: bool,
    /// The composite confidence is below `min_composite_confidence`.
    pub confidence_below_min: bool,
    pub swing_position_count: usize,
    pub max_swing_positions: usize,
    /// Equity is positive and the portfolio heat with the new position is above
    /// `max_portfolio_heat_pct`.
    pub heat_exceeded: bool,
}

/// Which rule decided a swing signal.
#[derive(Debug, Clone, Copy, PartialEq, Eq, Structural)]
pub enum SwingRiskVerdict {
    Approved,
    Halted,
    /// The daily loss limit is reached: all trading must halt.
    DailyLossLimit,
    LowConfidence,
    MaxSwingPositions,
    PortfolioHeat,
}

/// The swing risk rules in the order in which they are applied.
pub open spec fn swing_risk_verdict(f: SwingRiskFacts) -> SwingRiskVerdict {
    if f.trading_halted {
        SwingRiskVerdict::Halted
    } else if f.loss_at_halt_limit {
        SwingRiskVerdict::DailyLossLimit
    } else if f.confidence_below_min {
        SwingRiskVerdict::LowConfidence
    } else if f.direction == Direction::Hold {
        SwingRiskVerdict::Approved
    } else if f.swing_position_count >= f.max_swing_positions {
        SwingRiskVerdict::MaxSwingPositions
    } else if f.heat_exceeded {
        SwingRiskVerdict::PortfolioHeat
    } else {
        SwingRiskVerdict::Approved
    }
}

/// Judges a swing signal: trading halted; daily loss limit; composite confidence
/// too low; a HOLD is approved here; the swing position limit (for BUY and SELL
/// alike); the portfolio heat.
pub fn evaluate_swing(f: &SwingRiskFacts) -> (r: SwingRiskVerdict)
    ensures
        r == swing_risk_verdict(*f),
{
    if f.trading_halted {
        return SwingRiskVerdict::Halted;
    }
    if f.loss_at_halt_limit {
        return SwingRiskVerdict::DailyLossLimit;
    }
    if f.confidence_below_min {
        return SwingRiskVerdict::LowConfidence;
    }
    if f.direction == Direction::Hold {
        return SwingRiskVerdict::Approved;
    }
    if f.swing_position_count >= f.max_swing_positions {
        return SwingRiskVerdict::MaxSwingPositions;
    }
    if f.heat_exceeded {
        return SwingRiskVerdict::PortfolioHeat;
    }
    SwingRiskVerdict::Approved
}

impl SwingRiskVerdict {
    /// The reason text of a verdict whose reason names no figure: a halt; `None`
    /// for every other verdict.
    pub fn fixed_reason(&self) -> (r: Option<String>)
        ensures
            *self == SwingRiskVerdict::Halted ==> (r matches Some(t) && t@ == halted_text()),
            *self != SwingRiskVerdict::Halted ==> r is None,
    {
        match self {
            SwingRiskVerdict::Halted => Some(String::from_str("Trading is halted")),
            _ => None,
        }
    }

    /// The decision for this verdict with the given reason text.
    pub fn into_decision(self, reason: String) -> (r: RiskDecision)
        ensures
            self == SwingRiskVerdict::Approved ==> r == RiskDecision::Approved,
            self == SwingRiskVerdict::DailyLossLimit ==> r == RiskDecision::HaltAll(reason),
            self != SwingRiskVerdict::Approved && self != SwingRiskVerdict::DailyLossLimit ==> r
                == RiskDecision::Rejected(reason),
    {
        match self {
            SwingRiskVerdict::Approved => RiskDecision::Approved,
            SwingRiskVerdict::DailyLossLimit => RiskDecision::HaltAll(reason),
            _ => RiskDecision::Rejected(reason),
        }
    }
}

// ---------------------------------------------------------------------------
// Properties of the risk rules
// ---------------------------------------------------------------------------

/// A halted engine rejects every signal, whatever else holds; the halt comes
/// before the loss checks.
pub proof fn lemma_halt_takes_priority(f: RiskFacts)
    requires
        f.trading_halted,
    ensures
        risk_verdict(f) == RiskVerdict::Halted,
{
}

/// A BUY or SELL that is approved passed every rule: no halt, no loss limit or
/// tier 2, no profit target, enough confidence, room under the per-strategy and
/// the (possibly halved) open-position limits, within the (possibly halved) size
/// limit when equity is positive, and not throttled.
pub proof fn lemma_approved_entry_passed_every_rule(f: RiskFacts)
    requires
        f.direction != Direction::Hold,
        risk_verdict(f) == RiskVerdict::Approved,
    ensures
        !f.trading_halted,
        !f.loss_at_halt_limit,
        !f.loss_at_tier2,
        !f.profit_target_hit,
        !f.confidence_below_min,
        f.strategy_position_count < f.max_positions_per_strategy,
        f.open_position_count < effective_max_positions_spec(
            f.max_open_positions,
            f.loss_at_tier1,
        ),
        f.equity_positive ==> !(if f.loss_at_tier1 {
            f.exceeds_reduced_size_limit
        } else {
            f.exceeds_size_limit
        }),
        !f.throttled,
        f.regime_filter_enabled && f.direction == Direction::Sell ==> !f.market_up_beyond_threshold,
        f.regime_filter_enabled && f.direction == Direction::Buy ==> !f.market_down_beyond_threshold,
{
}

/// The order's value counts only on its own side. For a BUY the verdict does not
/// depend on what the short exposure would be with the order added, nor on the
/// long exposure without it; for a SELL the other way round. `g` differs from `f`
/// at most in those two fields.
pub proof fn lemma_order_counts_on_its_own_side(f: RiskFacts, g: RiskFacts)
    requires
        f.direction == Direction::Buy || f.direction == Direction::Sell,
        f.direction == Direction::Buy ==> g == (RiskFacts {
            short_with_order: g.short_with_order,
            long_now: g.long_now,
            ..f
        }),
        f.direction == Direction::Sell ==> g == (RiskFacts {
            long_with_order: g.long_with_order,
            short_now: g.short_now,
            ..f
        }),
    ensures
        risk_verdict(f) == risk_verdict(g),
{
}

/// A BUY or SELL that passes every rule is approved: no halt, no loss limit, no
/// loss tier 2, no profit target, enough confidence, not suppressed by the regime
/// filter, its own side within its cap with the order added and the other side
/// within its cap as it stands (when equity is positive), room under the
/// per-strategy and open-position limits, within the size limit, not throttled.
pub proof fn lemma_entry_passing_every_rule_is_approved(f: RiskFacts)
    requires
        f.direction == Direction::Buy || f.direction == Direction::Sell,
        !f.trading_halted,
        !f.loss_at_halt_limit,
        !f.loss_at_tier2,
        !f.profit_target_hit,
        !f.confidence_below_min,
        f.regime_filter_enabled && f.direction == Direction::Sell ==> !f.market_up_beyond_threshold,
        f.regime_filter_enabled && f.direction == Direction::Buy ==> !f.market_down_beyond_threshold,
        f.equity_positive ==> {
            let bull = f.regime_filter_enabled && f.market_up_beyond_threshold;
            let bear = f.regime_filter_enabled && f.market_down_beyond_threshold;
            let long = if f.direction == Direction::Buy {
                f.long_with_order
            } else {
                f.long_now
            };
            let short = if f.direction == Direction::Sell {
                f.short_with_order
            } else {
                f.short_now
            };
            &&& !(if bull {
                long.over_boosted_cap
            } else {
                long.over_base_cap
            })
            &&& !(if bear {
                short.over_boosted_cap
            } else {
                short.over_base_cap
            })
        },
        f.strategy_position_count < f.max_positions_per_strategy,
        f.open_position_count < effective_max_positions_spec(f.max_open_positions, f.loss_at_tier1),
        f.equity_positive ==> !(if f.loss_at_tier1 {
            f.exceeds_reduced_size_limit
        } else {
            f.exceeds_size_limit
        }),
        !f.throttled,
    ensures
        risk_verdict(f) == RiskVerdict::Approved,
{
}

/// Reaching the daily loss limit halts all trading, for every signal, unless
/// trading is already halted.
pub proof fn lemma_loss_limit_halts_all(f: RiskFacts)
    requires
        !f.trading_halted,
        f.loss_at_halt_limit,
    ensures
        risk_verdict(f) == RiskVerdict::DailyLossLimit,
{
}

/// Loss tier 2 and a hit profit target block every new BUY or SELL (after the
/// halt and the loss limit).
pub proof fn lemma_tier2_and_profit_target_block_entries(f: RiskFacts)
    requires
        f.direction != Direction::Hold,
        !f.trading_halted,
        !f.loss_at_halt_limit,
        f.loss_at_tier2 || f.profit_target_hit,
    ensures
        risk_verdict(f) == (if f.loss_at_tier2 {
            RiskVerdict::LossTier2
        } else {
            RiskVerdict::ProfitTargetHit
        }),
{
}

/// A HOLD is approved once trading is not halted, the daily loss limit is not
/// reached and its confidence is high enough: loss tier 2, the profit target, the
/// regime filter, the exposure caps, the position limits, the size limit and the
/// throttle never stop it.
pub proof fn lemma_hold_is_not_limited(f: RiskFacts)
    requires
        f.direction == Direction::Hold,
        !f.trading_halted,
        !f.loss_at_halt_limit,
        !f.confidence_below_min,
    ensures
        risk_verdict(f) == RiskVerdict::Approved,
{
}

/// Loss tier 1 never raises the open-position limit, as long as that limit is at
/// least one.
pub proof fn lemma_tier1_never_raises_limit(max_open_positions: usize)
    requires
        max_open_positions >= 1,
    ensures
        effective_max_positions_spec(max_open_positions, true) <= effective_max_positions_spec(
            max_open_positions,
            false,
        ),
{
}

/// The facts of a well-formed judgement: a value above the full size limit is
/// also above half of it.
pub open spec fn risk_facts_consistent(f: RiskFacts) -> bool {
    f.exceeds_size_limit ==> f.exceeds_reduced_size_limit
}

/// One cap breach is at least as severe as another.
pub open spec fn breach_at_least(a: CapBreach, b: CapBreach) -> bool {
    &&& a.over_base_cap ==> b.over_base_cap
    &&& a.over_boosted_cap ==> b.over_boosted_cap
}

/// `g` describes a situation at least as restrictive as `f`: the same signal
/// direction and market regime, every objection of `f` also raised in `g`, at
/// least as many positions and no higher limits.
pub open spec fn at_least_as_restrictive(f: RiskFacts, g: RiskFacts) -> bool {
    &&& f.direction == g.direction
    &&& f.regime_filter_enabled == g.regime_filter_enabled
    &&& f.market_up_beyond_threshold == g.market_up_beyond_threshold
    &&& f.market_down_beyond_threshold == g.market_down_beyond_threshold
    &&& f.equity_positive ==> g.equity_positive
    &&& f.trading_halted ==> g.trading_halted
    &&& f.loss_at_halt_limit ==> g.loss_at_halt_limit
    &&& f.loss_at_tier2 ==> g.loss_at_tier2
    &&& f.loss_at_tier1 ==> g.loss_at_tier1
    &&& f.profit_target_hit ==> g.profit_target_hit
    &&& f.confidence_below_min ==> g.confidence_below_min
    &&& breach_at_least(f.long_now, g.long_now)
    &&& breach_at_least(f.long_with_order, g.long_with_order)
    &&& breach_at_least(f.short_now, g.short_now)
    &&& breach_at_least(f.short_with_order, g.short_with_order)
    &&& f.strategy_position_count <= g.strategy_position_count
    &&& g.max_positions_per_strategy <= f.max_positions_per_strategy
    &&& f.open_position_count <= g.open_position_count
    &&& g.max_open_positions <= f.max_open_positions
    &&& f.exceeds_size_limit ==> g.exceeds_size_limit
    &&& f.exceeds_reduced_size_limit ==> g.exceeds_reduced_size_limit
    &&& f.throttled ==> g.throttled
}

/// Tightening the rules is always safe: a signal that is approved in a more
/// restrictive situation is approved in the less restrictive one too. This needs
/// an open-position limit of at least one in the less restrictive situation
/// (with a limit of zero, loss tier 1 raises the limit to one).
pub proof fn lemma_stricter_situation_never_approves_more(f: RiskFacts, g: RiskFacts)
    requires
        at_least_as_restrictive(f, g),
        risk_facts_consistent(g),
        f.max_open_positions >= 1,
        risk_verdict(g) == RiskVerdict::Approved,
    ensures
        risk_verdict(f) == RiskVerdict::Approved,
{
    if f.direction != Direction::Hold {
        lemma_approved_entry_passed_every_rule(g);
        assert(effective_max_positions_spec(g.max_open_positions, g.loss_at_tier1)
            <= effective_max_positions_spec(f.max_open_positions, f.loss_at_tier1));
    }
}

/// A halted engine rejects every swing signal.
pub proof fn lemma_swing_halt_takes_priority(f: SwingRiskFacts)
    requires
        f.trading_halted,
    ensures
        swing_risk_verdict(f) == SwingRiskVerdict::Halted,
{
}

/// An approved swing BUY or SELL passed every swing rule.
pub proof fn lemma_swing_approved_entry_passed_every_rule(f: SwingRiskFacts)
    requires
        f.direction != Direction::Hold,
        swing_risk_verdict(f) == SwingRiskVerdict::Approved,
    ensures
        !f.trading_halted,
        !f.loss_at_halt_limit,
        !f.confidence_below_min,
        f.swing_position_count < f.max_swing_positions,
        !f.heat_exceeded,
{
}

/// Tightening the swing rules is always safe: what is approved in a more
/// restrictive situation is approved in the less restrictive one.
pub proof fn lemma_swing_stricter_situation_never_approves_more(f: SwingRiskFacts, g: SwingRiskFacts)
    requires
        f.direction == g.direction,
        f.trading_halted ==> g.trading_halted,
        f.loss_at_halt_limit ==> g.loss_at_halt_limit,
        f.confidence_below_min ==> g.confidence_below_min,
        f.swing_position_count <= g.swing_position_count,
        g.max_swing_positions <= f.max_swing_positions,
        f.heat_exceeded ==> g.heat_exceeded,
        swing_risk_verdict(g) == SwingRiskVerdict::Approved,
    ensures
        swing_risk_verdict(f) == SwingRiskVerdict::Approved,
{
}

} // verus!
