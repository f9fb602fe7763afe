//! Validation of changes to the risk configuration made through the API.
//!
//! The percentages are floating-point numbers held by the service; it reports,
//! field by field, whether a new value was given outside `0.0..=1.0`. The
//! functions here decide which objection, if any, answers the request.

use vstd::prelude::*;

verus! {

/// The percentage fields of the day-trading risk configuration, in the order in
/// which a change request checks them.
#[derive(Debug, Clone, Copy, PartialEq, Eq, Structural)]
pub enum RiskPercentField {
    MaxDailyLossPct,
    MaxPositionSizePct,
    MinSignalConfidence,
    DayStopLossPct,
    DayTakeProfitPct,
    RegimeFilterThresholdPct,
    MaxNetExposurePct,
    DailyLossTier1Pct,
    DailyLossTier2Pct,
    DailyProfitTargetPct,
    RegimeBoostedExposurePct,
}

impl RiskPercentField {
    /// The field's name in the JSON API.
    pub fn name(&self) -> (r: &'static str)
        ensures
            r@ == risk_percent_field_name(*self),
    {
        match self {
            RiskPercentField::MaxDailyLossPct => "max_daily_loss_pct",
            RiskPercentField::MaxPositionSizePct => "max_position_size_pct",
            RiskPercentField::MinSignalConfidence => "min_signal_confidence",
            RiskPercentField::DayStopLossPct => "day_stop_loss_pct",
            RiskPercentField::DayTakeProfitPct => "day_take_profit_pct",
            RiskPercentField::RegimeFilterThresholdPct => "regime_filter_threshold_pct",
            RiskPercentField::MaxNetExposurePct => "max_net_exposure_pct",
            RiskPercentField::DailyLossTier1Pct => "daily_loss_tier1_pct",
            RiskPercentField::DailyLossTier2Pct => "daily_loss_tier2_pct",
            RiskPercentField::DailyProfitTargetPct => "daily_profit_target_pct",
            RiskPercentField::RegimeBoostedExposurePct => "regime_boosted_exposure_pct",
        }
    }
}

/// The JSON name of a percentage field.
pub open spec fn risk_percent_field_name(f: RiskPercentField) -> Seq<char> {
    match f {
        RiskPercentField::MaxDailyLossPct => "max_daily_loss_pct"@,
        RiskPercentField::MaxPositionSizePct => "max_position_size_pct"@,
        RiskPercentField::MinSignalConfidence => "min_signal_confidence"@,
        RiskPercentField::DayStopLossPct => "day_stop_loss_pct"@,
        RiskPercentField::DayTakeProfitPct => "day_take_profit_pct"@,
        RiskPercentField::RegimeFilterThresholdPct => "regime_filter_threshold_pct"@,
        RiskPercentField::MaxNetExposurePct => "max_net_exposure_pct"@,
        RiskPercentField::DailyLossTier1Pct => "daily_loss_tier1_pct"@,
        RiskPercentField::DailyLossTier2Pct => "daily_loss_tier2_pct"@,
        RiskPercentField::DailyProfitTargetPct => "daily_profit_target_pct"@,
        RiskPercentField::RegimeBoostedExposurePct => "regime_boosted_exposure_pct"@,
    }
}

/// For each percentage field: a new value was given and it lies outside `0.0..=1.0`.
#[derive(Debug, Clone, Copy, PartialEq, Eq, Structural)]
pub struct RiskPercentChecks {
    pub max_daily_loss_pct: bool,
    pub max_position_size_pct: bool,
    pub min_signal_confidence: bool,
    pub day_stop_loss_pct: bool,
    pub day_take_profit_pct: bool,
    pub regime_filter_threshold_pct: bool,
    pub max_net_exposure_pct: bool,
    pub daily_loss_tier1_pct: bool,
    pub daily_loss_tier2_pct: bool,
    pub daily_profit_target_pct: bool,
    pub regime_boosted_exposure_pct: bool,
}

/// The flag of one percentage field.
pub open spec fn risk_percent_flag(c: RiskPercentChecks, f: RiskPercentField) -> bool {
    match f {
        RiskPercentField::MaxDailyLossPct => c.max_daily_loss_pct,
        RiskPercentField::MaxPositionSizePct => c.max_position_size_pct,
        RiskPercentField::MinSignalConfidence => c.min_signal_confidence,
        RiskPercentField::DayStopLossPct => c.day_stop_loss_pct,
        RiskPercentField::DayTakeProfitPct => c.day_take_profit_pct,
        RiskPercentField::RegimeFilterThresholdPct => c.regime_filter_threshold_pct,
        RiskPercentField::MaxNetExposurePct => c.max_net_exposure_pct,
        RiskPercentField::DailyLossTier1Pct => c.daily_loss_tier1_pct,
        RiskPercentField::DailyLossTier2Pct => c.daily_loss_tier2_pct,
        RiskPercentField::DailyProfitTargetPct => c.daily_profit_target_pct,
        RiskPercentField::RegimeBoostedExposurePct => c.regime_boosted_exposure_pct,
    }
}

/// The first field, in checking order, whose new value is out of range.
pub open spec fn first_bad_risk_percent(c: RiskPercentChecks) -> Option<RiskPercentField> {
    if c.max_daily_loss_pct {
        Some(RiskPercentField::MaxDailyLossPct)
    } else if c.max_position_size_pct {
        Some(RiskPercentField::MaxPositionSizePct)
    } else if c.min_signal_confidence {
        Some(RiskPercentField::MinSignalConfidence)
    } else if c.day_stop_loss_pct {
        Some(RiskPercentField::DayStopLossPct)
    } else if c.day_take_profit_pct {
        Some(RiskPercentField::DayTakeProfitPct)
    } else if c.regime_filter_threshold_pct {
        Some(RiskPercentField::RegimeFilterThresholdPct)
    } else if c.max_net_exposure_pct {
        Some(RiskPercentField::MaxNetExposurePct)
    } else if c.daily_loss_tier1_pct {
        Some(RiskPercentField::DailyLossTier1Pct)
    } else if c.daily_loss_tier2_pct {
        Some(RiskPercentField::DailyLossTier2Pct)
    } else if c.daily_profit_target_pct {
        Some(RiskPercentField::DailyProfitTargetPct)
    } else if c.regime_boosted_exposure_pct {
        Some(RiskPercentField::RegimeBoostedExposurePct)
    } else {
        None
    }
}

/// A new open-position limit was given outside `1..=10`.
pub open spec fn open_limit_out_of_range(v: Option<usize>) -> bool {
    match v {
        Some(n) => n == 0 || n > 10,
        None => false,
    }
}

/// Why a change of the day-trading risk configuration is refused.
#[derive(Debug, Clone, Copy, PartialEq, Eq, Structural)]
pub enum RiskConfigRejection {
    /// The end-of-day flatten time cannot be changed through the API.
    FlattenTimeNotEditable,
    /// A percentage outside `0.0..=1.0`.
    PercentOutOfRange(RiskPercentField),
    /// An open-position limit outside `1..=10`.
    MaxOpenPositionsOutOfRange(usize),
}

/// Decides a change request of the day-trading risk configuration: a request that
/// names the flatten time is refused first; then the first percentage out of
/// range; then an open-position limit outside `1..=10`. Any other request is
/// accepted.
pub fn check_risk_config_update(
    flatten_time_given: bool,
    percents: &RiskPercentChecks,
    max_open_positions: Option<usize>,
) -> (r: Result<(), RiskConfigRejection>)
    ensures
        flatten_time_given ==> r == Err::<(), RiskConfigRejection>(
            RiskConfigRejection::FlattenTimeNotEditable,
        ),
        !flatten_time_given && first_bad_risk_percent(*percents) is Some ==> r == Err::<
            (),
            RiskConfigRejection,
        >(RiskConfigRejection::PercentOutOfRange(first_bad_risk_percent(*percents)->0)),
        !flatten_time_given && first_bad_risk_percent(*percents) is None
            && open_limit_out_of_range(max_open_positions) ==> r == Err::<
            (),
            RiskConfigRejection,
        >(RiskConfigRejection::MaxOpenPositionsOutOfRange(max_open_positions->0)),
        r is Ok <==> (!flatten_time_given && first_bad_risk_percent(*percents) is None
            && !open_limit_out_of_range(max_open_positions)),
        r is Ok ==> forall|f: RiskPercentField| !#[trigger] risk_percent_flag(*percents, f),
        r matches Err(RiskConfigRejection::PercentOutOfRange(f)) ==> risk_percent_flag(*percents, f),
{
    proof {
        lemma_every_risk_percent_is_checked(*percents);
    }
    if flatten_time_given {
        return Err(RiskConfigRejection::FlattenTimeNotEditable);
    }
    let c = percents;
    let bad = if c.max_daily_loss_pct {
        Some(RiskPercentField::MaxDailyLossPct)
    } else if c.max_position_size_pct {
        Some(RiskPercentField::MaxPositionSizePct)
    } else if c.min_signal_confidence {
        Some(RiskPercentField::MinSignalConfidence)
    } else if c.day_stop_loss_pct {
        Some(RiskPercentField::DayStopLossPct)
    } else if c.day_take_profit_pct {
        Some(RiskPercentField::DayTakeProfitPct)
    } else if c.regime_filter_threshold_pct {
        Some(RiskPercentField::RegimeFilterThresholdPct)
    } else if c.max_net_exposure_pct {
        Some(RiskPercentField::MaxNetExposurePct)
    } else if c.daily_loss_tier1_pct {
        Some(RiskPercentField::DailyLossTier1Pct)
    } else if c.daily_loss_tier2_pct {
        Some(RiskPercentField::DailyLossTier2Pct)
    } else if c.daily_profit_target_pct {
        Some(RiskPercentField::DailyProfitTargetPct)
    } else if c.regime_boosted_exposure_pct {
        Some(RiskPercentField::RegimeBoostedExposurePct)
    } else {
        None
    };
    if let Some(field) = bad {
        return Err(RiskConfigRejection::PercentOutOfRange(field));
    }
    if let Some(v) = max_open_positions {
        if v == 0 || v > 10 {
            return Err(RiskConfigRejection::MaxOpenPositionsOutOfRange(v));
        }
    }
    Ok(())
}

/// The percentage fields of the swing risk configuration, in checking order.
#[derive(Debug, Clone, Copy, PartialEq, Eq, Structural)]
pub enum SwingPercentField {
    MaxPortfolioHeatPct,
    PerPositionStopLossPct,
    PerPositionTakeProfitPct,
    MinCompositeConfidence,
}

/// The JSON name of a swing percentage field.
pub open spec fn swing_percent_field_name(f: SwingPercentField) -> Seq<char> {
    match f {
        SwingPercentField::MaxPortfolioHeatPct => "max_portfolio_heat_pct"@,
        SwingPercentField::PerPositionStopLossPct => "per_position_stop_loss_pct"@,
        SwingPercentField::PerPositionTakeProfitPct => "per_position_take_profit_pct"@,
        SwingPercentField::MinCompositeConfidence => "min_composite_confidence"@,
    }
}

impl SwingPercentField {
    /// The field's name in the JSON API.
    pub fn name(&self) -> (r: &'static str)
        ensures
            r@ == swing_percent_field_name(*self),
    {
        match self {
            SwingPercentField::MaxPortfolioHeatPct => "max_portfolio_heat_pct",
            SwingPercentField::PerPositionStopLossPct => "per_position_stop_loss_pct",
            SwingPercentField::PerPositionTakeProfitPct => "per_position_take_profit_pct",
            SwingPercentField::MinCompositeConfidence => "min_composite_confidence",
        }
    }
}

/// For each swing percentage field: a new value was given outside `0.0..=1.0`.
#[derive(Debug, Clone, Copy, PartialEq, Eq, Structural)]
pub struct SwingPercentChecks {
    pub max_portfolio_heat_pct: bool,
    pub per_position_stop_loss_pct: bool,
    pub per_position_take_profit_pct: bool,
    pub min_composite_confidence: bool,
}

/// The flag of one swing percentage field.
pub open spec fn swing_percent_flag(c: SwingPercentChecks, f: SwingPercentField) -> bool {
    match f {
        SwingPercentField::MaxPortfolioHeatPct => c.max_portfolio_heat_pct,
        SwingPercentField::PerPositionStopLossPct => c.per_position_stop_loss_pct,
        SwingPercentField::PerPositionTakeProfitPct => c.per_position_take_profit_pct,
        SwingPercentField::MinCompositeConfidence => c.min_composite_confidence,
    }
}

/// The first swing field, in checking order, whose new value is out of range.
pub open spec fn first_bad_swing_percent(c: SwingPercentChecks) -> Option<SwingPercentField> {
    if c.max_portfolio_heat_pct {
        Some(SwingPercentField::MaxPortfolioHeatPct)
    } else if c.per_position_stop_loss_pct {
        Some(SwingPercentField::PerPositionStopLossPct)
    } else if c.per_position_take_profit_pct {
        Some(SwingPercentField::PerPositionTakeProfitPct)
    } else if c.min_composite_confidence {
        Some(SwingPercentField::MinCompositeConfidence)
    } else {
        None
    }
}

/// A new swing position limit was given outside `1..=20`.
pub open spec fn swing_limit_out_of_range(v: Option<usize>) -> bool {
    match v {
        Some(n) => n == 0 || n > 20,
        None => false,
    }
}

/// Why a change of the swing risk configuration is refused.
#[derive(Debug, Clone, Copy, PartialEq, Eq, Structural)]
pub enum SwingConfigRejection {
    /// A percentage outside `0.0..=1.0`.
    PercentOutOfRange(SwingPercentField),
    /// A swing position limit outside `1..=20`.
    MaxSwingPositionsOutOfRange(usize),
}

/// Decides a change request of the swing risk configuration: the first
/// percentage out of range is refused; then a swing position limit outside
/// `1..=20`. Any other request is accepted.
pub fn check_swing_config_update(
    percents: &SwingPercentChecks,
    max_swing_positions: Option<usize>,
) -> (r: Result<(), SwingConfigRejection>)
    ensures
        first_bad_swing_percent(*percents) is Some ==> r == Err::<(), SwingConfigRejection>(
            SwingConfigRejection::PercentOutOfRange(first_bad_swing_percent(*percents)->0),
        ),
        first_bad_swing_percent(*percents) is None && swing_limit_out_of_range(
            max_swing_positions,
        ) ==> r == Err::<(), SwingConfigRejection>(
            SwingConfigRejection::MaxSwingPositionsOutOfRange(max_swing_positions->0),
        ),
        r is Ok <==> (first_bad_swing_percent(*percents) is None && !swing_limit_out_of_range(
            max_swing_positions,
        )),
        r is Ok ==> forall|f: SwingPercentField| !#[trigger] swing_percent_flag(*percents, f),
        r matches Err(SwingConfigRejection::PercentOutOfRange(f)) ==> swing_percent_flag(*percents, f),
{
    proof {
        lemma_every_swing_percent_is_checked(*percents);
    }
    let c = percents;
    let bad = if c.max_portfolio_heat_pct {
        Some(SwingPercentField::MaxPortfolioHeatPct)
    } else if c.per_position_stop_loss_pct {
        Some(SwingPercentField::PerPositionStopLossPct)
    } else if c.per_position_take_profit_pct {
        Some(SwingPercentField::PerPositionTakeProfitPct)
    } else if c.min_composite_confidence {
        Some(SwingPercentField::MinCompositeConfidence)
    } else {
        None
    };
    if let Some(field) = bad {
        return Err(SwingConfigRejection::PercentOutOfRange(field));
    }
    if let Some(v) = max_swing_positions {
        if v == 0 || v > 20 {
            return Err(SwingConfigRejection::MaxSwingPositionsOutOfRange(v));
        }
    }
    Ok(())
}

/// Every percentage field of the day-trading configuration is range-checked: no
/// field is reported out of range exactly when none was given out of range, and
/// the field reported is one whose flag is set.
pub proof fn lemma_every_risk_percent_is_checked(c: RiskPercentChecks)
    ensures
        first_bad_risk_percent(c) is None <==> !(c.max_daily_loss_pct || c.max_position_size_pct
            || c.min_signal_confidence || c.day_stop_loss_pct || c.day_take_profit_pct
            || c.regime_filter_threshold_pct || c.max_net_exposure_pct || c.daily_loss_tier1_pct
            || c.daily_loss_tier2_pct || c.daily_profit_target_pct || c.regime_boosted_exposure_pct),
        first_bad_risk_percent(c) is None <==> forall|f: RiskPercentField| !#[trigger] risk_percent_flag(c, f),
        first_bad_risk_percent(c) matches Some(f) ==> risk_percent_flag(c, f),
{
    if first_bad_risk_percent(c) is None {
        assert forall|f: RiskPercentField| !#[trigger] risk_percent_flag(c, f) by {
            match f {
                RiskPercentField::MaxDailyLossPct => {},
                _ => {},
            }
        }
    } else {
        let f = first_bad_risk_percent(c)->0;
        assert(risk_percent_flag(c, f));
    }
}

/// Every percentage field of the swing configuration is range-checked: no field
/// is reported out of range exactly when none was given out of range, and the
/// field reported is one whose flag is set.
pub proof fn lemma_every_swing_percent_is_checked(c: SwingPercentChecks)
    ensures
        first_bad_swing_percent(c) is None <==> !(c.max_portfolio_heat_pct
            || c.per_position_stop_loss_pct || c.per_position_take_profit_pct
            || c.min_composite_confidence),
        first_bad_swing_percent(c) is None <==> forall|f: SwingPercentField| !#[trigger] swing_percent_flag(c, f),
        first_bad_swing_percent(c) matches Some(f) ==> swing_percent_flag(c, f),
{
    if first_bad_swing_percent(c) is None {
        assert forall|f: SwingPercentField| !#[trigger] swing_percent_flag(c, f) by {
            match f {
                SwingPercentField::MaxPortfolioHeatPct => {},
                _ => {},
            }
        }
    } else {
        let f = first_bad_swing_percent(c)->0;
        assert(swing_percent_flag(c, f));
    }
}

} // verus!
