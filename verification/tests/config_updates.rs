use execution_engine::config::{
    check_risk_config_update, check_swing_config_update, RiskConfigRejection, RiskPercentChecks,
    RiskPercentField, SwingConfigRejection, SwingPercentChecks, SwingPercentField,
};

fn out_of_range(v: Option<f64>) -> bool {
    matches!(v, Some(x) if x < 0.0 || x > 1.0)
}

fn no_bad_percent() -> RiskPercentChecks {
    RiskPercentChecks {
        max_daily_loss_pct: false,
        max_position_size_pct: false,
        min_signal_confidence: false,
        day_stop_loss_pct: false,
        day_take_profit_pct: false,
        regime_filter_threshold_pct: false,
        max_net_exposure_pct: false,
        daily_loss_tier1_pct: false,
        daily_loss_tier2_pct: false,
        daily_profit_target_pct: false,
        regime_boosted_exposure_pct: false,
    }
}

#[test]
fn accepts_a_valid_change() {
    let mut c = no_bad_percent();
    c.max_daily_loss_pct = out_of_range(Some(0.03));
    assert_eq!(check_risk_config_update(false, &c, Some(6)), Ok(()));
    assert_eq!(check_risk_config_update(false, &no_bad_percent(), None), Ok(()));
}

#[test]
fn rejects_flatten_time_first() {
    let mut c = no_bad_percent();
    c.min_signal_confidence = true;
    assert_eq!(
        check_risk_config_update(true, &c, Some(0)),
        Err(RiskConfigRejection::FlattenTimeNotEditable)
    );
}

#[test]
fn rejects_negative_and_large_percentages() {
    let mut c = no_bad_percent();
    c.max_daily_loss_pct = out_of_range(Some(-0.01));
    let r = check_risk_config_update(false, &c, None);
    assert_eq!(r, Err(RiskConfigRejection::PercentOutOfRange(RiskPercentField::MaxDailyLossPct)));
    assert_eq!(RiskPercentField::MaxDailyLossPct.name(), "max_daily_loss_pct");
    let mut c = no_bad_percent();
    c.min_signal_confidence = out_of_range(Some(1.5));
    c.regime_boosted_exposure_pct = true;
    let r = check_risk_config_update(false, &c, Some(11));
    assert_eq!(r, Err(RiskConfigRejection::PercentOutOfRange(RiskPercentField::MinSignalConfidence)));
    assert_eq!(RiskPercentField::MinSignalConfidence.name(), "min_signal_confidence");
}

#[test]
fn rejects_position_limits_out_of_range() {
    assert_eq!(
        check_risk_config_update(false, &no_bad_percent(), Some(11)),
        Err(RiskConfigRejection::MaxOpenPositionsOutOfRange(11))
    );
    assert_eq!(
        check_risk_config_update(false, &no_bad_percent(), Some(0)),
        Err(RiskConfigRejection::MaxOpenPositionsOutOfRange(0))
    );
    assert_eq!(check_risk_config_update(false, &no_bad_percent(), Some(10)), Ok(()));
    assert_eq!(check_risk_config_update(false, &no_bad_percent(), Some(1)), Ok(()));
}

#[test]
fn swing_changes() {
    let ok = SwingPercentChecks {
        max_portfolio_heat_pct: false,
        per_position_stop_loss_pct: false,
        per_position_take_profit_pct: false,
        min_composite_confidence: false,
    };
    assert_eq!(check_swing_config_update(&ok, Some(20)), Ok(()));
    assert_eq!(
        check_swing_config_update(&ok, Some(21)),
        Err(SwingConfigRejection::MaxSwingPositionsOutOfRange(21))
    );
    let bad = SwingPercentChecks { per_position_take_profit_pct: true, ..ok };
    assert_eq!(
        check_swing_config_update(&bad, Some(0)),
        Err(SwingConfigRejection::PercentOutOfRange(SwingPercentField::PerPositionTakeProfitPct))
    );
    assert_eq!(SwingPercentField::PerPositionTakeProfitPct.name(), "per_position_take_profit_pct");
}
