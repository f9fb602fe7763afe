use execution_engine::alpaca::{AlpacaConfig, AlpacaMode, ConfigError};
use execution_engine::models::{
    alpaca_id_from_db, database_path, default_trade_type_str, order_progress, AlpacaAccount,
    Direction, OrderProgress, PositionSide, TradeType,
};

#[test]
fn base_url_follows_mode() {
    let mut config = AlpacaConfig { api_key: "k".into(), secret_key: "s".into(), mode: AlpacaMode::Paper };
    assert_eq!(config.base_url(), "https://paper-api.alpaca.markets");
    config.mode = AlpacaMode::Live;
    assert_eq!(config.base_url(), "https://api.alpaca.markets");
}

#[test]
fn mode_setting_defaults_to_paper() {
    assert_eq!(AlpacaMode::from_setting(Some("live")), AlpacaMode::Live);
    assert_eq!(AlpacaMode::from_setting(Some("paper")), AlpacaMode::Paper);
    assert_eq!(AlpacaMode::from_setting(Some("LIVE")), AlpacaMode::Paper);
    assert_eq!(AlpacaMode::from_setting(None), AlpacaMode::Paper);
    assert_eq!(AlpacaMode::Paper.to_string(), "paper");
    assert_eq!(AlpacaMode::Live.to_string(), "live");
}

#[test]
fn config_requires_both_keys() {
    assert_eq!(
        AlpacaConfig::from_settings(None, Some("s".into()), None).unwrap_err(),
        ConfigError::MissingApiKey
    );
    assert_eq!(
        AlpacaConfig::from_settings(Some("k".into()), None, None).unwrap_err(),
        ConfigError::MissingSecretKey
    );
    assert_eq!(
        AlpacaConfig::from_settings(Some("".into()), Some("s".into()), None).unwrap_err(),
        ConfigError::EmptyKey
    );
    let config = AlpacaConfig::from_settings(Some("k".into()), Some("s".into()), Some("live")).unwrap();
    assert_eq!(config.api_key, "k");
    assert_eq!(config.secret_key, "s");
    assert_eq!(config.mode, AlpacaMode::Live);
}

#[test]
fn order_sides() {
    assert_eq!(Direction::Buy.order_side(), Some("buy"));
    assert_eq!(Direction::Sell.order_side(), Some("sell"));
    assert_eq!(Direction::Hold.order_side(), None);
    assert_eq!(PositionSide::Long.close_side(), "sell");
    assert_eq!(PositionSide::Short.close_side(), "buy");
}

#[test]
fn stored_spellings_round_trip() {
    for t in [TradeType::Day, TradeType::Swing] {
        assert_eq!(TradeType::from_db_str(t.as_db_str()), t);
    }
    for s in [PositionSide::Long, PositionSide::Short] {
        assert_eq!(PositionSide::from_db_str(s.as_db_str()), s);
    }
    assert_eq!(TradeType::from_db_str("weird"), TradeType::Day);
    assert_eq!(PositionSide::from_db_str("long"), PositionSide::Long);
    assert_eq!(TradeType::default(), TradeType::Day);
    assert_eq!(default_trade_type_str(), "day");
}

#[test]
fn order_status_classes() {
    assert_eq!(order_progress("filled"), OrderProgress::Filled);
    for s in ["canceled", "expired", "rejected"] {
        assert_eq!(order_progress(s), OrderProgress::Unfilled);
        assert!(order_progress(s).is_terminal());
    }
    assert_eq!(order_progress("pending_new"), OrderProgress::Pending);
    assert!(!order_progress("new").is_terminal());
    assert!(order_progress("filled").is_terminal());
}

#[test]
fn stored_ids_and_paths() {
    assert_eq!(alpaca_id_from_db(String::new()), None);
    assert_eq!(alpaca_id_from_db("abc".into()), Some("abc".to_string()));
    assert_eq!(database_path(Some("a.db".into()), Some("b.db".into())), "a.db");
    assert_eq!(database_path(None, Some("b.db".into())), "b.db");
    assert_eq!(database_path(None, None), "../data/algotrader.sqlite");
}

#[test]
fn blocked_accounts() {
    let mut account = AlpacaAccount {
        id: "id".into(),
        account_number: "n".into(),
        status: "ACTIVE".into(),
        currency: "USD".into(),
        cash: "1".into(),
        equity: "1".into(),
        buying_power: "1".into(),
        portfolio_value: "1".into(),
        pattern_day_trader: false,
        trading_blocked: false,
        account_blocked: false,
    };
    assert!(!account.is_blocked());
    account.account_blocked = true;
    assert!(account.is_blocked());
}
