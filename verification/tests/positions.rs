use execution_engine::models::{PositionSide, TradeType};
use execution_engine::positions::{
    exit_trigger, fill_action, ExitTrigger, FillAction, LevelCrossings, PositionEntry,
    PositionTracker, SyncedHolding,
};

/// Quantity and entry price, standing for the amounts the service keeps.
type Amounts = (u32, u32);

fn entry(symbol: &str, side: PositionSide, tt: TradeType, strategy: &str, qty: u32) -> PositionEntry<Amounts> {
    PositionEntry {
        symbol: symbol.into(),
        side,
        trade_type: tt,
        strategy_name: strategy.into(),
        amounts: (qty, 100),
    }
}

fn symbols(v: &[PositionEntry<Amounts>]) -> Vec<String> {
    v.iter().map(|e| e.symbol.clone()).collect()
}

fn book() -> PositionTracker<Amounts> {
    let mut t = PositionTracker::new();
    t.load(vec![
        entry("AAPL", PositionSide::Long, TradeType::Day, "Momentum", 10),
        entry("MSFT", PositionSide::Short, TradeType::Swing, "CompositeSwing", 5),
        entry("NVDA", PositionSide::Long, TradeType::Day, "Momentum", 3),
    ]);
    t
}

#[test]
fn load_replaces_by_symbol() {
    let mut t = book();
    assert_eq!(t.count(), 3);
    t.load(vec![entry("AAPL", PositionSide::Long, TradeType::Day, "Momentum", 99)]);
    assert_eq!(t.count(), 3);
    assert_eq!(t.get("AAPL").unwrap().amounts, (99, 100));
    assert_eq!(symbols(&t.all()), vec!["AAPL", "MSFT", "NVDA"]);
    assert!(t.get("TSLA").is_none());
}

#[test]
fn filters_by_trade_type_and_strategy() {
    let t = book();
    assert_eq!(symbols(&t.day_positions()), vec!["AAPL", "NVDA"]);
    assert_eq!(symbols(&t.swing_positions()), vec!["MSFT"]);
    assert_eq!(t.count_by_strategy("Momentum"), 2);
    assert_eq!(t.count_by_strategy("CompositeSwing"), 1);
    assert_eq!(t.count_by_strategy(""), 0);
}

#[test]
fn update_and_remove() {
    let mut t = book();
    let u = t.update("MSFT", PositionSide::Short, (2, 90)).unwrap();
    assert_eq!(u.amounts, (2, 90));
    assert_eq!(u.strategy_name, "CompositeSwing");
    assert_eq!(u.trade_type, TradeType::Swing);
    assert!(t.update("TSLA", PositionSide::Long, (1, 1)).is_none());
    let removed = t.remove("AAPL").unwrap();
    assert_eq!(removed.amounts, (10, 100));
    assert_eq!(symbols(&t.all()), vec!["MSFT", "NVDA"]);
    assert!(t.remove("AAPL").is_none());
}

#[test]
fn fill_actions() {
    assert_eq!(fill_action("buy", None), FillAction::OpenLong);
    assert_eq!(fill_action("buy", Some(PositionSide::Long)), FillAction::AddToLong);
    assert_eq!(fill_action("buy", Some(PositionSide::Short)), FillAction::ReduceShort);
    assert_eq!(fill_action("sell", None), FillAction::OpenShort);
    assert_eq!(fill_action("sell", Some(PositionSide::Short)), FillAction::AddToShort);
    assert_eq!(fill_action("sell", Some(PositionSide::Long)), FillAction::ReduceLong);
    assert_eq!(fill_action("hold", None), FillAction::Ignore);
    let t = book();
    assert_eq!(t.fill_action_for("AAPL", PositionSide::Long.close_side()), FillAction::ReduceLong);
    assert_eq!(t.fill_action_for("MSFT", PositionSide::Short.close_side()), FillAction::ReduceShort);
    assert_eq!(t.fill_action_for("TSLA", "sell"), FillAction::OpenShort);
}

#[test]
fn exits_follow_the_side() {
    let none = LevelCrossings {
        at_or_below_stop: false,
        at_or_above_stop: false,
        at_or_above_take: false,
        at_or_below_take: false,
    };
    assert_eq!(exit_trigger(PositionSide::Long, &none), None);
    let long_stop = LevelCrossings { at_or_below_stop: true, at_or_below_take: true, ..none };
    assert_eq!(exit_trigger(PositionSide::Long, &long_stop), Some(ExitTrigger::StopLoss));
    let long_take = LevelCrossings { at_or_above_stop: true, at_or_above_take: true, ..none };
    assert_eq!(exit_trigger(PositionSide::Long, &long_take), Some(ExitTrigger::TakeProfit));
    assert_eq!(exit_trigger(PositionSide::Short, &long_take), Some(ExitTrigger::StopLoss));
    assert_eq!(exit_trigger(PositionSide::Short, &long_stop), Some(ExitTrigger::TakeProfit));
}

fn holding(symbol: &str, side: PositionSide, qty: u32, has_quantity: bool, differs: bool) -> SyncedHolding<Amounts> {
    SyncedHolding {
        symbol: symbol.into(),
        side,
        amounts: (qty, 100),
        has_quantity,
        differs_from_local: differs,
    }
}

#[test]
fn sync_removes_updates_and_adds() {
    let mut t = book();
    let changed = t.sync_with_alpaca(&vec![
        holding("TSLA", PositionSide::Short, 7, true, false),
        holding("MSFT", PositionSide::Long, 6, true, true),
        holding("AAPL", PositionSide::Long, 10, true, false),
        holding("GOOGL", PositionSide::Long, 0, false, false),
    ]);
    assert_eq!(changed, vec!["MSFT", "NVDA", "TSLA"]);
    assert_eq!(symbols(&t.all()), vec!["AAPL", "MSFT", "TSLA"]);
    let msft = t.get("MSFT").unwrap();
    assert_eq!(msft.side, PositionSide::Long);
    assert_eq!(msft.amounts, (6, 100));
    assert_eq!(msft.trade_type, TradeType::Swing);
    assert_eq!(msft.strategy_name, "CompositeSwing");
    let tsla = t.get("TSLA").unwrap();
    assert_eq!(tsla.trade_type, TradeType::Day);
    assert_eq!(tsla.strategy_name, "");
    assert_eq!(tsla.side, PositionSide::Short);
    assert_eq!(t.get("AAPL").unwrap().amounts, (10, 100));
}

#[test]
fn sync_with_nothing_reported_empties_the_book() {
    let mut t = book();
    let changed = t.sync_with_alpaca(&vec![]);
    assert_eq!(changed, vec!["AAPL", "MSFT", "NVDA"]);
    assert_eq!(t.count(), 0);
}

#[test]
fn sync_counts_the_last_report_of_a_symbol() {
    let mut t = book();
    let changed = t.sync_with_alpaca(&vec![
        holding("AAPL", PositionSide::Long, 50, true, true),
        holding("AAPL", PositionSide::Long, 0, false, false),
        holding("MSFT", PositionSide::Short, 5, true, false),
        holding("NVDA", PositionSide::Long, 3, true, false),
        holding("QQQ", PositionSide::Long, 1, true, false),
        holding("QQQ", PositionSide::Long, 2, true, false),
    ]);
    assert_eq!(changed, vec!["QQQ"]);
    assert_eq!(t.get("AAPL").unwrap().amounts, (10, 100));
    assert_eq!(t.get("QQQ").unwrap().amounts, (2, 100));
    assert_eq!(t.count(), 4);
}

#[test]
fn a_second_sync_with_the_same_reports_changes_nothing() {
    let mut t = book();
    let first = t.sync_with_alpaca(&vec![
        holding("TSLA", PositionSide::Short, 7, true, false),
        holding("MSFT", PositionSide::Long, 6, true, true),
        holding("AAPL", PositionSide::Long, 10, true, false),
        holding("GOOGL", PositionSide::Long, 0, false, false),
    ]);
    assert_eq!(first, vec!["MSFT", "NVDA", "TSLA"]);
    let amounts_after_first: Vec<Amounts> = t.all().iter().map(|e| e.amounts).collect();
    // The same reports again: the book now matches every report it tracks.
    let second = t.sync_with_alpaca(&vec![
        holding("TSLA", PositionSide::Short, 7, true, false),
        holding("MSFT", PositionSide::Long, 6, true, false),
        holding("AAPL", PositionSide::Long, 10, true, false),
        holding("GOOGL", PositionSide::Long, 0, false, false),
    ]);
    assert!(second.is_empty());
    assert_eq!(symbols(&t.all()), vec!["AAPL", "MSFT", "TSLA"]);
    let amounts_after_second: Vec<Amounts> = t.all().iter().map(|e| e.amounts).collect();
    assert_eq!(amounts_after_second, amounts_after_first);
    assert_eq!(t.get("MSFT").unwrap().trade_type, TradeType::Swing);
}

#[test]
fn changes_name_each_symbol_once() {
    let mut t = book();
    let changed = t.sync_with_alpaca(&vec![
        holding("QQQ", PositionSide::Long, 1, true, false),
        holding("QQQ", PositionSide::Long, 2, true, false),
        holding("MSFT", PositionSide::Long, 6, true, true),
        holding("MSFT", PositionSide::Long, 6, true, true),
    ]);
    assert_eq!(changed, vec!["AAPL", "MSFT", "NVDA", "QQQ"]);
}
