use execution_engine::symbols::{
    choose_symbols, contains_symbol, drop_empty_names, normalize_symbol, parse_symbol_list, quote_symbols,
    update_symbol_list, uppercase_all, uppercase_symbol,
};

fn strings(v: &[&str]) -> Vec<String> {
    v.iter().map(|s| s.to_string()).collect()
}

#[test]
fn parses_comma_separated_lists() {
    assert_eq!(parse_symbol_list("SPY,QQQ,AAPL"), strings(&["SPY", "QQQ", "AAPL"]));
    assert_eq!(parse_symbol_list(" spy , qqq,,  ,aapl "), strings(&["SPY", "QQQ", "AAPL"]));
    assert_eq!(parse_symbol_list(""), Vec::<String>::new());
    assert_eq!(parse_symbol_list(",,,"), Vec::<String>::new());
    assert_eq!(parse_symbol_list("ceg"), strings(&["CEG"]));
}

#[test]
fn normalizes_user_symbols() {
    assert_eq!(normalize_symbol("  nvda\t"), "NVDA");
    assert_eq!(uppercase_symbol("brk.b"), "BRK.B");
}

#[test]
fn chooses_the_published_list_first() {
    assert_eq!(
        choose_symbols(Some(strings(&["ceg", "gev"])), Some("AAPL")),
        strings(&["CEG", "GEV"])
    );
    assert_eq!(choose_symbols(Some(vec![]), Some("aapl, msft")), strings(&["AAPL", "MSFT"]));
    assert_eq!(
        choose_symbols(None, None),
        strings(&["SPY", "QQQ", "AAPL", "MSFT", "NVDA", "GOOGL"])
    );
    assert_eq!(uppercase_all(&strings(&["a", "b"])), strings(&["A", "B"]));
}

#[test]
fn symbol_list_changes() {
    let mut current = strings(&["SPY", "QQQ", "AAPL"]);
    assert!(update_symbol_list(&mut current, vec![]).is_none());
    assert!(update_symbol_list(&mut current, strings(&["SPY", "QQQ", "AAPL"])).is_none());
    let change = update_symbol_list(&mut current, strings(&["SPY", "NVDA", "AAPL", "CEG"])).unwrap();
    assert_eq!(change.added, strings(&["NVDA", "CEG"]));
    assert_eq!(change.removed, strings(&["QQQ"]));
    assert_eq!(current, strings(&["SPY", "NVDA", "AAPL", "CEG"]));
    let change = update_symbol_list(&mut current, strings(&["CEG", "SPY", "NVDA", "AAPL"])).unwrap();
    assert!(change.added.is_empty());
    assert!(change.removed.is_empty());
}

#[test]
fn quote_list_always_has_spy() {
    assert_eq!(quote_symbols(&strings(&["AAPL"])), strings(&["AAPL", "SPY"]));
    assert_eq!(quote_symbols(&strings(&["SPY", "AAPL"])), strings(&["SPY", "AAPL"]));
    assert_eq!(quote_symbols(&vec![]), strings(&["SPY"]));
    assert!(contains_symbol(&strings(&["A", "B"]), "B"));
    assert!(!contains_symbol(&strings(&["A", "B"]), "b"));
}

#[test]
fn empty_names_are_dropped_in_order() {
    assert_eq!(drop_empty_names(strings(&["SPY", "", "QQQ", "", ""])), strings(&["SPY", "QQQ"]));
    assert!(drop_empty_names(strings(&["", ""])).is_empty());
    assert_eq!(parse_symbol_list(" spy, ,qqq,"), strings(&["SPY", "QQQ"]));
}
