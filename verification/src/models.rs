//! Shared value types of the execution engine.

use vstd::prelude::*;

use crate::text::str_equal;

verus! {

/// Direction of a signal from the strategy engine.
#[derive(Debug, Clone, Copy, PartialEq, Eq, Structural)]
pub enum Direction {
    Buy,
    Sell,
    Hold,
}

impl Direction {
    /// The Alpaca order side that carries out a signal: `"buy"` for BUY, `"sell"`
    /// for SELL; a HOLD signal places no order.
    pub fn order_side(&self) -> (r: Option<&'static str>)
        ensures
            match *self {
                Direction::Buy => r is Some && r->0@ == "buy"@,
                Direction::Sell => r is Some && r->0@ == "sell"@,
                Direction::Hold => r is None,
            },
    {
        proof {
            reveal_strlit("buy");
            reveal_strlit("sell");
        }
        match self {
            Direction::Buy => Some("buy"),
            Direction::Sell => Some("sell"),
            Direction::Hold => None,
        }
    }
}

/// Whether a signal or position is day trading or swing trading.
#[derive(Debug, Clone, Copy, PartialEq, Eq, Structural)]
pub enum TradeType {
    Day,
    Swing,
}

/// The database spelling of a trade type.
pub open spec fn trade_type_text(t: TradeType) -> Seq<char> {
    match t {
        TradeType::Day => "day"@,
        TradeType::Swing => "swing"@,
    }
}

/// The trade type that a stored spelling reads as: `"swing"` is a swing trade,
/// anything else a day trade.
pub open spec fn trade_type_from_text(s: Seq<char>) -> TradeType {
    if s == "swing"@ {
        TradeType::Swing
    } else {
        TradeType::Day
    }
}

impl Default for TradeType {
    /// A signal or position without a trade type is a day trade.
    fn default() -> (r: Self)
        ensures
            r == TradeType::Day,
    {
        TradeType::Day
    }
}

impl TradeType {
    /// The spelling stored in the `trade_type` columns.
    pub fn as_db_str(&self) -> (r: &'static str)
        ensures
            r@ == trade_type_text(*self),
    {
        proof {
            reveal_strlit("day");
            reveal_strlit("swing");
        }
        match self {
            TradeType::Day => "day",
            TradeType::Swing => "swing",
        }
    }

    /// Reads a stored `trade_type` column: `"swing"` is a swing trade, every other
    /// value a day trade.
    pub fn from_db_str(s: &str) -> (r: TradeType)
        ensures
            r == trade_type_from_text(s@),
    {
        if str_equal(s, "swing") {
            TradeType::Swing
        } else {
            TradeType::Day
        }
    }
}

/// Reading back what was stored gives the trade type that was stored.
pub proof fn lemma_trade_type_text_round_trip(t: TradeType)
    ensures
        trade_type_from_text(trade_type_text(t)) == t,
{
    reveal_strlit("day");
    reveal_strlit("swing");
    assert(trade_type_text(TradeType::Day) != "swing"@) by {
        assert(trade_type_text(TradeType::Day).len() != "swing"@.len());
    }
}

/// The default trade type of a stored signal row.
pub fn default_trade_type_str() -> (r: String)
    ensures
        r@ == "day"@,
{
    String::from_str("day")
}

/// Which way a position faces.
#[derive(Debug, Clone, Copy, PartialEq, Eq, Structural)]
pub enum PositionSide {
    Long,
    Short,
}

/// The database spelling of a position side.
pub open spec fn side_text(s: PositionSide) -> Seq<char> {
    match s {
        PositionSide::Long => "long"@,
        PositionSide::Short => "short"@,
    }
}

/// The side that a stored or reported spelling reads as: `"short"` is short,
/// anything else long.
pub open spec fn side_from_text(s: Seq<char>) -> PositionSide {
    if s == "short"@ {
        PositionSide::Short
    } else {
        PositionSide::Long
    }
}

impl PositionSide {
    /// The order side that closes a position: longs are sold, shorts bought back.
    pub fn close_side(&self) -> (r: &'static str)
        ensures
            r@ == (match *self {
                PositionSide::Long => "sell"@,
                PositionSide::Short => "buy"@,
            }),
    {
        match self {
            PositionSide::Long => "sell",
            PositionSide::Short => "buy",
        }
    }

    /// The spelling stored in the `side` column of `positions`.
    pub fn as_db_str(&self) -> (r: &'static str)
        ensures
            r@ == side_text(*self),
    {
        match self {
            PositionSide::Long => "long",
            PositionSide::Short => "short",
        }
    }

    /// Reads a stored `side` column or the `side` field of an Alpaca position:
    /// `"short"` is short, every other value long.
    pub fn from_db_str(s: &str) -> (r: PositionSide)
        ensures
            r == side_from_text(s@),
    {
        if str_equal(s, "short") {
            PositionSide::Short
        } else {
            PositionSide::Long
        }
    }
}

/// Reading back what was stored gives the side that was stored.
pub proof fn lemma_side_text_round_trip(s: PositionSide)
    ensures
        side_from_text(side_text(s)) == s,
{
    reveal_strlit("long");
    reveal_strlit("short");
    assert(side_text(PositionSide::Long) != "short"@) by {
        assert(side_text(PositionSide::Long).len() != "short"@.len());
    }
}

/// Event types broadcast to the dashboard over server-sent events.
#[derive(Debug, Clone, Copy, PartialEq, Eq, Structural)]
pub enum SseEventType {
    PositionUpdate,
    OrderFill,
    TradingHalted,
    TradingResumed,
    DailyPnl,
    RiskBreach,
    RiskConfigUpdated,
}

/// Alpaca account snapshot returned by `GET /v2/account`.
pub struct AlpacaAccount {
    pub id: String,
    pub account_number: String,
    pub status: String,
    pub currency: String,
    pub cash: String,
    pub equity: String,
    pub buying_power: String,
    pub portfolio_value: String,
    pub pattern_day_trader: bool,
    pub trading_blocked: bool,
    pub account_blocked: bool,
}

impl AlpacaAccount {
    /// An account on which the engine may not trade: trading or the whole account
    /// is blocked.
    pub fn is_blocked(&self) -> (r: bool)
        ensures
            r == (self.trading_blocked || self.account_blocked),
    {
        self.trading_blocked || self.account_blocked
    }
}

/// Alpaca order response from `POST /v2/orders` and `GET /v2/orders/{id}`.
pub struct AlpacaOrder {
    pub id: String,
    pub status: String,
    pub filled_avg_price: Option<String>,
    pub filled_at: Option<String>,
    pub symbol: String,
    pub side: String,
    pub qty: String,
}

/// What an Alpaca order status means for the engine.
#[derive(Debug, Clone, Copy, PartialEq, Eq, Structural)]
pub enum OrderProgress {
    /// `"filled"`.
    Filled,
    /// `"canceled"`, `"expired"` or `"rejected"`: the order is over without a fill.
    Unfilled,
    /// Any other status: the order may still fill.
    Pending,
}

/// The meaning of an Alpaca order status.
pub open spec fn order_progress_of(status: Seq<char>) -> OrderProgress {
    if status == "filled"@ {
        OrderProgress::Filled
    } else if status == "canceled"@ || status == "expired"@ || status == "rejected"@ {
        OrderProgress::Unfilled
    } else {
        OrderProgress::Pending
    }
}

/// Classifies an Alpaca order status.
pub fn order_progress(status: &str) -> (r: OrderProgress)
    ensures
        r == order_progress_of(status@),
{
    if str_equal(status, "filled") {
        OrderProgress::Filled
    } else if str_equal(status, "canceled") || str_equal(status, "expired") || str_equal(
        status,
        "rejected",
    ) {
        OrderProgress::Unfilled
    } else {
        OrderProgress::Pending
    }
}

impl OrderProgress {
    /// A status after which the order will not change any more.
    pub fn is_terminal(&self) -> (r: bool)
        ensures
            r == (*self != OrderProgress::Pending),
    {
        match self {
            OrderProgress::Pending => false,
            _ => true,
        }
    }
}

/// Reads a stored `alpaca_id` column, where the empty string stands for no id.
pub fn alpaca_id_from_db(s: String) -> (r: Option<String>)
    ensures
        s@.len() == 0 ==> r is None,
        s@.len() != 0 ==> r is Some && r->0@ == s@,
{
    if s.as_str().is_empty() {
        None
    } else {
        Some(s)
    }
}


/// The database file: the `DB_PATH` setting, else the older `DUCKDB_PATH`
/// setting, else `../data/algotrader.sqlite`.
pub fn database_path(db_path: Option<String>, duckdb_path: Option<String>) -> (r: String)
    ensures
        db_path is Some ==> r@ == db_path->0@,
        db_path is None && duckdb_path is Some ==> r@ == duckdb_path->0@,
        db_path is None && duckdb_path is None ==> r@ == "../data/algotrader.sqlite"@,
{
    match db_path {
        Some(p) => p,
        None => match duckdb_path {
            Some(p) => p,
            None => String::from_str("../data/algotrader.sqlite"),
        },
    }
}

} // verus!
