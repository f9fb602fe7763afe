//! The book of open positions, keyed by symbol.
//!
//! The book keeps, for each symbol, the side, the trade type and the strategy
//! that opened the position, together with the position's amounts (quantity,
//! prices, profit and loss, stop and take levels). The amounts are
//! floating-point numbers held by the service; the book carries them as an
//! opaque value `A` and never reads them.

use vstd::prelude::*;

use crate::models::{PositionSide, TradeType};
use crate::text::str_equal;

verus! {

/// A tracked position.
pub struct PositionEntry<A> {
    pub symbol: String,
    pub side: PositionSide,
    pub trade_type: TradeType,
    /// The strategy that opened the position; empty when unknown.
    pub strategy_name: String,
    pub amounts: A,
}

/// The symbols of a sequence of positions.
pub open spec fn symbols_of<A>(s: Seq<PositionEntry<A>>) -> Seq<Seq<char>> {
    s.map_values(|e: PositionEntry<A>| e.symbol@)
}

/// No symbol is tracked twice.
pub open spec fn unique_symbols<A>(s: Seq<PositionEntry<A>>) -> bool {
    forall|i: int, j: int| 0 <= i < s.len() && 0 <= j < s.len() && i != j ==> s[i].symbol@ != s[j].symbol@
}

/// The index of the position for a symbol, if any.
pub open spec fn index_of<A>(s: Seq<PositionEntry<A>>, x: Seq<char>) -> Option<int> {
    if exists|i: int| 0 <= i < s.len() && s[i].symbol@ == x {
        Some(choose|i: int| 0 <= i < s.len() && s[i].symbol@ == x)
    } else {
        None
    }
}

/// The position for a symbol, if any.
pub open spec fn lookup<A>(s: Seq<PositionEntry<A>>, x: Seq<char>) -> Option<PositionEntry<A>> {
    match index_of(s, x) {
        Some(i) => Some(s[i]),
        None => None,
    }
}

/// With unique symbols, the position found at an index is the one for its symbol.
pub proof fn lemma_lookup_at<A>(s: Seq<PositionEntry<A>>, i: int)
    requires
        unique_symbols(s),
        0 <= i < s.len(),
    ensures
        index_of(s, s[i].symbol@) == Some(i),
        lookup(s, s[i].symbol@) == Some(s[i]),
{
}

/// The number of positions opened by a strategy.
pub open spec fn count_strategy<A>(s: Seq<PositionEntry<A>>, name: Seq<char>) -> nat
    decreases s.len(),
{
    if s.len() == 0 {
        0
    } else {
        count_strategy(s.drop_last(), name) + if s.last().strategy_name@ == name {
            1nat
        } else {
            0nat
        }
    }
}

/// The positions of one trade type, in book order.
pub open spec fn of_trade_type<A>(s: Seq<PositionEntry<A>>, t: TradeType) -> Seq<PositionEntry<A>>
    decreases s.len(),
{
    if s.len() == 0 {
        Seq::<PositionEntry<A>>::empty()
    } else {
        let rest = of_trade_type(s.drop_last(), t);
        if s.last().trade_type == t {
            rest.push(s.last())
        } else {
            rest
        }
    }
}

impl<A: Copy> PositionEntry<A> {
    /// A copy of the position.
    pub fn duplicate(&self) -> (r: PositionEntry<A>)
        ensures
            r == *self,
    {
        PositionEntry {
            symbol: self.symbol.clone(),
            side: self.side,
            trade_type: self.trade_type,
            strategy_name: self.strategy_name.clone(),
            amounts: self.amounts,
        }
    }
}

/// The open positions, at most one per symbol.
pub struct PositionTracker<A> {
    entries: Vec<PositionEntry<A>>,
}

impl<A> View for PositionTracker<A> {
    type V = Seq<PositionEntry<A>>;

    /// The positions, in the order in which their symbols entered the book.
    closed spec fn view(&self) -> Seq<PositionEntry<A>> {
        self.entries@
    }
}

impl<A> PositionTracker<A> {

    #[verifier::type_invariant]
    spec fn well_formed(self) -> bool {
        unique_symbols(self.entries@)
    }
}

/// The positions selected for a trade type all have that trade type, and every
/// position of that trade type is selected: the end-of-day flatten, which takes
/// the day positions, never touches a swing position.
pub proof fn lemma_of_trade_type_exact<A>(s: Seq<PositionEntry<A>>, t: TradeType)
    ensures
        forall|k: int| 0 <= k < of_trade_type(s, t).len() ==> (#[trigger] of_trade_type(s, t)[k]).trade_type == t,
        forall|i: int| 0 <= i < s.len() && s[i].trade_type == t ==> of_trade_type(s, t).contains(#[trigger] s[i]),
    decreases s.len(),
{
    if s.len() > 0 {
        let p = s.drop_last();
        lemma_of_trade_type_exact(p, t);
        let rest = of_trade_type(p, t);
        let cur = of_trade_type(s, t);
        assert forall|k: int| 0 <= k < cur.len() implies (#[trigger] cur[k]).trade_type == t by {
            if k < rest.len() {
                assert(cur[k] == rest[k]);
            }
        }
        assert forall|i: int| 0 <= i < s.len() && s[i].trade_type == t implies cur.contains(#[trigger] s[i]) by {
            if i < s.len() - 1 {
                assert(s[i] == p[i]);
                assert(rest.contains(p[i]));
                let k = choose|k: int| 0 <= k < rest.len() && rest[k] == p[i];
                assert(cur[k] == rest[k]);
            } else {
                assert(cur[cur.len() - 1] == s[i]);
            }
        }
    }
}

/// The book after putting a position under its symbol: it replaces the position
/// held for that symbol in place, or is appended.
pub open spec fn upserted<A>(s: Seq<PositionEntry<A>>, e: PositionEntry<A>) -> Seq<PositionEntry<A>> {
    match index_of(s, e.symbol@) {
        Some(i) => s.update(i, e),
        None => s.push(e),
    }
}

/// The book after putting each of `ps` in turn.
pub open spec fn loaded<A>(s: Seq<PositionEntry<A>>, ps: Seq<PositionEntry<A>>) -> Seq<PositionEntry<A>>
    decreases ps.len(),
{
    if ps.len() == 0 {
        s
    } else {
        upserted(loaded(s, ps.drop_last()), ps.last())
    }
}

proof fn lemma_upserted_unique<A>(s: Seq<PositionEntry<A>>, e: PositionEntry<A>)
    requires
        unique_symbols(s),
    ensures
        unique_symbols(upserted(s, e)),
{
}

proof fn lemma_loaded_unique<A>(s: Seq<PositionEntry<A>>, ps: Seq<PositionEntry<A>>)
    requires
        unique_symbols(s),
    ensures
        unique_symbols(loaded(s, ps)),
    decreases ps.len(),
{
    if ps.len() > 0 {
        lemma_loaded_unique(s, ps.drop_last());
        lemma_upserted_unique(loaded(s, ps.drop_last()), ps.last());
    }
}

impl<A: Copy> PositionTracker<A> {

    /// An empty book.
    pub fn new() -> (r: PositionTracker<A>)
        ensures
            r@.len() == 0,
    {
        PositionTracker { entries: Vec::new() }
    }

    fn find(&self, symbol: &str) -> (r: Option<usize>)
        ensures
            r is None ==> index_of(self@, symbol@) is None,
            r matches Some(i) ==> i < self@.len() && index_of(self@, symbol@)
                == Some(i as int) && self@[i as int].symbol@ == symbol@,
    {
        proof {
            use_type_invariant(self);
        }
        let mut i: usize = 0;
        while i < self.entries.len()
            invariant
                i <= self.entries.len(),
                unique_symbols(self.entries@),
                forall|j: int| 0 <= j < i ==> self.entries@[j].symbol@ != symbol@,
            decreases self.entries.len() - i,
        {
            if str_equal(self.entries[i].symbol.as_str(), symbol) {
                proof {
                    lemma_lookup_at(self.entries@, i as int);
                }
                return Some(i);
            }
            i = i + 1;
        }
        None
    }

    /// The position for a symbol.
    pub fn get(&self, symbol: &str) -> (r: Option<&PositionEntry<A>>)
        ensures
            r matches Some(e) ==> lookup(self@, symbol@) == Some(*e),
            r is None ==> lookup(self@, symbol@) is None,
    {
        match self.find(symbol) {
            Some(i) => Some(&self.entries[i]),
            None => None,
        }
    }

    /// Puts a position under its symbol, replacing the one held for that symbol.
    pub fn upsert(&mut self, entry: PositionEntry<A>)
        ensures
            final(self)@ == upserted(old(self)@, entry),
    {
        proof {
            use_type_invariant(&*self);
        }
        let found = self.find(entry.symbol.as_str());
        let mut entries: Vec<PositionEntry<A>> = Vec::new();
        std::mem::swap(&mut entries, &mut self.entries);
        match found {
            Some(i) => {
                entries.set(i, entry);
            },
            None => {
                entries.push(entry);
            },
        }
        proof {
            lemma_upserted_unique(old(self)@, entry);
        }
        self.entries = entries;
    }

    /// Loads positions (for example those stored at the last shutdown): each is
    /// put under its symbol in turn, so a later one replaces an earlier one.
    pub fn load(&mut self, positions: Vec<PositionEntry<A>>)
        ensures
            final(self)@ == loaded(old(self)@, positions@),
    {
        let mut i: usize = 0;
        while i < positions.len()
            invariant
                i <= positions.len(),
                self@ == loaded(old(self)@, positions@.take(i as int)),
            decreases positions.len() - i,
        {
            proof {
                assert(positions@.take(i + 1).drop_last() =~= positions@.take(i as int));
            }
            self.upsert(positions[i].duplicate());
            i = i + 1;
        }
        proof {
            assert(positions@.take(positions@.len() as int) =~= positions@);
        }
    }

    /// Removes the position for a symbol and returns it.
    pub fn remove(&mut self, symbol: &str) -> (r: Option<PositionEntry<A>>)
        ensures
            r == lookup(old(self)@, symbol@),
            r is None ==> final(self)@ == old(self)@,
            index_of(old(self)@, symbol@) matches Some(i) ==> final(self)@
                == old(self)@.remove(i),
    {
        proof {
            use_type_invariant(&*self);
        }
        match self.find(symbol) {
            Some(i) => {
                let mut entries: Vec<PositionEntry<A>> = Vec::new();
                std::mem::swap(&mut entries, &mut self.entries);
                let e = entries.remove(i);
                proof {
                    assert forall|a: int, b: int|
                        0 <= a < entries@.len() && 0 <= b < entries@.len() && a != b implies entries@[a].symbol@
                        != entries@[b].symbol@ by {
                        let a0 = if a < i { a } else { a + 1 };
                        let b0 = if b < i { b } else { b + 1 };
                        assert(entries@[a] == old(self)@[a0]);
                        assert(entries@[b] == old(self)@[b0]);
                    }
                }
                self.entries = entries;
                Some(e)
            },
            None => None,
        }
    }

    /// Sets the side and the amounts of the position for a symbol, keeping its
    /// trade type and strategy, and returns a copy of the updated position; `None`
    /// and no change when the symbol has no position.
    pub fn update(&mut self, symbol: &str, side: PositionSide, amounts: A) -> (r: Option<
        PositionEntry<A>,
    >)
        ensures
            index_of(old(self)@, symbol@) is None ==> r is None && final(self)@
                == old(self)@,
            index_of(old(self)@, symbol@) matches Some(i) ==> {
                let e = old(self)@[i];
                let u = PositionEntry { side, amounts, ..e };
                &&& r == Some(u)
                &&& final(self)@ == old(self)@.update(i, u)
            },
    {
        proof {
            use_type_invariant(&*self);
        }
        match self.find(symbol) {
            Some(i) => {
                let old_entry = self.entries[i].duplicate();
                let u = PositionEntry {
                    symbol: old_entry.symbol,
                    side,
                    trade_type: old_entry.trade_type,
                    strategy_name: old_entry.strategy_name,
                    amounts,
                };
                let copy = u.duplicate();
                let mut entries: Vec<PositionEntry<A>> = Vec::new();
                std::mem::swap(&mut entries, &mut self.entries);
                entries.set(i, u);
                self.entries = entries;
                Some(copy)
            },
            None => None,
        }
    }

    /// What a fill with order side `side` does to the position for `symbol`.
    pub fn fill_action_for(&self, symbol: &str, side: &str) -> (r: FillAction)
        ensures
            r == fill_action_of(
                side@,
                match lookup(self@, symbol@) {
                    Some(e) => Some(e.side),
                    None => None,
                },
            ),
    {
        let existing = match self.get(symbol) {
            Some(e) => Some(e.side),
            None => None,
        };
        fill_action(side, existing)
    }

    /// The number of open positions.
    pub fn count(&self) -> (r: usize)
        ensures
            r == self@.len(),
            unique_symbols(self@),
    {
        proof {
            use_type_invariant(self);
        }
        self.entries.len()
    }

    /// A copy of every position.
    pub fn all(&self) -> (r: Vec<PositionEntry<A>>)
        ensures
            r@ == self@,
            unique_symbols(self@),
    {
        proof {
            use_type_invariant(self);
        }
        let mut out: Vec<PositionEntry<A>> = Vec::new();
        let mut i: usize = 0;
        while i < self.entries.len()
            invariant
                i <= self.entries.len(),
                out@ == self.entries@.take(i as int),
            decreases self.entries.len() - i,
        {
            out.push(self.entries[i].duplicate());
            proof {
                assert(self.entries@.take(i + 1) =~= self.entries@.take(i as int).push(
                    self.entries@[i as int],
                ));
            }
            i = i + 1;
        }
        proof {
            assert(self.entries@.take(self.entries@.len() as int) =~= self.entries@);
        }
        out
    }

    /// A copy of the positions of one trade type, in book order.
    pub fn of_type(&self, trade_type: TradeType) -> (r: Vec<PositionEntry<A>>)
        ensures
            r@ == of_trade_type(self@, trade_type),
    {
        let mut out: Vec<PositionEntry<A>> = Vec::new();
        let mut i: usize = 0;
        while i < self.entries.len()
            invariant
                i <= self.entries.len(),
                out@ == of_trade_type(self.entries@.take(i as int), trade_type),
            decreases self.entries.len() - i,
        {
            proof {
                assert(self.entries@.take(i + 1).drop_last() =~= self.entries@.take(i as int));
            }
            if self.entries[i].trade_type == trade_type {
                out.push(self.entries[i].duplicate());
            }
            i = i + 1;
        }
        proof {
            assert(self.entries@.take(self.entries@.len() as int) =~= self.entries@);
        }
        out
    }

    /// The day-trading positions (those flattened at the end of the day).
    pub fn day_positions(&self) -> (r: Vec<PositionEntry<A>>)
        ensures
            r@ == of_trade_type(self@, TradeType::Day),
    {
        self.of_type(TradeType::Day)
    }

    /// The swing-trading positions.
    pub fn swing_positions(&self) -> (r: Vec<PositionEntry<A>>)
        ensures
            r@ == of_trade_type(self@, TradeType::Swing),
    {
        self.of_type(TradeType::Swing)
    }

    /// The number of positions opened by a strategy.
    pub fn count_by_strategy(&self, strategy_name: &str) -> (r: usize)
        ensures
            r == count_strategy(self@, strategy_name@),
    {
        let mut n: usize = 0;
        let mut i: usize = 0;
        while i < self.entries.len()
            invariant
                i <= self.entries.len(),
                n == count_strategy(self.entries@.take(i as int), strategy_name@),
                n <= i,
            decreases self.entries.len() - i,
        {
            proof {
                assert(self.entries@.take(i + 1).drop_last() =~= self.entries@.take(i as int));
            }
            if str_equal(self.entries[i].strategy_name.as_str(), strategy_name) {
                n = n + 1;
            }
            i = i + 1;
        }
        proof {
            assert(self.entries@.take(self.entries@.len() as int) =~= self.entries@);
        }
        n
    }
}


/// What a fill does to the position of its symbol.
#[derive(Debug, Clone, Copy, PartialEq, Eq, Structural)]
pub enum FillAction {
    /// A buy without a position opens a long position.
    OpenLong,
    /// A buy on a long position adds to it.
    AddToLong,
    /// A buy on a short position covers (part of) it.
    ReduceShort,
    /// A sell without a position opens a short position.
    OpenShort,
    /// A sell on a short position adds to it.
    AddToShort,
    /// A sell on a long position closes (part of) it.
    ReduceLong,
    /// Any other order side changes nothing.
    Ignore,
}

/// The effect of a fill with order side `side` on a symbol whose position has
/// side `existing` (`None`: no position).
pub open spec fn fill_action_of(side: Seq<char>, existing: Option<PositionSide>) -> FillAction {
    if side == "buy"@ {
        match existing {
            None => FillAction::OpenLong,
            Some(PositionSide::Long) => FillAction::AddToLong,
            Some(PositionSide::Short) => FillAction::ReduceShort,
        }
    } else if side == "sell"@ {
        match existing {
            None => FillAction::OpenShort,
            Some(PositionSide::Short) => FillAction::AddToShort,
            Some(PositionSide::Long) => FillAction::ReduceLong,
        }
    } else {
        FillAction::Ignore
    }
}

/// Decides the effect of a fill from its order side and the side of the position
/// held for the symbol.
pub fn fill_action(side: &str, existing: Option<PositionSide>) -> (r: FillAction)
    ensures
        r == fill_action_of(side@, existing),
{
    if str_equal(side, "buy") {
        match existing {
            None => FillAction::OpenLong,
            Some(PositionSide::Long) => FillAction::AddToLong,
            Some(PositionSide::Short) => FillAction::ReduceShort,
        }
    } else if str_equal(side, "sell") {
        match existing {
            None => FillAction::OpenShort,
            Some(PositionSide::Short) => FillAction::AddToShort,
            Some(PositionSide::Long) => FillAction::ReduceLong,
        }
    } else {
        FillAction::Ignore
    }
}

/// The order that closes a position reduces it: selling a long, buying back a
/// short.
pub proof fn lemma_close_side_reduces(side: PositionSide)
    ensures
        fill_action_of(
            match side {
                PositionSide::Long => "sell"@,
                PositionSide::Short => "buy"@,
            },
            Some(side),
        ) == (match side {
            PositionSide::Long => FillAction::ReduceLong,
            PositionSide::Short => FillAction::ReduceShort,
        }),
{
    reveal_strlit("buy");
    reveal_strlit("sell");
    assert("sell"@ != "buy"@) by {
        assert("sell"@.len() != "buy"@.len());
    }
}

/// Why a position is closed by its levels.
#[derive(Debug, Clone, Copy, PartialEq, Eq, Structural)]
pub enum ExitTrigger {
    StopLoss,
    TakeProfit,
}

/// The comparisons of a position's current price with its levels.
#[derive(Debug, Clone, Copy, PartialEq, Eq, Structural)]
pub struct LevelCrossings {
    /// Price at or below the stop-loss level.
    pub at_or_below_stop: bool,
    /// Price at or above the stop-loss level.
    pub at_or_above_stop: bool,
    /// Price at or above the take-profit level.
    pub at_or_above_take: bool,
    /// Price at or below the take-profit level.
    pub at_or_below_take: bool,
}

/// A long position stops out at or below its stop and takes profit at or above
/// its target; a short position the other way round. The stop is checked first.
pub open spec fn exit_trigger_of(side: PositionSide, c: LevelCrossings) -> Option<ExitTrigger> {
    let (hit_stop, hit_take) = match side {
        PositionSide::Long => (c.at_or_below_stop, c.at_or_above_take),
        PositionSide::Short => (c.at_or_above_stop, c.at_or_below_take),
    };
    if hit_stop {
        Some(ExitTrigger::StopLoss)
    } else if hit_take {
        Some(ExitTrigger::TakeProfit)
    } else {
        None
    }
}

/// A position is closed only by a level it crossed on its own side. A long stops
/// out exactly when the price is at or below its stop, and otherwise takes profit
/// exactly when the price is at or above its target; a short stops out exactly
/// when the price is at or above its stop, and otherwise takes profit exactly when
/// the price is at or below its target. With neither crossing of its side, it
/// stays open.
pub proof fn lemma_exit_by_own_side_levels(side: PositionSide, c: LevelCrossings)
    ensures
        side == PositionSide::Long ==> {
            &&& (exit_trigger_of(side, c) == Some(ExitTrigger::StopLoss)) == c.at_or_below_stop
            &&& (exit_trigger_of(side, c) == Some(ExitTrigger::TakeProfit)) == (!c.at_or_below_stop
                && c.at_or_above_take)
            &&& (exit_trigger_of(side, c) is None) == (!c.at_or_below_stop && !c.at_or_above_take)
        },
        side == PositionSide::Short ==> {
            &&& (exit_trigger_of(side, c) == Some(ExitTrigger::StopLoss)) == c.at_or_above_stop
            &&& (exit_trigger_of(side, c) == Some(ExitTrigger::TakeProfit)) == (!c.at_or_above_stop
                && c.at_or_below_take)
            &&& (exit_trigger_of(side, c) is None) == (!c.at_or_above_stop && !c.at_or_below_take)
        },
{
}

/// Whether a position must be closed by its stop-loss or take-profit level.
pub fn exit_trigger(side: PositionSide, c: &LevelCrossings) -> (r: Option<ExitTrigger>)
    ensures
        r == exit_trigger_of(side, *c),
{
    let (hit_stop, hit_take) = match side {
        PositionSide::Long => (c.at_or_below_stop, c.at_or_above_take),
        PositionSide::Short => (c.at_or_above_stop, c.at_or_below_take),
    };
    if hit_stop {
        Some(ExitTrigger::StopLoss)
    } else if hit_take {
        Some(ExitTrigger::TakeProfit)
    } else {
        None
    }
}


/// A position as the broker reports it, prepared for reconciliation.
pub struct SyncedHolding<A> {
    pub symbol: String,
    pub side: PositionSide,
    /// The amounts the tracked position takes when it is updated or added.
    pub amounts: A,
    /// The reported quantity is positive.
    pub has_quantity: bool,
    /// The reported quantity, current price, entry price or side differs from the
    /// tracked position's.
    pub differs_from_local: bool,
}

/// What a tracked position is, read through the views of its strings.
pub struct PositionView<A> {
    pub symbol: Seq<char>,
    pub side: PositionSide,
    pub trade_type: TradeType,
    pub strategy_name: Seq<char>,
    pub amounts: A,
}

pub open spec fn entry_view<A>(e: PositionEntry<A>) -> PositionView<A> {
    PositionView {
        symbol: e.symbol@,
        side: e.side,
        trade_type: e.trade_type,
        strategy_name: e.strategy_name@,
        amounts: e.amounts,
    }
}

pub open spec fn views<A>(s: Seq<PositionEntry<A>>) -> Seq<PositionView<A>> {
    s.map_values(|e: PositionEntry<A>| entry_view(e))
}

/// The last report for a symbol; a report repeated for a symbol counts once, with
/// its last occurrence.
pub open spec fn last_holding<A>(hs: Seq<SyncedHolding<A>>, x: Seq<char>) -> Option<SyncedHolding<A>>
    decreases hs.len(),
{
    if hs.len() == 0 {
        None
    } else if hs.last().symbol@ == x {
        Some(hs.last())
    } else {
        last_holding(hs.drop_last(), x)
    }
}

/// No later report names the same symbol as report `j`.
pub open spec fn is_last_report<A>(hs: Seq<SyncedHolding<A>>, j: int) -> bool {
    forall|k: int| j < k < hs.len() ==> hs[k].symbol@ != hs[j].symbol@
}

/// The tracked positions after reconciliation, in book order: a position the
/// broker no longer reports is dropped; one whose last report has a quantity and
/// differs takes the reported side and amounts; any other is kept as it is.
pub open spec fn synced_existing<A>(s: Seq<PositionEntry<A>>, hs: Seq<SyncedHolding<A>>) -> Seq<PositionView<A>>
    decreases s.len(),
{
    if s.len() == 0 {
        Seq::<PositionView<A>>::empty()
    } else {
        let rest = synced_existing(s.drop_last(), hs);
        let e = s.last();
        match last_holding(hs, e.symbol@) {
            None => rest,
            Some(h) => if h.has_quantity && h.differs_from_local {
                rest.push(PositionView { side: h.side, amounts: h.amounts, ..entry_view(e) })
            } else {
                rest.push(entry_view(e))
            },
        }
    }
}

/// The symbols of tracked positions that reconciliation drops or updates, in book
/// order.
pub open spec fn existing_changes<A>(s: Seq<PositionEntry<A>>, hs: Seq<SyncedHolding<A>>) -> Seq<Seq<char>>
    decreases s.len(),
{
    if s.len() == 0 {
        Seq::<Seq<char>>::empty()
    } else {
        let rest = existing_changes(s.drop_last(), hs);
        let e = s.last();
        match last_holding(hs, e.symbol@) {
            None => rest.push(e.symbol@),
            Some(h) => if h.has_quantity && h.differs_from_local {
                rest.push(e.symbol@)
            } else {
                rest
            },
        }
    }
}

/// Report `j` adds a position: it is the last report of its symbol, it has a
/// quantity, and the book tracks no position for the symbol.
pub open spec fn adds_position<A>(s: Seq<PositionEntry<A>>, hs: Seq<SyncedHolding<A>>, j: int) -> bool {
    &&& is_last_report(hs, j)
    &&& hs[j].has_quantity
    &&& index_of(s, hs[j].symbol@) is None
}

/// The positions that the first `n` reports add, in report order: a day-trading
/// position without strategy.
pub open spec fn synced_new<A>(s: Seq<PositionEntry<A>>, hs: Seq<SyncedHolding<A>>, n: int) -> Seq<PositionView<A>>
    decreases n,
{
    if n <= 0 {
        Seq::<PositionView<A>>::empty()
    } else {
        let rest = synced_new(s, hs, n - 1);
        let h = hs[n - 1];
        if adds_position(s, hs, n - 1) {
            rest.push(
                PositionView {
                    symbol: h.symbol@,
                    side: h.side,
                    trade_type: TradeType::Day,
                    strategy_name: Seq::<char>::empty(),
                    amounts: h.amounts,
                },
            )
        } else {
            rest
        }
    }
}

/// The symbols that the first `n` reports add, in report order.
pub open spec fn new_changes<A>(s: Seq<PositionEntry<A>>, hs: Seq<SyncedHolding<A>>, n: int) -> Seq<Seq<char>>
    decreases n,
{
    if n <= 0 {
        Seq::<Seq<char>>::empty()
    } else {
        let rest = new_changes(s, hs, n - 1);
        if adds_position(s, hs, n - 1) {
            rest.push(hs[n - 1].symbol@)
        } else {
            rest
        }
    }
}

/// No symbol occurs twice among views.
pub open spec fn unique_view_symbols<A>(v: Seq<PositionView<A>>) -> bool {
    forall|i: int, j: int| 0 <= i < v.len() && 0 <= j < v.len() && i != j ==> v[i].symbol != v[j].symbol
}

proof fn lemma_last_holding_some<A>(hs: Seq<SyncedHolding<A>>, x: Seq<char>)
    requires
        last_holding(hs, x) is Some,
    ensures
        last_holding(hs, x)->0.symbol@ == x,
    decreases hs.len(),
{
    if hs.last().symbol@ != x {
        lemma_last_holding_some(hs.drop_last(), x);
    }
}

proof fn lemma_synced_existing_symbols<A>(s: Seq<PositionEntry<A>>, hs: Seq<SyncedHolding<A>>)
    ensures
        forall|k: int|
            0 <= k < synced_existing(s, hs).len() ==> exists|i: int|
                0 <= i < s.len() && #[trigger] synced_existing(s, hs)[k].symbol == s[i].symbol@,
        synced_existing(s, hs).len() <= s.len(),
        unique_symbols(s) ==> unique_view_symbols(synced_existing(s, hs)),
    decreases s.len(),
{
    if s.len() > 0 {
        let p = s.drop_last();
        lemma_synced_existing_symbols(p, hs);
        let rest = synced_existing(p, hs);
        let cur = synced_existing(s, hs);
        assert forall|k: int| 0 <= k < cur.len() implies exists|i: int|
            0 <= i < s.len() && #[trigger] cur[k].symbol == s[i].symbol@ by {
            if k < rest.len() {
                let i = choose|i: int| 0 <= i < p.len() && rest[k].symbol == p[i].symbol@;
                assert(cur[k] == rest[k]);
                assert(s[i] == p[i]);
            } else {
                assert(cur[k].symbol == s[s.len() - 1].symbol@);
            }
        }
        if unique_symbols(s) {
            assert(unique_symbols(p)) by {
                assert forall|a: int, b: int| 0 <= a < p.len() && 0 <= b < p.len() && a != b implies p[a].symbol@
                    != p[b].symbol@ by {
                    assert(p[a] == s[a]);
                    assert(p[b] == s[b]);
                }
            }
            assert forall|a: int, b: int|
                0 <= a < cur.len() && 0 <= b < cur.len() && a != b implies cur[a].symbol
                != cur[b].symbol by {
                if a < rest.len() && b < rest.len() {
                    assert(cur[a] == rest[a]);
                    assert(cur[b] == rest[b]);
                } else if a < rest.len() {
                    let i = choose|i: int| 0 <= i < p.len() && rest[a].symbol == p[i].symbol@;
                    assert(cur[a] == rest[a]);
                    assert(s[i] == p[i]);
                    assert(cur[b].symbol == s[s.len() - 1].symbol@);
                } else {
                    let i = choose|i: int| 0 <= i < p.len() && rest[b].symbol == p[i].symbol@;
                    assert(cur[b] == rest[b]);
                    assert(s[i] == p[i]);
                    assert(cur[a].symbol == s[s.len() - 1].symbol@);
                }
            }
        }
    }
}

proof fn lemma_synced_new_symbols<A>(s: Seq<PositionEntry<A>>, hs: Seq<SyncedHolding<A>>, n: int)
    requires
        0 <= n <= hs.len(),
    ensures
        forall|k: int|
            0 <= k < synced_new(s, hs, n).len() ==> index_of(
                s,
                #[trigger] synced_new(s, hs, n)[k].symbol,
            ) is None,
        forall|k: int, m: int|
            0 <= k < synced_new(s, hs, n).len() && n <= m < hs.len() ==> #[trigger] synced_new(
                s,
                hs,
                n,
            )[k].symbol != #[trigger] hs[m].symbol@,
        unique_view_symbols(synced_new(s, hs, n)),
    decreases n,
{
    if n > 0 {
        lemma_synced_new_symbols(s, hs, n - 1);
        let rest = synced_new(s, hs, n - 1);
        let cur = synced_new(s, hs, n);
        if adds_position(s, hs, n - 1) {
            assert(cur.len() == rest.len() + 1);
            assert(cur[rest.len() as int].symbol == hs[n - 1].symbol@);
        }
        assert forall|k: int| 0 <= k < cur.len() implies index_of(s, #[trigger] cur[k].symbol) is None by {
            if k < rest.len() {
                assert(cur[k] == rest[k]);
            }
        }
        assert forall|k: int, m: int| 0 <= k < cur.len() && n <= m < hs.len() implies #[trigger] cur[k].symbol
            != #[trigger] hs[m].symbol@ by {
            if k < rest.len() {
                assert(cur[k] == rest[k]);
            }
        }
        assert forall|a: int, b: int|
            0 <= a < cur.len() && 0 <= b < cur.len() && a != b implies cur[a].symbol != cur[b].symbol by {
            if a < rest.len() && b < rest.len() {
                assert(cur[a] == rest[a]);
                assert(cur[b] == rest[b]);
            } else if a < rest.len() {
                assert(cur[a] == rest[a]);
                assert(rest[a].symbol != hs[n - 1].symbol@);
            } else {
                assert(cur[b] == rest[b]);
                assert(rest[b].symbol != hs[n - 1].symbol@);
            }
        }
    }
}

/// The reconciled book never tracks a symbol twice.
proof fn lemma_synced_unique<A>(s: Seq<PositionEntry<A>>, hs: Seq<SyncedHolding<A>>)
    requires
        unique_symbols(s),
    ensures
        unique_view_symbols(synced_existing(s, hs) + synced_new(s, hs, hs.len() as int)),
{
    lemma_synced_existing_symbols(s, hs);
    lemma_synced_new_symbols(s, hs, hs.len() as int);
    let a = synced_existing(s, hs);
    let b = synced_new(s, hs, hs.len() as int);
    let c = a + b;
    assert forall|x: int, y: int| 0 <= x < c.len() && 0 <= y < c.len() && x != y implies c[x].symbol
        != c[y].symbol by {
        if x < a.len() && y < a.len() {
        } else if x >= a.len() && y >= a.len() {
            assert(c[x] == b[x - a.len()]);
            assert(c[y] == b[y - a.len()]);
        } else if x < a.len() {
            let i = choose|i: int| 0 <= i < s.len() && a[x].symbol == s[i].symbol@;
            assert(c[y] == b[y - a.len()]);
            assert(index_of(s, b[y - a.len()].symbol) is None);
        } else {
            let i = choose|i: int| 0 <= i < s.len() && a[y].symbol == s[i].symbol@;
            assert(c[x] == b[x - a.len()]);
            assert(index_of(s, b[x - a.len()].symbol) is None);
        }
    }
}

/// The index of the last report for a symbol.
fn last_report_index<A>(hs: &Vec<SyncedHolding<A>>, symbol: &str) -> (r: Option<usize>)
    ensures
        r is None ==> last_holding(hs@, symbol@) is None,
        r matches Some(j) ==> j < hs@.len() && last_holding(hs@, symbol@) == Some(hs@[j as int])
            && hs@[j as int].symbol@ == symbol@,
{
    let mut j: usize = hs.len();
    proof {
        assert(hs@.take(hs@.len() as int) =~= hs@);
    }
    while j > 0
        invariant
            j <= hs@.len(),
            last_holding(hs@, symbol@) == last_holding(hs@.take(j as int), symbol@),
        decreases j,
    {
        proof {
            assert(hs@.take(j as int).drop_last() =~= hs@.take(j - 1));
        }
        if str_equal(hs[j - 1].symbol.as_str(), symbol) {
            return Some(j - 1);
        }
        j = j - 1;
    }
    None
}

/// Whether report `j` is the last one for its symbol.
fn is_last_report_at<A>(hs: &Vec<SyncedHolding<A>>, j: usize) -> (r: bool)
    requires
        j < hs@.len(),
    ensures
        r == is_last_report(hs@, j as int),
{
    let n = hs.len();
    let mut k: usize = j + 1;
    while k < n
        invariant
            j < k <= n,
            n == hs@.len(),
            forall|m: int| j < m < k ==> hs@[m].symbol@ != hs@[j as int].symbol@,
        decreases n - k,
    {
        if hs[k].symbol == hs[j].symbol {
            return false;
        }
        k = k + 1;
    }
    true
}

/// What reconciliation makes of a tracked position that the broker still reports.
pub open spec fn reconciled_view<A>(e: PositionEntry<A>, hs: Seq<SyncedHolding<A>>) -> PositionView<A> {
    match last_holding(hs, e.symbol@) {
        Some(h) => if h.has_quantity && h.differs_from_local {
            PositionView { side: h.side, amounts: h.amounts, ..entry_view(e) }
        } else {
            entry_view(e)
        },
        None => entry_view(e),
    }
}

/// The position that a report adds.
pub open spec fn added_view<A>(h: SyncedHolding<A>) -> PositionView<A> {
    PositionView {
        symbol: h.symbol@,
        side: h.side,
        trade_type: TradeType::Day,
        strategy_name: Seq::<char>::empty(),
        amounts: h.amounts,
    }
}

/// The position that a symbol has after reconciling the book `s` with the reports
/// `hs`, symbol by symbol: none when the broker does not report the symbol; the
/// tracked position, updated when its last report has a quantity and differs;
/// a new day-trading position when only the broker holds it with a quantity.
pub open spec fn reconciled<A>(s: Seq<PositionEntry<A>>, hs: Seq<SyncedHolding<A>>, x: Seq<char>) -> Option<PositionView<A>> {
    match last_holding(hs, x) {
        None => None,
        Some(h) => match lookup(s, x) {
            Some(e) => Some(reconciled_view(e, hs)),
            None => if h.has_quantity {
                Some(added_view(h))
            } else {
                None
            },
        },
    }
}

/// Reconciliation reports a symbol as changed: a tracked position that the broker
/// no longer reports or whose last report has a quantity and differs, or a
/// position that only the broker holds, with a quantity.
pub open spec fn reconciliation_changes<A>(s: Seq<PositionEntry<A>>, hs: Seq<SyncedHolding<A>>, x: Seq<char>) -> bool {
    match lookup(s, x) {
        Some(e) => match last_holding(hs, x) {
            None => true,
            Some(h) => h.has_quantity && h.differs_from_local,
        },
        None => match last_holding(hs, x) {
            None => false,
            Some(h) => h.has_quantity,
        },
    }
}

proof fn lemma_last_holding_found<A>(hs: Seq<SyncedHolding<A>>, x: Seq<char>)
    ensures
        last_holding(hs, x) is Some ==> exists|j: int|
            0 <= j < hs.len() && hs[j].symbol@ == x && is_last_report(hs, j) && last_holding(hs, x)
                == Some(#[trigger] hs[j]),
    decreases hs.len(),
{
    if hs.len() > 0 {
        let p = hs.drop_last();
        lemma_last_holding_found(p, x);
        if hs.last().symbol@ == x {
            assert(is_last_report(hs, hs.len() - 1));
            assert(last_holding(hs, x) == Some(hs[hs.len() - 1]));
        } else if last_holding(p, x) is Some {
            let j = choose|j: int|
                0 <= j < p.len() && p[j].symbol@ == x && is_last_report(p, j) && last_holding(p, x)
                    == Some(#[trigger] p[j]);
            assert(hs[j] == p[j]);
            assert forall|k: int| j < k < hs.len() implies hs[k].symbol@ != hs[j].symbol@ by {
                if k < p.len() {
                    assert(hs[k] == p[k]);
                }
            }
        }
    }
}

proof fn lemma_last_report_is_last_holding<A>(hs: Seq<SyncedHolding<A>>, j: int)
    requires
        0 <= j < hs.len(),
        is_last_report(hs, j),
    ensures
        last_holding(hs, hs[j].symbol@) == Some(hs[j]),
    decreases hs.len(),
{
    if j < hs.len() - 1 {
        let p = hs.drop_last();
        assert(hs.last().symbol@ != hs[j].symbol@);
        assert(p[j] == hs[j]);
        assert forall|k: int| j < k < p.len() implies p[k].symbol@ != p[j].symbol@ by {
            assert(p[k] == hs[k]);
        }
        lemma_last_report_is_last_holding(p, j);
    }
}

proof fn lemma_synced_existing_members<A>(s: Seq<PositionEntry<A>>, hs: Seq<SyncedHolding<A>>)
    ensures
        forall|k: int|
            0 <= k < synced_existing(s, hs).len() ==> exists|i: int|
                0 <= i < s.len() && last_holding(hs, s[i].symbol@) is Some && #[trigger] synced_existing(
                    s,
                    hs,
                )[k] == reconciled_view(s[i], hs),
        forall|i: int|
            0 <= i < s.len() && last_holding(hs, s[i].symbol@) is Some ==> synced_existing(
                s,
                hs,
            ).contains(reconciled_view(#[trigger] s[i], hs)),
    decreases s.len(),
{
    if s.len() > 0 {
        let p = s.drop_last();
        lemma_synced_existing_members(p, hs);
        let rest = synced_existing(p, hs);
        let cur = synced_existing(s, hs);
        let e = s.last();
        if last_holding(hs, e.symbol@) is Some {
            assert(cur == rest.push(reconciled_view(e, hs)));
        } else {
            assert(cur == rest);
        }
        assert forall|k: int| 0 <= k < cur.len() implies exists|i: int|
            0 <= i < s.len() && last_holding(hs, s[i].symbol@) is Some && #[trigger] cur[k]
                == reconciled_view(s[i], hs) by {
            if k < rest.len() {
                assert(cur[k] == rest[k]);
                assert(synced_existing(p, hs)[k] == rest[k]);
                let i = choose|i: int|
                    0 <= i < p.len() && last_holding(hs, p[i].symbol@) is Some && rest[k]
                        == reconciled_view(p[i], hs);
                assert(s[i] == p[i]);
            } else {
                assert(s[s.len() - 1] == e);
            }
        }
        assert forall|i: int|
            0 <= i < s.len() && last_holding(hs, s[i].symbol@) is Some implies cur.contains(
            reconciled_view(#[trigger] s[i], hs)) by {
            if i < p.len() {
                assert(s[i] == p[i]);
                assert(rest.contains(reconciled_view(p[i], hs)));
                let k = choose|k: int| 0 <= k < rest.len() && rest[k] == reconciled_view(p[i], hs);
                assert(cur[k] == rest[k]);
            } else {
                assert(cur[cur.len() - 1] == reconciled_view(e, hs));
            }
        }
    }
}

proof fn lemma_synced_new_members<A>(s: Seq<PositionEntry<A>>, hs: Seq<SyncedHolding<A>>, n: int)
    requires
        0 <= n <= hs.len(),
    ensures
        forall|k: int|
            0 <= k < synced_new(s, hs, n).len() ==> exists|j: int|
                0 <= j < n && adds_position(s, hs, j) && #[trigger] synced_new(s, hs, n)[k] == added_view(
                    hs[j],
                ),
        forall|j: int|
            0 <= j < n && adds_position(s, hs, j) ==> synced_new(s, hs, n).contains(
                added_view(#[trigger] hs[j]),
            ),
    decreases n,
{
    if n > 0 {
        lemma_synced_new_members(s, hs, n - 1);
        let rest = synced_new(s, hs, n - 1);
        let cur = synced_new(s, hs, n);
        if adds_position(s, hs, n - 1) {
            assert(cur == rest.push(added_view(hs[n - 1])));
        } else {
            assert(cur == rest);
        }
        assert forall|k: int| 0 <= k < cur.len() implies exists|j: int|
            0 <= j < n && adds_position(s, hs, j) && #[trigger] cur[k] == added_view(hs[j]) by {
            if k < rest.len() {
                assert(cur[k] == rest[k]);
                assert(synced_new(s, hs, n - 1)[k] == rest[k]);
                let j = choose|j: int|
                    0 <= j < n - 1 && adds_position(s, hs, j) && rest[k] == added_view(hs[j]);
            } else {
                assert(adds_position(s, hs, n - 1));
            }
        }
        assert forall|j: int| 0 <= j < n && adds_position(s, hs, j) implies cur.contains(
            added_view(#[trigger] hs[j]),
        ) by {
            if j < n - 1 {
                assert(rest.contains(added_view(hs[j])));
                let k = choose|k: int| 0 <= k < rest.len() && rest[k] == added_view(hs[j]);
                assert(cur[k] == rest[k]);
            } else {
                assert(cur[cur.len() - 1] == added_view(hs[j]));
            }
        }
    }
}

/// Reconciliation, symbol by symbol: the reconciled book holds, for each symbol,
/// exactly the position that [`reconciled`] gives; the broker's view of which
/// symbols are held wins, and a tracked position keeps its trade type and
/// strategy.
pub proof fn lemma_sync_per_symbol<A>(s: Seq<PositionEntry<A>>, hs: Seq<SyncedHolding<A>>, x: Seq<char>)
    requires
        unique_symbols(s),
    ensures
        ({
            let v = synced_existing(s, hs) + synced_new(s, hs, hs.len() as int);
            &&& reconciled(s, hs, x) is Some ==> v.contains(reconciled(s, hs, x)->0)
            &&& forall|k: int| 0 <= k < v.len() && (#[trigger] v[k]).symbol == x ==> reconciled(s, hs, x) == Some(v[k])
        }),
{
    let a = synced_existing(s, hs);
    let b = synced_new(s, hs, hs.len() as int);
    let v = a + b;
    lemma_synced_existing_members(s, hs);
    lemma_synced_new_members(s, hs, hs.len() as int);
    lemma_last_holding_found(hs, x);
    if reconciled(s, hs, x) is Some {
        let h = last_holding(hs, x)->0;
        if lookup(s, x) is Some {
            let i = index_of(s, x)->0;
            assert(s[i].symbol@ == x);
            assert(a.contains(reconciled_view(s[i], hs)));
            let k = choose|k: int| 0 <= k < a.len() && a[k] == reconciled_view(s[i], hs);
            assert(v[k] == a[k]);
        } else {
            let j = choose|j: int|
                0 <= j < hs.len() && hs[j].symbol@ == x && is_last_report(hs, j) && last_holding(hs, x)
                    == Some(#[trigger] hs[j]);
            assert(adds_position(s, hs, j));
            assert(b.contains(added_view(hs[j])));
            let k = choose|k: int| 0 <= k < b.len() && b[k] == added_view(hs[j]);
            assert(v[a.len() + k] == b[k]);
        }
    }
    assert forall|k: int| 0 <= k < v.len() && (#[trigger] v[k]).symbol == x implies reconciled(s, hs, x)
        == Some(v[k]) by {
        if k < a.len() {
            assert(v[k] == a[k]);
            let i = choose|i: int|
                0 <= i < s.len() && last_holding(hs, s[i].symbol@) is Some && a[k] == reconciled_view(s[i], hs);
            lemma_lookup_at(s, i);
        } else {
            assert(v[k] == b[k - a.len()]);
            let j = choose|j: int|
                0 <= j < hs.len() && adds_position(s, hs, j) && b[k - a.len()] == added_view(hs[j]);
            lemma_last_report_is_last_holding(hs, j);
        }
    }
}

/// Reconciliation drops or updates the tracked position at index `i`.
pub open spec fn drops_or_updates<A>(s: Seq<PositionEntry<A>>, hs: Seq<SyncedHolding<A>>, i: int) -> bool {
    match last_holding(hs, s[i].symbol@) {
        None => true,
        Some(h) => h.has_quantity && h.differs_from_local,
    }
}

proof fn lemma_existing_changes_members<A>(s: Seq<PositionEntry<A>>, hs: Seq<SyncedHolding<A>>)
    ensures
        forall|k: int|
            0 <= k < existing_changes(s, hs).len() ==> exists|i: int|
                0 <= i < s.len() && drops_or_updates(s, hs, i) && #[trigger] existing_changes(s, hs)[k]
                    == s[i].symbol@,
        forall|i: int|
            0 <= i < s.len() && drops_or_updates(s, hs, i) ==> existing_changes(s, hs).contains(
                (#[trigger] s[i]).symbol@,
            ),
    decreases s.len(),
{
    if s.len() > 0 {
        let p = s.drop_last();
        lemma_existing_changes_members(p, hs);
        let rest = existing_changes(p, hs);
        let cur = existing_changes(s, hs);
        let e = s.last();
        assert forall|i: int| 0 <= i < p.len() implies drops_or_updates(p, hs, i) == drops_or_updates(
            s,
            hs,
            i,
        ) by {
            assert(p[i] == s[i]);
        }
        if drops_or_updates(s, hs, s.len() - 1) {
            assert(cur == rest.push(e.symbol@));
        } else {
            assert(cur == rest);
        }
        assert forall|k: int| 0 <= k < cur.len() implies exists|i: int|
            0 <= i < s.len() && drops_or_updates(s, hs, i) && #[trigger] cur[k] == s[i].symbol@ by {
            if k < rest.len() {
                assert(cur[k] == rest[k]);
                assert(existing_changes(p, hs)[k] == rest[k]);
                let i = choose|i: int|
                    0 <= i < p.len() && drops_or_updates(p, hs, i) && rest[k] == p[i].symbol@;
                assert(s[i] == p[i]);
            } else {
                assert(s[s.len() - 1] == e);
            }
        }
        assert forall|i: int| 0 <= i < s.len() && drops_or_updates(s, hs, i) implies cur.contains(
            (#[trigger] s[i]).symbol@,
        ) by {
            if i < p.len() {
                assert(s[i] == p[i]);
                assert(rest.contains(p[i].symbol@));
                let k = choose|k: int| 0 <= k < rest.len() && rest[k] == p[i].symbol@;
                assert(cur[k] == rest[k]);
            } else {
                assert(cur[cur.len() - 1] == e.symbol@);
            }
        }
    }
}

/// Some report among the first `n` adds a position for the symbol `x`.
pub open spec fn added_by_report<A>(s: Seq<PositionEntry<A>>, hs: Seq<SyncedHolding<A>>, n: int, x: Seq<char>) -> bool {
    exists|j: int| 0 <= j < n && adds_position(s, hs, j) && #[trigger] hs[j].symbol@ == x
}

proof fn lemma_new_changes_members<A>(s: Seq<PositionEntry<A>>, hs: Seq<SyncedHolding<A>>, n: int)
    requires
        0 <= n <= hs.len(),
    ensures
        forall|k: int|
            0 <= k < new_changes(s, hs, n).len() ==> added_by_report(s, hs, n, #[trigger] new_changes(s, hs, n)[k]),
        forall|j: int|
            0 <= j < n && adds_position(s, hs, j) ==> new_changes(s, hs, n).contains(
                (#[trigger] hs[j]).symbol@,
            ),
    decreases n,
{
    if n > 0 {
        lemma_new_changes_members(s, hs, n - 1);
        let rest = new_changes(s, hs, n - 1);
        let cur = new_changes(s, hs, n);
        if adds_position(s, hs, n - 1) {
            assert(cur == rest.push(hs[n - 1].symbol@));
        } else {
            assert(cur == rest);
        }
        assert forall|k: int| 0 <= k < cur.len() implies added_by_report(s, hs, n, #[trigger] cur[k]) by {
            if k < rest.len() {
                assert(cur[k] == rest[k]);
                assert(added_by_report(s, hs, n - 1, new_changes(s, hs, n - 1)[k]));
                let j = choose|j: int|
                    0 <= j < n - 1 && adds_position(s, hs, j) && #[trigger] hs[j].symbol@ == rest[k];
                assert(hs[j].symbol@ == cur[k]);
            } else {
                assert(adds_position(s, hs, n - 1));
                assert(hs[n - 1].symbol@ == cur[k]);
            }
        }
        assert forall|j: int| 0 <= j < n && adds_position(s, hs, j) implies cur.contains(
            (#[trigger] hs[j]).symbol@,
        ) by {
            if j < n - 1 {
                assert(rest.contains(hs[j].symbol@));
                let k = choose|k: int| 0 <= k < rest.len() && rest[k] == hs[j].symbol@;
                assert(cur[k] == rest[k]);
            } else {
                assert(cur[cur.len() - 1] == hs[j].symbol@);
            }
        }
    }
}

/// Reconciliation reports a symbol as changed exactly when [`reconciliation_changes`]
/// holds of it: the broker no longer reports a tracked position, or reports it with a
/// quantity that differs, or reports with a quantity a position the book lacks.
pub proof fn lemma_sync_changes_per_symbol<A>(s: Seq<PositionEntry<A>>, hs: Seq<SyncedHolding<A>>, x: Seq<char>)
    requires
        unique_symbols(s),
    ensures
        (existing_changes(s, hs) + new_changes(s, hs, hs.len() as int)).contains(x)
            <==> reconciliation_changes(s, hs, x),
{
    let a = existing_changes(s, hs);
    let b = new_changes(s, hs, hs.len() as int);
    let v = a + b;
    lemma_existing_changes_members(s, hs);
    lemma_new_changes_members(s, hs, hs.len() as int);
    lemma_last_holding_found(hs, x);
    if reconciliation_changes(s, hs, x) {
        if lookup(s, x) is Some {
            let i = index_of(s, x)->0;
            assert(s[i].symbol@ == x);
            assert(drops_or_updates(s, hs, i));
            assert(a.contains(s[i].symbol@));
            let k = choose|k: int| 0 <= k < a.len() && a[k] == s[i].symbol@;
            assert(v[k] == a[k]);
        } else {
            let j = choose|j: int|
                0 <= j < hs.len() && hs[j].symbol@ == x && is_last_report(hs, j) && last_holding(hs, x)
                    == Some(#[trigger] hs[j]);
            assert(adds_position(s, hs, j));
            assert(b.contains(hs[j].symbol@));
            let k = choose|k: int| 0 <= k < b.len() && b[k] == hs[j].symbol@;
            assert(v[a.len() + k] == b[k]);
        }
    }
    if v.contains(x) {
        let k = choose|k: int| 0 <= k < v.len() && v[k] == x;
        if k < a.len() {
            assert(v[k] == a[k]);
            let i = choose|i: int| 0 <= i < s.len() && drops_or_updates(s, hs, i) && a[k] == s[i].symbol@;
            lemma_lookup_at(s, i);
        } else {
            assert(v[k] == b[k - a.len()]);
            assert(added_by_report(s, hs, hs.len() as int, b[k - a.len()]));
            let j = choose|j: int|
                0 <= j < hs.len() && adds_position(s, hs, j) && #[trigger] hs[j].symbol@ == b[k - a.len()];
            lemma_last_report_is_last_holding(hs, j);
        }
    }
}

proof fn lemma_existing_changes_distinct<A>(s: Seq<PositionEntry<A>>, hs: Seq<SyncedHolding<A>>)
    requires
        unique_symbols(s),
    ensures
        existing_changes(s, hs).no_duplicates(),
    decreases s.len(),
{
    if s.len() > 0 {
        let p = s.drop_last();
        assert(unique_symbols(p)) by {
            assert forall|i: int, j: int| 0 <= i < p.len() && 0 <= j < p.len() && i != j implies p[i].symbol@
                != p[j].symbol@ by {
                assert(p[i] == s[i] && p[j] == s[j]);
            }
        }
        lemma_existing_changes_distinct(p, hs);
        lemma_existing_changes_members(p, hs);
        let rest = existing_changes(p, hs);
        let e = s.last();
        if drops_or_updates(s, hs, s.len() - 1) {
            assert(existing_changes(s, hs) == rest.push(e.symbol@));
            assert forall|k: int| 0 <= k < rest.len() implies rest[k] != e.symbol@ by {
                assert(existing_changes(p, hs)[k] == rest[k]);
                let i = choose|i: int|
                    0 <= i < p.len() && drops_or_updates(p, hs, i) && existing_changes(p, hs)[k] == p[i].symbol@;
                assert(p[i] == s[i]);
                assert(s[s.len() - 1] == e);
            }
        } else {
            assert(existing_changes(s, hs) == rest);
        }
    }
}

proof fn lemma_new_changes_distinct<A>(s: Seq<PositionEntry<A>>, hs: Seq<SyncedHolding<A>>, n: int)
    requires
        0 <= n <= hs.len(),
    ensures
        new_changes(s, hs, n).no_duplicates(),
    decreases n,
{
    if n > 0 {
        lemma_new_changes_distinct(s, hs, n - 1);
        lemma_new_changes_members(s, hs, n - 1);
        let rest = new_changes(s, hs, n - 1);
        if adds_position(s, hs, n - 1) {
            assert(new_changes(s, hs, n) == rest.push(hs[n - 1].symbol@));
            assert forall|k: int| 0 <= k < rest.len() implies rest[k] != hs[n - 1].symbol@ by {
                assert(added_by_report(s, hs, n - 1, new_changes(s, hs, n - 1)[k]));
                let j = choose|j: int|
                    0 <= j < n - 1 && adds_position(s, hs, j) && #[trigger] hs[j].symbol@ == rest[k];
                assert(is_last_report(hs, j));
            }
        } else {
            assert(new_changes(s, hs, n) == rest);
        }
    }
}

/// Reconciliation names each changed symbol once: the list that
/// `sync_with_alpaca` returns has no repeated symbol.
pub proof fn lemma_sync_changes_distinct<A>(s: Seq<PositionEntry<A>>, hs: Seq<SyncedHolding<A>>)
    requires
        unique_symbols(s),
    ensures
        (existing_changes(s, hs) + new_changes(s, hs, hs.len() as int)).no_duplicates(),
{
    let a = existing_changes(s, hs);
    let b = new_changes(s, hs, hs.len() as int);
    let v = a + b;
    lemma_existing_changes_distinct(s, hs);
    lemma_new_changes_distinct(s, hs, hs.len() as int);
    lemma_existing_changes_members(s, hs);
    lemma_new_changes_members(s, hs, hs.len() as int);
    assert forall|p: int, q: int| 0 <= p < v.len() && 0 <= q < v.len() && p != q implies v[p] != v[q] by {
        if p < a.len() && q < a.len() {
            assert(v[p] == a[p] && v[q] == a[q]);
        } else if p >= a.len() && q >= a.len() {
            assert(v[p] == b[p - a.len()] && v[q] == b[q - a.len()]);
        } else {
            let (k, m) = if p < a.len() { (p, q - a.len()) } else { (q, p - a.len()) };
            assert(v[p] == a[k] || v[p] == b[m]);
            assert(existing_changes(s, hs)[k] == a[k]);
            let i = choose|i: int| 0 <= i < s.len() && drops_or_updates(s, hs, i) && existing_changes(s, hs)[k] == s[i].symbol@;
            assert(added_by_report(s, hs, hs.len() as int, new_changes(s, hs, hs.len() as int)[m]));
            let j = choose|j: int|
                0 <= j < hs.len() && adds_position(s, hs, j) && #[trigger] hs[j].symbol@ == b[m];
            assert(index_of(s, hs[j].symbol@) is None);
            assert(a[k] != b[m]);
            if p < a.len() {
                assert(v[p] == a[k] && v[q] == b[m]);
            } else {
                assert(v[q] == a[k] && v[p] == b[m]);
            }
        }
    }
}

/// Two lists of reports name the same symbols in the same order, each with or
/// without a quantity alike; their side, amounts and difference from the book may
/// differ.
pub open spec fn same_reports<A>(hs: Seq<SyncedHolding<A>>, hs2: Seq<SyncedHolding<A>>) -> bool {
    &&& hs2.len() == hs.len()
    &&& forall|j: int|
        0 <= j < hs.len() ==> (#[trigger] hs2[j]).symbol@ == hs[j].symbol@ && hs2[j].has_quantity
            == hs[j].has_quantity
}

proof fn lemma_last_holding_same_reports<A>(hs: Seq<SyncedHolding<A>>, hs2: Seq<SyncedHolding<A>>, x: Seq<char>)
    requires
        same_reports(hs, hs2),
    ensures
        last_holding(hs, x) is Some <==> last_holding(hs2, x) is Some,
    decreases hs.len(),
{
    if hs.len() > 0 {
        let p = hs.drop_last();
        let p2 = hs2.drop_last();
        assert(hs2[hs.len() - 1].symbol@ == hs[hs.len() - 1].symbol@);
        assert(same_reports(p, p2)) by {
            assert forall|j: int| 0 <= j < p.len() implies (#[trigger] p2[j]).symbol@ == p[j].symbol@
                && p2[j].has_quantity == p[j].has_quantity by {
                assert(p2[j] == hs2[j] && p[j] == hs[j]);
            }
        }
        lemma_last_holding_same_reports(p, p2, x);
    }
}

proof fn lemma_synced_existing_stable<A>(s: Seq<PositionEntry<A>>, hs: Seq<SyncedHolding<A>>)
    requires
        forall|i: int|
            0 <= i < s.len() ==> last_holding(hs, (#[trigger] s[i]).symbol@) is Some && !last_holding(
                hs,
                s[i].symbol@,
            )->0.differs_from_local,
    ensures
        synced_existing(s, hs) == views(s),
        existing_changes(s, hs) == Seq::<Seq<char>>::empty(),
    decreases s.len(),
{
    if s.len() > 0 {
        let p = s.drop_last();
        assert forall|i: int| 0 <= i < p.len() implies last_holding(hs, (#[trigger] p[i]).symbol@) is Some
            && !last_holding(hs, p[i].symbol@)->0.differs_from_local by {
            assert(p[i] == s[i]);
        }
        lemma_synced_existing_stable(p, hs);
        assert(s[s.len() - 1] == s.last());
        assert(views(s) =~= views(p).push(entry_view(s.last())));
    }
}

proof fn lemma_no_adds_stable<A>(s: Seq<PositionEntry<A>>, hs: Seq<SyncedHolding<A>>, n: int)
    requires
        0 <= n <= hs.len(),
        forall|j: int| 0 <= j < n ==> !adds_position(s, hs, j),
    ensures
        synced_new(s, hs, n) == Seq::<PositionView<A>>::empty(),
        new_changes(s, hs, n) == Seq::<Seq<char>>::empty(),
    decreases n,
{
    if n > 0 {
        lemma_no_adds_stable(s, hs, n - 1);
    }
}

/// Reconciling twice with the same reports changes nothing the second time: once
/// the book has been reconciled with `hs`, a second reconciliation with reports
/// `hs2` that name the same symbols with and without quantity alike, and that find
/// every tracked position matching its report, keeps every position as it is and
/// reports no change.
pub proof fn lemma_sync_idempotent<A>(
    s: Seq<PositionEntry<A>>,
    hs: Seq<SyncedHolding<A>>,
    s1: Seq<PositionEntry<A>>,
    hs2: Seq<SyncedHolding<A>>,
)
    requires
        unique_symbols(s),
        views(s1) == synced_existing(s, hs) + synced_new(s, hs, hs.len() as int),
        same_reports(hs, hs2),
        forall|j: int|
            0 <= j < hs2.len() && index_of(s1, (#[trigger] hs2[j]).symbol@) is Some
                ==> !hs2[j].differs_from_local,
    ensures
        synced_existing(s1, hs2) + synced_new(s1, hs2, hs2.len() as int) == views(s1),
        existing_changes(s1, hs2) + new_changes(s1, hs2, hs2.len() as int) == Seq::<Seq<char>>::empty(),
{
    let v = synced_existing(s, hs) + synced_new(s, hs, hs.len() as int);
    // Every tracked position is reported, and its report matches it.
    assert forall|i: int| 0 <= i < s1.len() implies last_holding(hs2, (#[trigger] s1[i]).symbol@) is Some
        && !last_holding(hs2, s1[i].symbol@)->0.differs_from_local by {
        let x = s1[i].symbol@;
        assert(views(s1)[i] == entry_view(s1[i]));
        assert(v[i].symbol == x);
        lemma_sync_per_symbol(s, hs, x);
        assert(reconciled(s, hs, x) == Some(v[i]));
        lemma_last_holding_same_reports(hs, hs2, x);
        lemma_last_holding_found(hs2, x);
        let j = choose|j: int|
            0 <= j < hs2.len() && hs2[j].symbol@ == x && is_last_report(hs2, j) && last_holding(hs2, x)
                == Some(#[trigger] hs2[j]);
        assert(index_of(s1, hs2[j].symbol@) is Some);
    }
    lemma_synced_existing_stable(s1, hs2);
    // No report adds a position: every reported symbol with a quantity is tracked.
    assert forall|j: int| 0 <= j < hs2.len() implies !adds_position(s1, hs2, j) by {
        if adds_position(s1, hs2, j) {
            let x = hs[j].symbol@;
            assert(hs2[j].symbol@ == x && hs2[j].has_quantity == hs[j].has_quantity);
            assert(is_last_report(hs, j)) by {
                assert forall|k: int| j < k < hs.len() implies hs[k].symbol@ != hs[j].symbol@ by {
                    assert(hs2[k].symbol@ == hs[k].symbol@);
                }
            }
            lemma_last_report_is_last_holding(hs, j);
            lemma_sync_per_symbol(s, hs, x);
            assert(reconciled(s, hs, x) is Some);
            let w = reconciled(s, hs, x)->0;
            if lookup(s, x) is Some {
                let i = index_of(s, x)->0;
                assert(s[i].symbol@ == x);
            }
            assert(w.symbol == x);
            let k = choose|k: int| 0 <= k < v.len() && v[k] == w;
            assert(views(s1)[k] == entry_view(s1[k]));
            assert(s1[k].symbol@ == x);
            assert(index_of(s1, x) is Some);
        }
    }
    lemma_no_adds_stable(s1, hs2, hs2.len() as int);
    assert(views(s1) + Seq::<PositionView<A>>::empty() =~= views(s1));
    assert(Seq::<Seq<char>>::empty() + Seq::<Seq<char>>::empty() =~= Seq::<Seq<char>>::empty());
}

impl<A: Copy> PositionTracker<A> {
    /// Reconciles the book with the positions the broker reports. A position the
    /// broker no longer reports is removed; a reported position with a quantity
    /// that differs from the tracked one takes the reported side and amounts
    /// (keeping its trade type and strategy); a reported position with a quantity
    /// that the book lacks is added as a day-trading position without strategy; a
    /// report without quantity changes nothing. When a symbol is reported twice,
    /// its last report counts. Returns the symbols removed, updated or added: the
    /// tracked ones in book order, then the added ones in report order.
    pub fn sync_with_alpaca(&mut self, holdings: &Vec<SyncedHolding<A>>) -> (changed: Vec<String>)
        ensures
            views(final(self)@) == synced_existing(old(self)@, holdings@)
                + synced_new(old(self)@, holdings@, holdings@.len() as int),
            crate::symbols::texts(changed@) == existing_changes(old(self)@, holdings@)
                + new_changes(old(self)@, holdings@, holdings@.len() as int),
            unique_symbols(old(self)@),
            unique_symbols(final(self)@),
    {
        proof {
            use_type_invariant(&*self);
        }
        let ghost s = self.entries@;
        let mut next: Vec<PositionEntry<A>> = Vec::new();
        let mut changed: Vec<String> = Vec::new();
        let mut i: usize = 0;
        while i < self.entries.len()
            invariant
                i <= self.entries.len(),
                s == self.entries@,
                views(next@) == synced_existing(s.take(i as int), holdings@),
                crate::symbols::texts(changed@) == existing_changes(s.take(i as int), holdings@),
            decreases self.entries.len() - i,
        {
            proof {
                assert(s.take(i + 1).drop_last() =~= s.take(i as int));
                assert(s.take(i + 1).last() == s[i as int]);
            }
            let e = &self.entries[i];
            let ghost before_next = next@;
            let ghost before_changed = changed@;
            match last_report_index(holdings, e.symbol.as_str()) {
                None => {
                    changed.push(e.symbol.clone());
                    proof {
                        assert(changed@ =~= before_changed.push(e.symbol));
                        assert(crate::symbols::texts(changed@) =~= crate::symbols::texts(
                            before_changed,
                        ).push(e.symbol@));
                    }
                },
                Some(j) => {
                    let h = &holdings[j];
                    if h.has_quantity && h.differs_from_local {
                        let u = PositionEntry {
                            symbol: e.symbol.clone(),
                            side: h.side,
                            trade_type: e.trade_type,
                            strategy_name: e.strategy_name.clone(),
                            amounts: h.amounts,
                        };
                        next.push(u);
                        changed.push(e.symbol.clone());
                        proof {
                            assert(next@ =~= before_next.push(u));
                            assert(views(next@) =~= views(before_next).push(entry_view(u)));
                            assert(changed@ =~= before_changed.push(e.symbol));
                            assert(crate::symbols::texts(changed@) =~= crate::symbols::texts(
                                before_changed,
                            ).push(e.symbol@));
                        }
                    } else {
                        let u = e.duplicate();
                        next.push(u);
                        proof {
                            assert(next@ =~= before_next.push(u));
                            assert(views(next@) =~= views(before_next).push(entry_view(u)));
                        }
                    }
                },
            }
            i = i + 1;
        }
        proof {
            assert(s.take(s.len() as int) =~= s);
        }
        let ghost mid_next = next@;
        let ghost mid_changed = changed@;
        let mut j: usize = 0;
        while j < holdings.len()
            invariant
                j <= holdings@.len(),
                s == self.entries@,
                unique_symbols(s),
                views(next@) == views(mid_next) + synced_new(s, holdings@, j as int),
                crate::symbols::texts(changed@) == crate::symbols::texts(mid_changed) + new_changes(
                    s,
                    holdings@,
                    j as int,
                ),
            decreases holdings.len() - j,
        {
            let h = &holdings[j];
            let ghost before_next = next@;
            let ghost before_changed = changed@;
            let adds = h.has_quantity && is_last_report_at(holdings, j) && self.find(
                h.symbol.as_str(),
            ).is_none();
            if adds {
                let u = PositionEntry {
                    symbol: h.symbol.clone(),
                    side: h.side,
                    trade_type: TradeType::Day,
                    strategy_name: String::new(),
                    amounts: h.amounts,
                };
                next.push(u);
                changed.push(h.symbol.clone());
                proof {
                    assert(next@ =~= before_next.push(u));
                    assert(views(next@) =~= views(before_next).push(entry_view(u)));
                    assert(changed@ =~= before_changed.push(h.symbol));
                    assert(crate::symbols::texts(changed@) =~= crate::symbols::texts(
                        before_changed,
                    ).push(h.symbol@));
                    assert(entry_view(u) == PositionView {
                        symbol: h.symbol@,
                        side: h.side,
                        trade_type: TradeType::Day,
                        strategy_name: Seq::<char>::empty(),
                        amounts: h.amounts,
                    });
                }
            }
            proof {
                assert(adds == adds_position(s, holdings@, j as int));
            }
            j = j + 1;
        }
        proof {
            lemma_synced_unique(s, holdings@);
            assert forall|a: int, b: int|
                0 <= a < next@.len() && 0 <= b < next@.len() && a != b implies next@[a].symbol@
                != next@[b].symbol@ by {
                assert(views(next@)[a].symbol == next@[a].symbol@);
                assert(views(next@)[b].symbol == next@[b].symbol@);
            }
        }
        self.entries = next;
        changed
    }
}

} // verus!
