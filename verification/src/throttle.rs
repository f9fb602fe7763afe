//! Per-symbol order throttle: when the last order for each symbol was placed.

use vstd::prelude::*;

use std::time::{Duration, Instant};

use crate::symbols::texts;
use crate::text::str_equal;

verus! {

#[verifier::external_type_specification]
#[verifier::external_body]
pub struct ExInstant(std::time::Instant);

/// Calls `Instant::now`. Nothing is stated of the result: it is the clock.
#[verifier::external_body]
fn instant_now() -> Instant {
    Instant::now()
}

/// Calls `Instant::elapsed`. Nothing is stated of the result: it depends on the
/// clock.
#[verifier::external_body]
fn elapsed_since(start: &Instant) -> Duration {
    start.elapsed()
}

/// Calls `Duration::as_secs`: the whole seconds of the duration. The duration is
/// opaque here, so nothing is stated of the result.
#[verifier::external_body]
fn whole_seconds(d: &Duration) -> u64 {
    d.as_secs()
}

/// An order placed `elapsed` whole seconds ago still blocks a new order when
/// fewer than `throttle_secs` seconds have passed.
pub open spec fn within_window(elapsed: u64, throttle_secs: u64) -> bool {
    elapsed < throttle_secs
}

/// Whether an order placed `elapsed` whole seconds ago still blocks a new order.
pub fn within_throttle_window(elapsed: u64, throttle_secs: u64) -> (r: bool)
    ensures
        r == within_window(elapsed, throttle_secs),
{
    elapsed < throttle_secs
}

/// For each symbol with an order, when the last order was placed.
pub struct OrderThrottle {
    last_order: Vec<(String, Instant)>,
}

/// No symbol occurs twice.
pub open spec fn distinct_symbols(s: Seq<Seq<char>>) -> bool {
    forall|i: int, j: int| 0 <= i < j < s.len() ==> s[i] != s[j]
}

impl OrderThrottle {
    /// Each symbol with a recorded order and the time of its last order, in the
    /// order of their first record.
    pub closed spec fn entries(&self) -> Seq<(Seq<char>, Instant)> {
        self.last_order@.map_values(|e: (String, Instant)| (e.0@, e.1))
    }

    /// The symbols with a recorded order, in the order of their first record.
    pub open spec fn symbols(&self) -> Seq<Seq<char>> {
        self.entries().map_values(|e: (Seq<char>, Instant)| e.0)
    }

    #[verifier::type_invariant]
    spec fn well_formed(self) -> bool {
        distinct_symbols(self.symbols())
    }

    pub fn new() -> (r: OrderThrottle)
        ensures
            r.symbols().len() == 0,
    {
        OrderThrottle { last_order: Vec::new() }
    }

    fn position_of(&self, symbol: &str) -> (r: Option<usize>)
        ensures
            r is None ==> !self.symbols().contains(symbol@),
            r matches Some(i) ==> i < self.symbols().len() && self.symbols()[i as int] == symbol@,
    {
        let mut i: usize = 0;
        while i < self.last_order.len()
            invariant
                i <= self.last_order.len(),
                forall|j: int| 0 <= j < i ==> self.symbols()[j] != symbol@,
            decreases self.last_order.len() - i,
        {
            if str_equal(self.last_order[i].0.as_str(), symbol) {
                return Some(i);
            }
            i = i + 1;
        }
        proof {
            if self.symbols().contains(symbol@) {
                let j = choose|j: int| 0 <= j < self.symbols().len() && self.symbols()[j] == symbol@;
                assert(self.symbols()[j] != symbol@);
            }
        }
        None
    }

    /// Records that an order for `symbol` was placed now: the symbol's entry takes
    /// the current time (a new entry at the end when it had none), and every other
    /// symbol keeps its entry and its time.
    pub fn record_order(&mut self, symbol: &str)
        ensures
            old(self).symbols().contains(symbol@) ==> final(self).symbols() == old(self).symbols(),
            !old(self).symbols().contains(symbol@) ==> final(self).symbols() == old(
                self,
            ).symbols().push(symbol@),
            forall|j: int|
                0 <= j < old(self).entries().len() && old(self).entries()[j].0 != symbol@
                    ==> final(self).entries()[j] == old(self).entries()[j],
    {
        proof {
            use_type_invariant(&*self);
        }
        let now = instant_now();
        match self.position_of(symbol) {
            Some(i) => {
                let entry = (self.last_order[i].0.clone(), now);
                let ghost before = self.last_order@;
                let mut entries: Vec<(String, Instant)> = Vec::new();
                std::mem::swap(&mut entries, &mut self.last_order);
                entries.set(i, entry);
                proof {
                    assert(entries@.map_values(|e: (String, Instant)| (e.0@, e.1)).map_values(
                        |e: (Seq<char>, Instant)| e.0,
                    ) =~= before.map_values(|e: (String, Instant)| (e.0@, e.1)).map_values(
                        |e: (Seq<char>, Instant)| e.0,
                    ));
                }
                self.last_order = entries;
            },
            None => {
                let ghost before = self.last_order@;
                let mut entries: Vec<(String, Instant)> = Vec::new();
                std::mem::swap(&mut entries, &mut self.last_order);
                entries.push((String::from_str(symbol), now));
                proof {
                    assert(entries@.map_values(|e: (String, Instant)| (e.0@, e.1)).map_values(
                        |e: (Seq<char>, Instant)| e.0,
                    ) =~= before.map_values(|e: (String, Instant)| (e.0@, e.1)).map_values(
                        |e: (Seq<char>, Instant)| e.0,
                    ).push(symbol@));
                }
                self.last_order = entries;
            },
        }
    }

    /// Whole seconds since the last order for `symbol`; `None` when no order for it
    /// was recorded. How many seconds is not stated: it is the clock.
    pub fn seconds_since_last_order(&self, symbol: &str) -> (r: Option<u64>)
        ensures
            r is Some <==> self.symbols().contains(symbol@),
    {
        match self.position_of(symbol) {
            Some(i) => {
                let elapsed = elapsed_since(&self.last_order[i].1);
                Some(whole_seconds(&elapsed))
            },
            None => None,
        }
    }

    /// Whether an order for `symbol` was placed within the last `throttle_secs`
    /// seconds. A symbol without a recorded order is never throttled; for one
    /// with a record the answer follows [`within_window`] on the seconds that the
    /// clock reports.
    pub fn is_throttled(&self, symbol: &str, throttle_secs: u64) -> (r: bool)
        ensures
            !self.symbols().contains(symbol@) ==> !r,
            throttle_secs == 0 ==> !r,
    {
        match self.seconds_since_last_order(symbol) {
            Some(elapsed) => within_throttle_window(elapsed, throttle_secs),
            None => false,
        }
    }
}

} // verus!
