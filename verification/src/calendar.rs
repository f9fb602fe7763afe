//! Trading calendar and the timing decisions of the background jobs.
//!
//! Dates and times of day are given in US Eastern time. The service reads the
//! clock and converts it; the functions here decide whether the market is open,
//! whether day positions must be flattened, and what each periodic job does on a
//! tick.

use vstd::prelude::*;

use chrono::Datelike;

verus! {

/// A leap year of the proleptic Gregorian calendar.
pub open spec fn leap_year(year: int) -> bool {
    year % 4 == 0 && (year % 100 != 0 || year % 400 == 0)
}

/// The number of days in a month of a year.
pub open spec fn days_in_month(year: int, month: int) -> int {
    if month == 2 {
        if leap_year(year) {
            29
        } else {
            28
        }
    } else if month == 4 || month == 6 || month == 9 || month == 11 {
        30
    } else {
        31
    }
}

/// The date exists in chrono's proleptic Gregorian calendar, whose years run
/// from -262143 to 262142.
pub open spec fn date_exists(year: int, month: int, day: int) -> bool {
    -262143 <= year <= 262142 && 1 <= month <= 12 && 1 <= day <= days_in_month(year, month)
}

/// The number of days from 0000-03-01 to the date (negative before it), counting
/// years from March so that the leap day ends a year.
pub open spec fn days_from_civil(year: int, month: int, day: int) -> int {
    let y = if month <= 2 {
        year - 1
    } else {
        year
    };
    let m = if month <= 2 {
        month + 9
    } else {
        month - 3
    };
    365 * y + y / 4 - y / 100 + y / 400 + (153 * m + 2) / 5 + day - 1
}

/// What chrono's `NaiveDate::from_ymd_opt(year, month, day)` gives for the
/// weekday of the date, counted from Monday (0) to Sunday (6): `None` when the
/// date does not exist (a year out of chrono's range, a month outside 1 to 12, a
/// day outside the month). 0000-03-01 was a Wednesday.
pub open spec fn chrono_weekday(year: i32, month: u32, day: u32) -> Option<u32> {
    if date_exists(year as int, month as int, day as int) {
        Some(((days_from_civil(year as int, month as int, day as int) + 2) % 7) as u32)
    } else {
        None
    }
}

/// Calls `chrono::NaiveDate::from_ymd_opt` and, for an existing date,
/// `Weekday::num_days_from_monday` of its weekday. chrono documents `None` for an
/// out-of-range year, an invalid month or an invalid day, and dates in the
/// proleptic Gregorian calendar; [`chrono_weekday`] states both.
#[verifier::external_body]
fn weekday_of(year: i32, month: u32, day: u32) -> (r: Option<u32>)
    ensures
        r == chrono_weekday(year, month, day),
{
    match chrono::NaiveDate::from_ymd_opt(year, month, day) {
        Some(date) => Some(date.weekday().num_days_from_monday()),
        None => None,
    }
}

/// A calendar date that exists, with its weekday.
#[derive(Debug, Clone, Copy)]
pub struct TradingDate {
    year: i32,
    month: u32,
    day: u32,
    weekday: u32,
}

impl TradingDate {
    #[verifier::type_invariant]
    spec fn exists_in_calendar(self) -> bool {
        &&& chrono_weekday(self.year, self.month, self.day) == Some(self.weekday)
        &&& self.weekday < 7
    }

    pub closed spec fn year_of(self) -> i32 {
        self.year
    }

    pub closed spec fn month_of(self) -> u32 {
        self.month
    }

    pub closed spec fn day_of(self) -> u32 {
        self.day
    }

    /// The weekday, Monday = 0 to Sunday = 6.
    pub closed spec fn weekday_of(self) -> u32 {
        self.weekday
    }

    /// The date `year-month-day`, or `None` when no such date exists.
    pub fn new(year: i32, month: u32, day: u32) -> (r: Option<TradingDate>)
        ensures
            r is Some <==> chrono_weekday(year, month, day) is Some,
            r matches Some(d) ==> {
                &&& d.year_of() == year
                &&& d.month_of() == month
                &&& d.day_of() == day
                &&& Some(d.weekday_of()) == chrono_weekday(year, month, day)
            },
    {
        match weekday_of(year, month, day) {
            Some(w) => Some(TradingDate { year, month, day, weekday: w }),
            None => None,
        }
    }

    pub fn year(&self) -> (r: i32)
        ensures
            r == self.year_of(),
    {
        self.year
    }

    pub fn month(&self) -> (r: u32)
        ensures
            r == self.month_of(),
    {
        self.month
    }

    pub fn day(&self) -> (r: u32)
        ensures
            r == self.day_of(),
    {
        self.day
    }

    /// The weekday, Monday = 0 to Sunday = 6.
    pub fn weekday(&self) -> (r: u32)
        ensures
            r == self.weekday_of(),
            r < 7,
    {
        proof {
            use_type_invariant(self);
        }
        self.weekday
    }

    /// The same calendar day.
    pub fn same_day(&self, other: &TradingDate) -> (r: bool)
        ensures
            r == same_date(*self, *other),
    {
        self.year == other.year && self.month == other.month && self.day == other.day
    }
}

/// Two dates name the same calendar day.
pub open spec fn same_date(a: TradingDate, b: TradingDate) -> bool {
    a.year_of() == b.year_of() && a.month_of() == b.month_of() && a.day_of() == b.day_of()
}

/// The days on which the NYSE is closed, as listed for 2026 (month, day); the
/// list is applied to every year.
pub open spec fn is_listed_holiday(month: u32, day: u32) -> bool {
    ||| month == 1 && day == 1
    ||| month == 1 && day == 19
    ||| month == 2 && day == 16
    ||| month == 4 && day == 3
    ||| month == 5 && day == 25
    ||| month == 7 && day == 3
    ||| month == 9 && day == 7
    ||| month == 11 && day == 26
    ||| month == 12 && day == 25
}

/// A weekday that is not a listed holiday.
pub open spec fn trading_day(d: TradingDate) -> bool {
    d.weekday_of() < 5 && !is_listed_holiday(d.month_of(), d.day_of())
}

/// Whether the market trades on a date: not a Saturday or Sunday, and not a listed
/// NYSE holiday.
pub fn is_trading_day(date: &TradingDate) -> (r: bool)
    ensures
        r == trading_day(*date),
{
    let w = date.weekday();
    if w == 5 || w == 6 {
        return false;
    }
    let m = date.month();
    let d = date.day();
    !((m == 1 && d == 1) || (m == 1 && d == 19) || (m == 2 && d == 16) || (m == 4 && d == 3) || (m
        == 5 && d == 25) || (m == 7 && d == 3) || (m == 9 && d == 7) || (m == 11 && d == 26) || (
    m == 12 && d == 25))
}

/// A time of day: hour, minute, second, and nanoseconds within the second (up to
/// two seconds' worth, for a leap second).
#[derive(Debug, Clone, Copy, PartialEq, Eq, Structural)]
pub struct TimeOfDay {
    pub hour: u32,
    pub minute: u32,
    pub second: u32,
    pub nanosecond: u32,
}

/// A well-formed time of day.
pub open spec fn time_valid(t: TimeOfDay) -> bool {
    t.hour < 24 && t.minute < 60 && t.second < 60 && t.nanosecond < 2_000_000_000
}

/// Whole seconds since midnight.
pub open spec fn seconds_of_day(t: TimeOfDay) -> int {
    t.hour * 3600 + t.minute * 60 + t.second
}

/// `t` is at or after `h:m:s` (a time with whole seconds).
pub open spec fn at_or_after(t: TimeOfDay, h: int, m: int, s: int) -> bool {
    seconds_of_day(t) >= h * 3600 + m * 60 + s
}

/// `t` is at or before `h:m:s` (a time with whole seconds).
pub open spec fn at_or_before(t: TimeOfDay, h: int, m: int, s: int) -> bool {
    seconds_of_day(t) < h * 3600 + m * 60 + s || (seconds_of_day(t) == h * 3600 + m * 60 + s
        && t.nanosecond == 0)
}

/// `t` is not later than `u`.
pub open spec fn time_le(t: TimeOfDay, u: TimeOfDay) -> bool {
    seconds_of_day(t) < seconds_of_day(u) || (seconds_of_day(t) == seconds_of_day(u)
        && t.nanosecond <= u.nanosecond)
}

impl TimeOfDay {
    /// The time `hour:minute:second` plus `nanosecond`, or `None` when a part is
    /// out of range.
    pub fn new(hour: u32, minute: u32, second: u32, nanosecond: u32) -> (r: Option<TimeOfDay>)
        ensures
            r is Some <==> time_valid(
                TimeOfDay { hour, minute, second, nanosecond },
            ),
            r matches Some(t) ==> t == (TimeOfDay { hour, minute, second, nanosecond }),
    {
        if hour < 24 && minute < 60 && second < 60 && nanosecond < 2_000_000_000 {
            Some(TimeOfDay { hour, minute, second, nanosecond })
        } else {
            None
        }
    }

    /// The time `hour:minute:second` on the whole second.
    pub fn from_hms(hour: u32, minute: u32, second: u32) -> (r: Option<TimeOfDay>)
        ensures
            r is Some <==> (hour < 24 && minute < 60 && second < 60),
            r matches Some(t) ==> t == (TimeOfDay { hour, minute, second, nanosecond: 0 }),
    {
        TimeOfDay::new(hour, minute, second, 0)
    }

    fn seconds(&self) -> (r: u32)
        requires
            time_valid(*self),
        ensures
            r == seconds_of_day(*self),
    {
        self.hour * 3600 + self.minute * 60 + self.second
    }

    fn is_at_or_after(&self, h: u32, m: u32, s: u32) -> (r: bool)
        requires
            time_valid(*self),
            h < 24,
            m < 60,
            s < 60,
        ensures
            r == at_or_after(*self, h as int, m as int, s as int),
    {
        self.seconds() >= h * 3600 + m * 60 + s
    }

    fn is_at_or_before(&self, h: u32, m: u32, s: u32) -> (r: bool)
        requires
            time_valid(*self),
            h < 24,
            m < 60,
            s < 60,
        ensures
            r == at_or_before(*self, h as int, m as int, s as int),
    {
        let secs = self.seconds();
        let bound = h * 3600 + m * 60 + s;
        secs < bound || (secs == bound && self.nanosecond == 0)
    }
}

/// Day positions are flattened from 15:45 ET on trading days.
pub open spec fn flatten_due(d: TradingDate, t: TimeOfDay) -> bool {
    trading_day(d) && at_or_after(t, 15, 45, 0)
}

/// Whether the end-of-day flatten is due: a trading day at or after 15:45 ET.
pub fn should_flatten(date: &TradingDate, time: &TimeOfDay) -> (r: bool)
    requires
        time_valid(*time),
    ensures
        r == flatten_due(*date, *time),
        r ==> trading_day(*date),
{
    if !is_trading_day(date) {
        return false;
    }
    time.is_at_or_after(15, 45, 0)
}

/// The regular session, 9:30 to 16:00 ET inclusive.
pub open spec fn market_hours(t: TimeOfDay) -> bool {
    at_or_after(t, 9, 30, 0) && at_or_before(t, 16, 0, 0)
}

/// Whether a time lies within the regular session, 9:30 to 16:00 ET inclusive.
pub fn is_market_hours(time: &TimeOfDay) -> (r: bool)
    requires
        time_valid(*time),
    ensures
        r == market_hours(*time),
{
    time.is_at_or_after(9, 30, 0) && time.is_at_or_before(16, 0, 0)
}

/// The extended session, 4:00 to 20:00 ET inclusive.
pub open spec fn extended_hours(t: TimeOfDay) -> bool {
    at_or_after(t, 4, 0, 0) && at_or_before(t, 20, 0, 0)
}

/// Whether a time lies within the extended session, 4:00 to 20:00 ET inclusive.
pub fn is_extended_hours(time: &TimeOfDay) -> (r: bool)
    requires
        time_valid(*time),
    ensures
        r == extended_hours(*time),
{
    time.is_at_or_after(4, 0, 0) && time.is_at_or_before(20, 0, 0)
}

/// Whether incoming bars may still produce orders: only before the 15:45 ET
/// flatten time, so that flattened positions are not reopened.
pub fn accepts_new_signals(time: &TimeOfDay) -> (r: bool)
    requires
        time_valid(*time),
    ensures
        r == !at_or_after(*time, 15, 45, 0),
{
    !time.is_at_or_after(15, 45, 0)
}

/// Whether day positions are checked against their stop-loss and take-profit
/// levels: during the regular session and before 15:44 ET, a minute ahead of the
/// flatten.
pub fn day_exits_checked(time: &TimeOfDay) -> (r: bool)
    requires
        time_valid(*time),
    ensures
        r == (market_hours(*time) && !at_or_after(*time, 15, 44, 0)),
{
    is_market_hours(time) && !time.is_at_or_after(15, 44, 0)
}

/// Whether swing positions are checked against their levels: on trading days
/// during the regular session.
pub fn swing_exits_checked(date: &TradingDate, time: &TimeOfDay) -> (r: bool)
    requires
        time_valid(*time),
    ensures
        r == (trading_day(*date) && market_hours(*time)),
{
    is_trading_day(date) && is_market_hours(time)
}

/// The state of the end-of-day flatten job: the day on which it last flattened.
pub struct EodFlattenSchedule {
    pub flattened_on: Option<TradingDate>,
}

/// The job already ran on `today`.
pub open spec fn ran_on(last: Option<TradingDate>, today: TradingDate) -> bool {
    match last {
        Some(d) => same_date(d, today),
        None => false,
    }
}

impl EodFlattenSchedule {
    pub fn new() -> (r: EodFlattenSchedule)
        ensures
            r.flattened_on is None,
    {
        EodFlattenSchedule { flattened_on: None }
    }

    /// One tick of the job: the flatten runs when it has not run today and the
    /// flatten is due; the day is then recorded.
    pub fn tick(&mut self, today: &TradingDate, now: &TimeOfDay) -> (run: bool)
        requires
            time_valid(*now),
        ensures
            run == (!ran_on(old(self).flattened_on, *today) && flatten_due(*today, *now)),
            run ==> final(self).flattened_on == Some(*today),
            !run ==> final(self).flattened_on == old(self).flattened_on,
            run ==> today.weekday_of() < 5 && !is_listed_holiday(today.month_of(), today.day_of()),
            run ==> seconds_of_day(*now) >= 15 * 3600 + 45 * 60,
            run == daily_job_runs(
                old(self).flattened_on,
                seq![(*today, *now)],
                (|d: TradingDate, t: TimeOfDay| flatten_due(d, t)),
                0,
            ),
            final(self).flattened_on == daily_job_state(
                old(self).flattened_on,
                seq![(*today, *now)],
                (|d: TradingDate, t: TimeOfDay| flatten_due(d, t)),
                1,
            ),
    {
        let already = match &self.flattened_on {
            Some(d) => d.same_day(today),
            None => false,
        };
        if already || !should_flatten(today, now) {
            return false;
        }
        self.flattened_on = Some(*today);
        true
    }
}

/// Swing signals are scanned from 16:05 ET on trading days.
pub open spec fn swing_scan_due(d: TradingDate, t: TimeOfDay) -> bool {
    trading_day(d) && at_or_after(t, 16, 5, 0)
}

/// The state of the daily swing scan: the day on which it last ran.
pub struct SwingScanSchedule {
    pub triggered_on: Option<TradingDate>,
}

impl SwingScanSchedule {
    pub fn new() -> (r: SwingScanSchedule)
        ensures
            r.triggered_on is None,
    {
        SwingScanSchedule { triggered_on: None }
    }

    /// One tick of the job: the scan runs once per trading day, at or after 16:05
    /// ET, five minutes after the close.
    pub fn tick(&mut self, today: &TradingDate, now: &TimeOfDay) -> (run: bool)
        requires
            time_valid(*now),
        ensures
            run == (!ran_on(old(self).triggered_on, *today) && swing_scan_due(*today, *now)),
            run ==> final(self).triggered_on == Some(*today),
            !run ==> final(self).triggered_on == old(self).triggered_on,
            run ==> today.weekday_of() < 5 && !is_listed_holiday(today.month_of(), today.day_of()),
            run ==> seconds_of_day(*now) >= 16 * 3600 + 5 * 60,
            run == daily_job_runs(
                old(self).triggered_on,
                seq![(*today, *now)],
                (|d: TradingDate, t: TimeOfDay| swing_scan_due(d, t)),
                0,
            ),
            final(self).triggered_on == daily_job_state(
                old(self).triggered_on,
                seq![(*today, *now)],
                (|d: TradingDate, t: TimeOfDay| swing_scan_due(d, t)),
                1,
            ),
    {
        let already = match &self.triggered_on {
            Some(d) => d.same_day(today),
            None => false,
        };
        if already || !is_trading_day(today) || !now.is_at_or_after(16, 5, 0) {
            return false;
        }
        self.triggered_on = Some(*today);
        true
    }
}

/// What the quote refresh job does on a tick.
#[derive(Debug, Clone, Copy, PartialEq, Eq, Structural)]
pub enum QuoteRefreshPlan {
    /// Not a trading day, or outside the extended session.
    Skip,
    /// Work to do: fetch SPY's opening price when it is not known for today; then
    /// either a full position sync with the broker (every twentieth tick) or a
    /// price refresh, followed by the day-exit checks when they apply.
    Work { fetch_spy_open: bool, full_sync: bool, check_day_exits: bool },
}

/// The state of the quote refresh job: ticks counted so far, and the day whose
/// SPY opening price is known.
pub struct QuoteRefreshSchedule {
    pub tick_count: u32,
    pub spy_open_on: Option<TradingDate>,
}

/// The tick counter after one more tick; it wraps at the end of its range.
pub open spec fn next_tick_count(n: u32) -> u32 {
    if n == u32::MAX {
        0
    } else {
        (n + 1) as u32
    }
}

/// The plan of a tick, given the new tick count.
pub open spec fn quote_plan(
    count: u32,
    spy_open_on: Option<TradingDate>,
    today: TradingDate,
    now: TimeOfDay,
) -> QuoteRefreshPlan {
    if !trading_day(today) || !extended_hours(now) {
        QuoteRefreshPlan::Skip
    } else {
        QuoteRefreshPlan::Work {
            fetch_spy_open: !ran_on(spy_open_on, today),
            full_sync: count % 20 == 0,
            check_day_exits: market_hours(now) && !at_or_after(now, 15, 44, 0),
        }
    }
}

impl QuoteRefreshSchedule {
    pub fn new() -> (r: QuoteRefreshSchedule)
        ensures
            r.tick_count == 0,
            r.spy_open_on is None,
    {
        QuoteRefreshSchedule { tick_count: 0, spy_open_on: None }
    }

    /// One tick of the job: the counter advances on every tick, and the plan
    /// follows [`quote_plan`] with the advanced count.
    pub fn tick(&mut self, today: &TradingDate, now: &TimeOfDay) -> (plan: QuoteRefreshPlan)
        requires
            time_valid(*now),
        ensures
            final(self).tick_count == next_tick_count(old(self).tick_count),
            final(self).spy_open_on == old(self).spy_open_on,
            plan == quote_plan(final(self).tick_count, old(self).spy_open_on, *today, *now),
    {
        self.tick_count = if self.tick_count == u32::MAX {
            0
        } else {
            self.tick_count + 1
        };
        if !is_trading_day(today) || !is_extended_hours(now) {
            return QuoteRefreshPlan::Skip;
        }
        let fetch_spy_open = match &self.spy_open_on {
            Some(d) => !d.same_day(today),
            None => true,
        };
        QuoteRefreshPlan::Work {
            fetch_spy_open,
            full_sync: self.tick_count % 20 == 0,
            check_day_exits: day_exits_checked(now),
        }
    }

    /// Records that SPY's opening price for `today` is known.
    pub fn mark_spy_open(&mut self, today: &TradingDate)
        ensures
            final(self).spy_open_on == Some(*today),
            final(self).tick_count == old(self).tick_count,
    {
        self.spy_open_on = Some(*today);
    }
}

// ---------------------------------------------------------------------------
// Properties of the calendar
// ---------------------------------------------------------------------------

/// Weekends and listed holidays never flatten.
pub proof fn lemma_no_flatten_off_trading_days(d: TradingDate, t: TimeOfDay)
    requires
        !trading_day(d),
    ensures
        !flatten_due(d, t),
{
}

/// Once the flatten is due on a day, it stays due for the rest of that day.
pub proof fn lemma_flatten_stays_due(d: TradingDate, t: TimeOfDay, u: TimeOfDay)
    requires
        flatten_due(d, t),
        time_le(t, u),
    ensures
        flatten_due(d, u),
{
}

/// The flatten runs at most once per day: a tick that ran records the day, and a
/// later tick on the same day does not run.
pub proof fn lemma_flatten_once_per_day(today: TradingDate, later: TradingDate, t: TimeOfDay)
    requires
        same_date(today, later),
    ensures
        !(!ran_on(Some(today), later) && flatten_due(later, t)),
{
}

/// The swing scan runs at most once per day.
pub proof fn lemma_swing_scan_once_per_day(today: TradingDate, later: TradingDate, t: TimeOfDay)
    requires
        same_date(today, later),
    ensures
        !(!ran_on(Some(today), later) && swing_scan_due(later, t)),
{
}

/// Trading hours lie within the extended session.
pub proof fn lemma_market_hours_within_extended(t: TimeOfDay)
    requires
        market_hours(t),
    ensures
        extended_hours(t),
{
}

/// The calendar day `a` is not after the calendar day `b`.
pub open spec fn date_le(a: TradingDate, b: TradingDate) -> bool {
    ||| a.year_of() < b.year_of()
    ||| a.year_of() == b.year_of() && a.month_of() < b.month_of()
    ||| a.year_of() == b.year_of() && a.month_of() == b.month_of() && a.day_of() <= b.day_of()
}

/// The dates of successive ticks never go back.
pub open spec fn dates_in_order(ticks: Seq<(TradingDate, TimeOfDay)>) -> bool {
    forall|i: int, j: int| 0 <= i <= j < ticks.len() ==> date_le(#[trigger] ticks[i].0, #[trigger] ticks[j].0)
}

/// The day that a once-a-day job has recorded after the first `k` of `ticks`,
/// starting from `last`. At each tick the job runs when it has not run on the
/// tick's day and `due` holds at the tick's date and time, and the day is then
/// recorded: the step that [`EodFlattenSchedule::tick`] and
/// [`SwingScanSchedule::tick`] take, with their own `due`.
pub open spec fn daily_job_state(
    last: Option<TradingDate>,
    ticks: Seq<(TradingDate, TimeOfDay)>,
    due: spec_fn(TradingDate, TimeOfDay) -> bool,
    k: int,
) -> Option<TradingDate>
    decreases k,
{
    if k <= 0 {
        last
    } else {
        let prev = daily_job_state(last, ticks, due, k - 1);
        let (d, t) = ticks[k - 1];
        if !ran_on(prev, d) && due(d, t) {
            Some(d)
        } else {
            prev
        }
    }
}

/// The job runs at tick `k`.
pub open spec fn daily_job_runs(
    last: Option<TradingDate>,
    ticks: Seq<(TradingDate, TimeOfDay)>,
    due: spec_fn(TradingDate, TimeOfDay) -> bool,
    k: int,
) -> bool {
    !ran_on(daily_job_state(last, ticks, due, k), ticks[k].0) && due(ticks[k].0, ticks[k].1)
}

proof fn lemma_daily_job_keeps_day(
    last: Option<TradingDate>,
    ticks: Seq<(TradingDate, TimeOfDay)>,
    due: spec_fn(TradingDate, TimeOfDay) -> bool,
    i: int,
    k: int,
)
    requires
        0 <= i < k <= ticks.len(),
        daily_job_runs(last, ticks, due, i),
        forall|m: int| i <= m < k ==> same_date(#[trigger] ticks[m].0, ticks[i].0),
    ensures
        daily_job_state(last, ticks, due, k) is Some,
        same_date(daily_job_state(last, ticks, due, k)->0, ticks[i].0),
    decreases k,
{
    if k > i + 1 {
        lemma_daily_job_keeps_day(last, ticks, due, i, k - 1);
        assert(same_date(ticks[k - 1].0, ticks[i].0));
    }
}

proof fn lemma_daily_job_once(
    last: Option<TradingDate>,
    ticks: Seq<(TradingDate, TimeOfDay)>,
    due: spec_fn(TradingDate, TimeOfDay) -> bool,
    i: int,
    j: int,
)
    requires
        dates_in_order(ticks),
        0 <= i < j < ticks.len(),
        same_date(ticks[i].0, ticks[j].0),
    ensures
        !(daily_job_runs(last, ticks, due, i) && daily_job_runs(last, ticks, due, j)),
{
    if daily_job_runs(last, ticks, due, i) {
        assert forall|m: int| i <= m < j implies same_date(#[trigger] ticks[m].0, ticks[i].0) by {
            assert(date_le(ticks[i].0, ticks[m].0));
            assert(date_le(ticks[m].0, ticks[j].0));
        }
        lemma_daily_job_keeps_day(last, ticks, due, i, j);
    }
}

/// Over any run of ticks whose dates never go back, the end-of-day flatten
/// runs on at most one tick per calendar day, and only on a tick at which the
/// flatten is due.
pub proof fn lemma_flatten_at_most_once_per_day_over_ticks(
    last: Option<TradingDate>,
    ticks: Seq<(TradingDate, TimeOfDay)>,
    i: int,
    j: int,
)
    requires
        dates_in_order(ticks),
        0 <= i < j < ticks.len(),
    ensures
        daily_job_runs(last, ticks, |d: TradingDate, t: TimeOfDay| flatten_due(d, t), i) ==> flatten_due(
            ticks[i].0,
            ticks[i].1,
        ),
        same_date(ticks[i].0, ticks[j].0) ==> !(daily_job_runs(
            last,
            ticks,
            |d: TradingDate, t: TimeOfDay| flatten_due(d, t),
            i,
        ) && daily_job_runs(last, ticks, |d: TradingDate, t: TimeOfDay| flatten_due(d, t), j)),
{
    if same_date(ticks[i].0, ticks[j].0) {
        lemma_daily_job_once(last, ticks, |d: TradingDate, t: TimeOfDay| flatten_due(d, t), i, j);
    }
}

/// Over any run of ticks whose dates never go back, the swing scan runs on at
/// most one tick per calendar day, and only on a tick at which it is due.
pub proof fn lemma_swing_scan_at_most_once_per_day_over_ticks(
    last: Option<TradingDate>,
    ticks: Seq<(TradingDate, TimeOfDay)>,
    i: int,
    j: int,
)
    requires
        dates_in_order(ticks),
        0 <= i < j < ticks.len(),
    ensures
        daily_job_runs(last, ticks, |d: TradingDate, t: TimeOfDay| swing_scan_due(d, t), i)
            ==> swing_scan_due(ticks[i].0, ticks[i].1),
        same_date(ticks[i].0, ticks[j].0) ==> !(daily_job_runs(
            last,
            ticks,
            |d: TradingDate, t: TimeOfDay| swing_scan_due(d, t),
            i,
        ) && daily_job_runs(last, ticks, |d: TradingDate, t: TimeOfDay| swing_scan_due(d, t), j)),
{
    if same_date(ticks[i].0, ticks[j].0) {
        lemma_daily_job_once(last, ticks, |d: TradingDate, t: TimeOfDay| swing_scan_due(d, t), i, j);
    }
}

/// The once-a-day jobs are due exactly on trading days (a weekday that is not a
/// listed NYSE holiday) from their hour on: the flatten from 15:45 ET, the swing
/// scan from 16:05 ET. On a weekend or a holiday neither is ever due.
pub proof fn lemma_daily_jobs_only_on_trading_days(d: TradingDate, t: TimeOfDay)
    ensures
        flatten_due(d, t) <==> (d.weekday_of() < 5 && !is_listed_holiday(d.month_of(), d.day_of())
            && seconds_of_day(t) >= 15 * 3600 + 45 * 60),
        swing_scan_due(d, t) <==> (d.weekday_of() < 5 && !is_listed_holiday(d.month_of(), d.day_of())
            && seconds_of_day(t) >= 16 * 3600 + 5 * 60),
{
}

} // verus!
