//! Fixed-offset time zone resolution and calendar-day overdue evaluation.
//!
//! Instants are naive UTC wall-clock times, held as whole seconds since the
//! Unix epoch.  A user's zone is a fixed signed offset in seconds: no
//! daylight-saving adjustment exists anywhere in this core.  A calendar date
//! is modelled by its day number, the floor of the zone-shifted instant
//! divided by the seconds of one day; two instants fall on the same local
//! calendar date exactly when their day numbers agree.

use vstd::arithmetic::div_mod::{
    lemma_fundamental_div_mod_converse_div, lemma_fundamental_div_mod,
    lemma_mod_division_less_than_divisor,
};
use vstd::prelude::*;
use vstd::string::StrSliceExecFns;

use chrono::TimeZone;

use crate::errors::HibiError;
use crate::models::{Task, User};

verus! {

/// Seconds in one calendar day.
pub const SECS_PER_DAY: i64 = 86400;

/// Earliest instant the store may hold, in seconds since the epoch.  The
/// bound stays inside the range a calendar datetime can denote (roughly
/// 250,000 years either side of the epoch) and far inside `i64`, so day
/// arithmetic never overflows and every instant has a calendar rendering.
pub const MIN_INSTANT: i64 = -8_000_000_000_000;

/// Latest instant the store may hold, in seconds since the epoch.
pub const MAX_INSTANT: i64 = 8_000_000_000_000;

/// Largest offset magnitude `resolve_offset` can produce: "99 hours,
/// 99 minutes", since the digit pairs are taken as-is without range checks.
pub const MAX_OFFSET_SECS: i32 = 362_340;

/// An instant the store may hold.
pub open spec fn valid_instant(t: int) -> bool {
    MIN_INSTANT <= t <= MAX_INSTANT
}

/// An offset that zone resolution can produce.
pub open spec fn valid_offset(off: int) -> bool {
    -MAX_OFFSET_SECS <= off <= MAX_OFFSET_SECS
}

/// Day number of the local calendar date: the zone-shifted instant's day
/// count since the epoch.  `int` division is Euclidean, hence the floor here:
/// instants before the epoch land on negative days.
pub open spec fn spec_local_day(utc: int, offset: int) -> int {
    (utc + offset) / 86400
}

/// Overdue: the local calendar date of `scheduled` lies strictly before the
/// local calendar date of `now`, both taken in the zone given by `offset`.
/// An instant scheduled anywhere on today's local date is not overdue.
pub open spec fn spec_overdue(scheduled: int, offset: int, now: int) -> bool {
    spec_local_day(scheduled, offset) < spec_local_day(now, offset)
}

/// An ASCII decimal digit.
pub open spec fn is_digit_char(c: char) -> bool {
    48 <= c as u32 <= 57
}

/// Numeric value of an ASCII decimal digit.
pub open spec fn digit_val(c: char) -> int {
    c as u32 - 48
}

/// The zone-string pattern: a sign, then two digit pairs, with anything at
/// all allowed after them.  Hours above 23 or minutes above 59 are accepted
/// as-is; that is a documented limitation, not corrected here.
pub open spec fn offset_pattern_ok(s: Seq<char>) -> bool {
    &&& s.len() >= 5
    &&& (s[0] == '+' || s[0] == '-')
    &&& is_digit_char(s[1])
    &&& is_digit_char(s[2])
    &&& is_digit_char(s[3])
    &&& is_digit_char(s[4])
}

/// The signed second offset a matching zone string denotes:
/// sign times (hours x 3600 + minutes x 60).
pub open spec fn offset_seconds_of(s: Seq<char>) -> int {
    let hours = digit_val(s[1]) * 10 + digit_val(s[2]);
    let minutes = digit_val(s[3]) * 10 + digit_val(s[4]);
    let magnitude = hours * 3600 + minutes * 60;
    if s[0] == '-' {
        -magnitude
    } else {
        magnitude
    }
}

/// Digit test and value, combined.
fn digit_of(c: char) -> (r: Option<u8>)
    ensures
        match r {
            Some(d) => is_digit_char(c) && d as int == digit_val(c),
            None => !is_digit_char(c),
        },
{
    let u = c as u32;
    if 48 <= u && u <= 57 {
        Some((u - 48) as u8)
    } else {
        None
    }
}

/// Resolves a raw zone string to its fixed signed offset in seconds.
///
/// Succeeds exactly on strings matching the sign-and-four-digits pattern and
/// then returns exactly the offset the digits denote; every other string is
/// an invalid time zone.
pub fn resolve_offset(raw: &str) -> (r: Result<i32, HibiError>)
    ensures
        match r {
            Ok(off) => {
                &&& offset_pattern_ok(raw@)
                &&& off as int == offset_seconds_of(raw@)
                &&& valid_offset(off as int)
            },
            Err(e) => e == HibiError::InvalidTimeZone && !offset_pattern_ok(raw@),
        },
{
    let n = raw.unicode_len();
    if n < 5 {
        return Err(HibiError::InvalidTimeZone);
    }
    let sign = raw.get_char(0);
    if !(sign == '+' || sign == '-') {
        return Err(HibiError::InvalidTimeZone);
    }
    let d1 = digit_of(raw.get_char(1));
    let d2 = digit_of(raw.get_char(2));
    let d3 = digit_of(raw.get_char(3));
    let d4 = digit_of(raw.get_char(4));
    match (d1, d2, d3, d4) {
        (Some(h1), Some(h2), Some(m1), Some(m2)) => {
            let hours: i32 = (h1 as i32) * 10 + (h2 as i32);
            let minutes: i32 = (m1 as i32) * 10 + (m2 as i32);
            let magnitude: i32 = hours * 3600 + minutes * 60;
            if sign == '-' {
                Ok(-magnitude)
            } else {
                Ok(magnitude)
            }
        },
        _ => Err(HibiError::InvalidTimeZone),
    }
}

/// Day number of the local calendar date of `utc` under `offset`.
pub fn local_day(utc: i64, offset: i32) -> (d: i64)
    requires
        valid_instant(utc as int),
        valid_offset(offset as int),
    ensures
        d as int == spec_local_day(utc as int, offset as int),
{
    let shifted: i64 = utc + offset as i64;
    if shifted >= 0 {
        shifted / SECS_PER_DAY
    } else {
        let y: i64 = -1 - shifted;
        let q: i64 = y / SECS_PER_DAY;
        proof {
            lemma_fundamental_div_mod(y as int, 86400);
            lemma_mod_division_less_than_divisor(y as int, 86400);
            let yq = (y as int) / 86400;
            let yr = (y as int) % 86400;
            assert(shifted as int == (-yq - 1) * 86400 + (86399 - yr)) by (nonlinear_arith)
                requires
                    y as int == 86400 * yq + yr,
                    shifted as int == -1 - y as int,
            ;
            lemma_fundamental_div_mod_converse_div(
                shifted as int,
                86400,
                -yq - 1,
                86399 - yr,
            );
        }
        -1 - q
    }
}

/// Whether `scheduled` is overdue at `now` under the fixed `offset`.
pub fn is_overdue_at(scheduled: i64, offset: i32, now: i64) -> (r: bool)
    requires
        valid_instant(scheduled as int),
        valid_instant(now as int),
        valid_offset(offset as int),
    ensures
        r == spec_overdue(scheduled as int, offset as int, now as int),
{
    local_day(scheduled, offset) < local_day(now, offset)
}

/// Relies on chrono's `Utc::now` and `DateTime::timestamp`: the current
/// instant's whole seconds since the epoch.  A chrono datetime spans roughly
/// 262,000 years either side of the epoch, so the result lies within the
/// store's instant range.
#[verifier::external_body]
pub(crate) fn now_epoch_seconds() -> (r: i64)
    ensures
        valid_instant(r as int),
{
    chrono::Utc::now().timestamp()
}

/// Relies on chrono's `Local::now` and `TimeZone::from_local_datetime`: the
/// UTC instant written 23:59:59 on the current *process-local* calendar day,
/// the Today/Postponed boundary.  Should that wall-clock time not exist in
/// the local zone (a zone transition spanning it), the current instant is
/// returned instead; either way the result is a valid instant, which is all
/// that is promised.
#[verifier::external_body]
pub(crate) fn end_of_today_epoch_seconds() -> (r: i64)
    ensures
        valid_instant(r as int),
{
    let now = chrono::Local::now();
    let eod = match now.date_naive().and_hms_opt(23, 59, 59) {
        Some(wall) => match chrono::Local.from_local_datetime(&wall).earliest() {
            Some(dt) => dt,
            None => now,
        },
        None => now,
    };
    eod.naive_utc().and_utc().timestamp()
}

impl User {
    /// The stored zone string is present and matches the offset pattern.
    pub open spec fn zone_ok(&self) -> bool {
        match self.time_zone {
            Some(s) => offset_pattern_ok(s@),
            None => false,
        }
    }

    /// The resolved offset in seconds; meaningful under `zone_ok`.
    pub open spec fn spec_offset(&self) -> int {
        match self.time_zone {
            Some(s) => offset_seconds_of(s@),
            None => 0,
        }
    }

    /// Resolves this user's zone string, if any, to its fixed offset.
    /// A missing or non-matching string is an invalid time zone.
    pub fn try_time_zone_offset(&self) -> (r: Result<i32, HibiError>)
        ensures
            match r {
                Ok(off) => {
                    &&& self.zone_ok()
                    &&& off as int == self.spec_offset()
                    &&& valid_offset(off as int)
                },
                Err(e) => e == HibiError::InvalidTimeZone && !self.zone_ok(),
            },
    {
        match &self.time_zone {
            Some(s) => resolve_offset(s.as_str()),
            None => Err(HibiError::InvalidTimeZone),
        }
    }

    /// The resolved offset of a user whose zone string is known to match.
    pub fn time_zone_offset(&self) -> (r: i32)
        requires
            self.zone_ok(),
        ensures
            r as int == self.spec_offset(),
            valid_offset(r as int),
    {
        match self.try_time_zone_offset() {
            Ok(off) => off,
            Err(_) => 0,
        }
    }
}

/// A task read together with a resolved fixed offset, so that its instants
/// can be taken as local wall-clock times of that zone.
pub struct TaskInTimeZone<'a> {
    pub task: &'a Task,
    pub offset: i32,
}

impl<'a> TaskInTimeZone<'a> {
    /// The fixed offset this view was taken in.
    pub fn timezone(&self) -> (r: i32)
        ensures
            r == self.offset,
    {
        self.offset
    }

    /// The scheduled instant as local wall-clock seconds of the zone.
    pub fn scheduled_for(&self) -> (r: i64)
        requires
            self.task.wf(),
            valid_offset(self.offset as int),
        ensures
            r as int == self.task.scheduled_for as int + self.offset as int,
    {
        self.task.scheduled_for + self.offset as i64
    }

    /// The completion instant, if any, as local wall-clock seconds.
    pub fn done_at(&self) -> (r: Option<i64>)
        requires
            self.task.wf(),
            valid_offset(self.offset as int),
        ensures
            match (r, self.task.done_at) {
                (Some(l), Some(d)) => l as int == d as int + self.offset as int,
                (None, None) => true,
                _ => false,
            },
    {
        match self.task.done_at {
            Some(d) => Some(d + self.offset as i64),
            None => None,
        }
    }

    /// Whether the task is overdue at the instant `now`.
    pub fn is_overdue(&self, now: i64) -> (r: bool)
        requires
            self.task.wf(),
            valid_offset(self.offset as int),
            valid_instant(now as int),
        ensures
            r == spec_overdue(
                self.task.scheduled_for as int,
                self.offset as int,
                now as int,
            ),
    {
        is_overdue_at(self.task.scheduled_for, self.offset, now)
    }

    /// Whether the task is overdue at the current instant.  The verdict is
    /// the overdue evaluation against whatever instant the clock returned.
    pub fn is_overdue_now(&self) -> (r: bool)
        requires
            self.task.wf(),
            valid_offset(self.offset as int),
        ensures
            exists|now: int|
                valid_instant(now) && r == spec_overdue(
                    self.task.scheduled_for as int,
                    self.offset as int,
                    now,
                ),
    {
        let now = now_epoch_seconds();
        self.is_overdue(now)
    }
}

impl Task {
    /// Pairs the task with a resolved offset for local-time evaluation.
    pub fn in_time_zone<'a>(&'a self, offset: i32) -> (r: TaskInTimeZone<'a>)
        ensures
            r.task == self,
            r.offset == offset,
    {
        TaskInTimeZone { task: self, offset }
    }
}

/// Re-evaluating the same pair of instants under another offset can flip
/// the overdue answer.  One second before a day boundary is overdue against
/// the second after it in the zero zone, and not overdue one hour east.
pub proof fn lemma_offset_can_flip()
    ensures
        spec_overdue(86399, 0, 86400),
        !spec_overdue(86399, 3600, 86400),
{
    assert(spec_local_day(86399, 0) == 0);
    assert(spec_local_day(86400, 0) == 1);
    assert(spec_local_day(86399, 3600) == 1);
    assert(spec_local_day(86400, 3600) == 1);
}

} // verus!
