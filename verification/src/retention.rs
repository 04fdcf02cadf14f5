//! The retention horizon: how long rows are kept, written as a count of a
//! unit of time and turned into a number of days.

use crate::record::StorageError;
use crate::store::Co2db;
use crate::table::{lemma_prune_whole_range, pruned, Table, WHOLE_RANGE_DAYS};
use crate::text::{parse_u32, parsed_u32, NumberError};
use vstd::prelude::*;

verus! {

/// The units in which a horizon can be written.
#[derive(Clone, Copy, Debug, PartialEq, Eq, Structural)]
pub enum TimeUnit {
    /// One day.
    Day,
    /// Seven days.
    Week,
    /// Thirty days.
    Month,
    /// Three hundred and sixty-five days.
    Year,
}

/// Why a horizon could not be read.
#[derive(Clone, Copy, Debug, PartialEq, Eq, Structural)]
pub enum KeepError {
    /// The count is not an unsigned number, or the days exceed 32 bits.
    Number(NumberError),
    /// The last character names no unit.
    UnknownUnit,
}

/// The unit a letter stands for.
pub open spec fn unit_of(c: char) -> Option<TimeUnit> {
    if c == 'd' {
        Some(TimeUnit::Day)
    } else if c == 'w' {
        Some(TimeUnit::Week)
    } else if c == 'm' {
        Some(TimeUnit::Month)
    } else if c == 'y' {
        Some(TimeUnit::Year)
    } else {
        None
    }
}

/// The number of days in one unit.
pub open spec fn unit_days(unit: TimeUnit) -> int {
    match unit {
        TimeUnit::Day => 1,
        TimeUnit::Week => 7,
        TimeUnit::Month => 30,
        TimeUnit::Year => 365,
    }
}

/// The days that `count` units last, when they fit 32 bits.
pub open spec fn days_for(count: int, unit: TimeUnit) -> Result<u32, KeepError> {
    if count * unit_days(unit) > u32::MAX {
        Err(KeepError::Number(NumberError::TooLarge))
    } else {
        Ok((count * unit_days(unit)) as u32)
    }
}

/// The days that a horizon denotes. A bare number counts days; otherwise
/// the last character is the unit and what stands before it is the count.
pub open spec fn keep_days(spec: Seq<char>) -> Result<u32, KeepError> {
    match parsed_u32(spec) {
        Ok(days) => Ok(days),
        Err(_) => if spec.len() == 0 {
            Err(KeepError::Number(NumberError::Empty))
        } else {
            match parsed_u32(spec.drop_last()) {
                Err(e) => Err(KeepError::Number(e)),
                Ok(count) => match unit_of(spec.last()) {
                    None => Err(KeepError::UnknownUnit),
                    Some(unit) => days_for(count as int, unit),
                },
            }
        },
    }
}

impl TimeUnit {
    /// The unit a letter stands for, if any.
    pub fn from_letter(c: char) -> (r: Option<TimeUnit>)
        ensures
            r == unit_of(c),
    {
        if c == 'd' {
            Some(TimeUnit::Day)
        } else if c == 'w' {
            Some(TimeUnit::Week)
        } else if c == 'm' {
            Some(TimeUnit::Month)
        } else if c == 'y' {
            Some(TimeUnit::Year)
        } else {
            None
        }
    }

    /// The number of days in one unit.
    pub fn days(self) -> (r: u32)
        ensures
            r == unit_days(self),
    {
        match self {
            TimeUnit::Day => 1,
            TimeUnit::Week => 7,
            TimeUnit::Month => 30,
            TimeUnit::Year => 365,
        }
    }
}

/// Turns a count of a unit into days.
pub fn retain_days(count: u32, unit: TimeUnit) -> (r: Result<u32, KeepError>)
    ensures
        r == days_for(count as int, unit),
{
    let per_unit = unit.days();
    assert(count * per_unit == count * unit_days(unit));
    match count.checked_mul(per_unit) {
        Some(days) => Ok(days),
        None => Err(KeepError::Number(NumberError::TooLarge)),
    }
}

/// Reads a horizon such as `21`, `3w` or `2y` as a number of days.
pub fn parse_keep(spec: &str) -> (r: Result<u32, KeepError>)
    ensures
        r == keep_days(spec@),
{
    match parse_u32(spec) {
        Ok(days) => Ok(days),
        Err(_) => {
            let len = spec.unicode_len();
            if len == 0 {
                return Err(KeepError::Number(NumberError::Empty));
            }
            let count_text = spec.substring_char(0, len - 1);
            assert(count_text@ =~= spec@.drop_last());
            match parse_u32(count_text) {
                Err(e) => Err(KeepError::Number(e)),
                Ok(count) => match TimeUnit::from_letter(spec.get_char(len - 1)) {
                    None => Err(KeepError::UnknownUnit),
                    Some(unit) => retain_days(count, unit),
                },
            }
        },
    }
}

/// The days that `count` units last, cut off at the largest 32-bit number.
/// Horizons that long span every timestamp, so nothing is lost by the cut.
pub fn horizon_days(count: u32, unit: TimeUnit) -> (days: u32)
    ensures
        days == if count * unit_days(unit) > u32::MAX {
            u32::MAX as int
        } else {
            count * unit_days(unit)
        },
        count * unit_days(unit) >= WHOLE_RANGE_DAYS ==> days >= WHOLE_RANGE_DAYS,
{
    let per_unit = unit.days();
    assert(count * per_unit == count * unit_days(unit));
    match count.checked_mul(per_unit) {
        Some(days) => days,
        None => u32::MAX,
    }
}

/// The retention policy on a table: keeps the rows of the last `count`
/// units before the newest row and removes the older ones.
pub fn keep_in_table(table: &mut Table, count: u32, unit: TimeUnit) -> (r: Result<
    (),
    StorageError,
>)
    requires
        old(table).wf(),
    ensures
        final(table).wf(),
        old(table)@.len() == 0 ==> (r matches Err(StorageError::NoData)),
        old(table)@.len() > 0 ==> r.is_ok(),
        final(table)@ == pruned(old(table)@, count * unit_days(unit)),
{
    let days = horizon_days(count, unit);
    proof {
        if count * unit_days(unit) > u32::MAX {
            table.lemma_in_range();
            lemma_prune_whole_range(table@, count * unit_days(unit));
            lemma_prune_whole_range(table@, days as int);
        }
    }
    table.prune(days)
}

/// The retention policy on a store: keeps the rows of the last `count`
/// units before the newest row and removes the older ones.
pub fn keep_in_store(store: &Co2db, count: u32, unit: TimeUnit) -> (r: Result<(), StorageError>)
    ensures
        r matches Err(e) ==> e is NoData || (e matches StorageError::Engine(text) && (text@
            == "cannot query latest timestamp"@ || "cannot delete rows: "@.is_prefix_of(text@))),
{
    store.leave_rows(horizon_days(count, unit))
}

} // verus!
