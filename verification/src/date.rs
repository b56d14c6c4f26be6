//! Dates at month granularity and the distance between them.

use std::cmp::Ordering;
use vstd::prelude::*;
use vstd::std_specs::cmp::PartialOrdSpec;

verus! {

/// A calendar date. Interest is reckoned in whole months, so the day takes
/// part in the ordering of dates only.
#[derive(PartialEq, Eq, Debug, Clone, Copy, Ord, Structural)]
pub struct Date {
    pub year: u32,
    pub month: u8,
    pub day: u8,
}

/// Why the distance between two dates cannot be given.
#[derive(PartialEq, Eq, Debug, Clone, Copy, Structural)]
pub enum DistanceError {
    /// The target month lies before the month counted from.
    TargetEarlier,
    /// The distance is more than `u16::MAX` months.
    TooFar,
}

impl Date {
    /// `self` comes strictly before `other`: by year, then month, then day.
    pub open spec fn precedes(self, other: Date) -> bool {
        self.year < other.year || (self.year == other.year && (self.month < other.month || (
        self.month == other.month && self.day < other.day)))
    }

    /// `self` comes before `other` or is the same date.
    pub open spec fn not_after(self, other: Date) -> bool {
        !other.precedes(self)
    }

    /// Whole months from `self` to `target`; negative where the month of
    /// `target` lies before that of `self`.
    pub open spec fn months_until(self, target: Date) -> int {
        (target.year - self.year) * 12 + (target.month - self.month)
    }

    /// The date with these three parts, as they are given.
    pub fn new(year: u32, month: u8, day: u8) -> (date: Date)
        ensures
            date == (Date { year, month, day }),
    {
        Date { year, month, day }
    }

    /// Whole months from `self` to `current_date`. The caller sees to it that
    /// the month of `current_date` is not before that of `self` and that the
    /// count fits; `checked_total_months` tests both.
    pub fn total_months(&self, current_date: Date) -> (months: u16)
        requires
            0 <= self.months_until(current_date) <= u16::MAX,
        ensures
            months == self.months_until(current_date),
    {
        let years: i64 = current_date.year as i64 - self.year as i64;
        let months: i64 = current_date.month as i64 - self.month as i64;
        (years * 12 + months) as u16
    }

    /// Whole months from `self` to `target`, or the reason why there is no
    /// such count.
    pub fn checked_total_months(&self, target: Date) -> (result: Result<u16, DistanceError>)
        ensures
            match result {
                Ok(months) => months == self.months_until(target),
                Err(DistanceError::TargetEarlier) => self.months_until(target) < 0,
                Err(DistanceError::TooFar) => self.months_until(target) > u16::MAX,
            },
    {
        let years: i64 = target.year as i64 - self.year as i64;
        let months: i64 = target.month as i64 - self.month as i64;
        let distance: i64 = years * 12 + months;
        if distance < 0 {
            Err(DistanceError::TargetEarlier)
        } else if distance > 65535 {
            Err(DistanceError::TooFar)
        } else {
            Ok(distance as u16)
        }
    }
}

impl PartialOrd for Date {
    fn partial_cmp(&self, other: &Self) -> (r: Option<Ordering>) {
        if self.year < other.year {
            Some(Ordering::Less)
        } else if self.year > other.year {
            Some(Ordering::Greater)
        } else if self.month < other.month {
            Some(Ordering::Less)
        } else if self.month > other.month {
            Some(Ordering::Greater)
        } else if self.day < other.day {
            Some(Ordering::Less)
        } else if self.day > other.day {
            Some(Ordering::Greater)
        } else {
            Some(Ordering::Equal)
        }
    }
}

impl vstd::std_specs::cmp::PartialOrdSpecImpl for Date {
    open spec fn obeys_partial_cmp_spec() -> bool {
        true
    }

    open spec fn partial_cmp_spec(&self, other: &Date) -> Option<Ordering> {
        if self.precedes(*other) {
            Some(Ordering::Less)
        } else if other.precedes(*self) {
            Some(Ordering::Greater)
        } else {
            Some(Ordering::Equal)
        }
    }
}

/// The order of dates is a strict total order: no date precedes itself, of
/// two different dates exactly one precedes the other, and precedence carries
/// over a date in between.
pub proof fn lemma_order_strict_total(a: Date, b: Date, c: Date)
    ensures
        !a.precedes(a),
        a.precedes(b) ==> !b.precedes(a),
        a.precedes(b) && b.precedes(c) ==> a.precedes(c),
        a.precedes(b) || b.precedes(a) || a == b,
        a.not_after(b) && b.not_after(a) ==> a == b,
        a.not_after(b) && b.not_after(c) ==> a.not_after(c),
{
}

/// The comparison operators follow `precedes`: `a < b` holds exactly where
/// `a` precedes `b`, and the comparison gives `Equal` exactly for one and the
/// same date.
pub proof fn lemma_comparison_follows_precedes(a: Date, b: Date)
    ensures
        a.partial_cmp_spec(&b) == Some(Ordering::Less) <==> a.precedes(b),
        a.partial_cmp_spec(&b) == Some(Ordering::Greater) <==> b.precedes(a),
        a.partial_cmp_spec(&b) == Some(Ordering::Equal) <==> a == b,
{
}

/// Month distances add up along any way from `a` over `b` to `c`.
pub proof fn lemma_months_additive(a: Date, b: Date, c: Date)
    ensures
        a.months_until(b) + b.months_until(c) == a.months_until(c),
        a.months_until(a) == 0,
{
}

/// Between calendar months, which are numbered from 0 to 11, the distance to
/// a date that is not earlier is never negative.
pub proof fn lemma_months_nonnegative(a: Date, b: Date)
    requires
        a.month <= 11,
        b.month <= 11,
        a.not_after(b),
    ensures
        a.months_until(b) >= 0,
{
}

} // verus!
