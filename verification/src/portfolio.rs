//! The tranches of a portfolio, each known by the date of its contribution.

use crate::date::Date;
use vstd::prelude::*;

verus! {

/// The calendar side of a retirement portfolio. Tranche `i` is the one whose
/// date of contribution is `origins[i]`; its amount is kept by the caller
/// under the same index.
pub struct Portfolio {
    pub accumulation_years: u32,
    pub depletion_years: u32,
    pub origins: Vec<Date>,
}

/// The date of the contribution with number `m`, counted in months from the
/// beginning of year 0.
pub open spec fn contribution_date(m: int) -> Date {
    Date { year: (m / 12) as u32, month: (m % 12) as u8, day: 0 }
}

/// The dates of the monthly contributions of `years` years, in order.
pub open spec fn contribution_dates(years: nat) -> Seq<Date> {
    Seq::new(12 * years, |m: int| contribution_date(m))
}

/// The tranches that count at `until`, in increasing order: those
/// contributed at `until` or before.
pub open spec fn held_at(origins: Seq<Date>, until: Date, held: Seq<usize>) -> bool {
    &&& forall|k: int| 0 <= k < held.len() ==> held[k] < origins.len() && origins[held[k] as int].not_after(until)
    &&& forall|k: int, l: int| 0 <= k < l < held.len() ==> held[k] < held[l]
    &&& forall|i: usize| i < origins.len() && origins[i as int].not_after(until) ==> held.contains(i)
}

impl Portfolio {
    /// A portfolio without tranches.
    pub fn new(accumulation_years: u32, depletion_years: u32) -> (portfolio: Portfolio)
        ensures
            portfolio.accumulation_years == accumulation_years,
            portfolio.depletion_years == depletion_years,
            portfolio.origins@ == Seq::<Date>::empty(),
    {
        Portfolio { accumulation_years, depletion_years, origins: Vec::new() }
    }

    /// Adds one tranche, such as an initial lump sum, and gives its index.
    pub fn add_tranche(&mut self, origin: Date) -> (index: usize)
        ensures
            index == old(self).origins@.len(),
            final(self).origins@ == old(self).origins@.push(origin),
            final(self).accumulation_years == old(self).accumulation_years,
            final(self).depletion_years == old(self).depletion_years,
    {
        let index = self.origins.len();
        self.origins.push(origin);
        index
    }

    /// Appends one tranche for each month of the accumulation years, from
    /// month 0 of year 0 on. What was there before stays in front.
    pub fn simulate_accumulation(&mut self)
        ensures
            final(self).origins@ == old(self).origins@ + contribution_dates(
                old(self).accumulation_years as nat,
            ),
            final(self).accumulation_years == old(self).accumulation_years,
            final(self).depletion_years == old(self).depletion_years,
    {
        let months: u64 = self.accumulation_years as u64 * 12;
        let mut m: u64 = 0;
        while m < months
            invariant
                m <= months,
                months == 12 * old(self).accumulation_years,
                self.accumulation_years == old(self).accumulation_years,
                self.depletion_years == old(self).depletion_years,
                self.origins@ == old(self).origins@ + Seq::new(
                    m as nat,
                    |k: int| contribution_date(k),
                ),
            decreases months - m,
        {
            self.origins.push(Date::new((m / 12) as u32, (m % 12) as u8, 0));
            m += 1;
        }
    }

    /// The day on which accumulation ends and depletion begins.
    pub fn end_of_accumulation(&self) -> (date: Date)
        ensures
            date == (Date { year: self.accumulation_years, month: 0, day: 0 }),
    {
        Date::new(self.accumulation_years, 0, 0)
    }

    /// The indices of the tranches that enter the portfolio's value at
    /// `until`.
    pub fn held_until(&self, until: Date) -> (held: Vec<usize>)
        ensures
            held_at(self.origins@, until, held@),
    {
        let mut held: Vec<usize> = Vec::new();
        let mut i: usize = 0;
        while i < self.origins.len()
            invariant
                i <= self.origins.len(),
                forall|k: int| 0 <= k < held.len() ==> held[k] < i && self.origins[held[k] as int].not_after(until),
                forall|k: int, l: int| 0 <= k < l < held.len() ==> held[k] < held[l],
                forall|j: usize| j < i && self.origins[j as int].not_after(until) ==> held@.contains(j),
            decreases self.origins.len() - i,
        {
            let ghost before = held@;
            if self.origins[i] <= until {
                held.push(i);
                assert(held@[before.len() as int] == i);
            }
            assert forall|j: usize| j < i && self.origins[j as int].not_after(until) implies held@.contains(
                j,
            ) by {
                assert(before.contains(j));
                let k = choose|k: int| 0 <= k < before.len() && before[k] == j;
                assert(held@[k] == j);
            }
            i += 1;
        }
        held
    }

    /// Whether a run that lasted `months_survived` months covers the
    /// depletion years.
    pub fn covers_depletion(&self, months_survived: u64) -> (covered: bool)
        ensures
            covered == (months_survived >= 12 * self.depletion_years),
    {
        months_survived >= self.depletion_years as u64 * 12
    }
}

} // verus!
