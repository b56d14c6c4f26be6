//! Whole simulations. What a tranche is worth is the caller's business: the
//! caller here keeps amounts in floating point and reckons compound interest
//! and a flat tax on the gain, and leaves the calendar, the order of
//! liquidation and the course of the run to the library.

use pension::date::Date;
use pension::depletion::{Depletion, Event, Next, Outcome, Trade};
use pension::order::{liquidation_order, WithdrawalPolicy};
use pension::portfolio::Portfolio;

#[derive(Clone, Copy, Debug)]
struct SavingItem {
    amount: f64,
    date: Date,
}

impl SavingItem {
    fn months(&self, until: &Date) -> i32 {
        self.date.checked_total_months(*until).expect("the tranche is older than the valuation") as i32
    }

    fn current_interest(&self, until: &Date, interest_rate: f64) -> f64 {
        self.amount * ((1. + interest_rate / 12.0f64).powi(self.months(until)) - 1.)
    }

    fn current_saving(&self, until: &Date, interest_rate: f64) -> f64 {
        self.amount * (1.0 + interest_rate / 12.0f64).powi(self.months(until))
    }

    fn current_savings_after_tax(&self, until: &Date, interest_rate: f64) -> f64 {
        let current_saving = self.current_saving(until, interest_rate);
        let capital_tax = self.current_interest(until, interest_rate) * 0.25;
        let church_tax = capital_tax * 0.08;
        let soli = capital_tax * 0.055;
        current_saving - capital_tax - church_tax - soli
    }

    fn sell(&mut self, netto_target: f64, interest_rate: f64, until: &Date) {
        let percentage_interest =
            self.current_interest(until, interest_rate) / self.current_saving(until, interest_rate);
        let netto_to_brutto = 1. + percentage_interest * 0.28375;
        let brutto_required = netto_target * netto_to_brutto;
        assert!(brutto_required <= self.current_saving(until, interest_rate));
        self.amount *= 1. - (brutto_required / self.current_saving(until, interest_rate));
    }
}

struct Savings {
    monthly_saving: f64,
    interest_rate: f64,
    cash_buffer_ratio: f64,
    portfolio: Portfolio,
    amounts: Vec<f64>,
}

impl Savings {
    fn new(monthly_saving: f64, interest_rate: f64, cash_buffer_ratio: f64, working_years: u32) -> Self {
        Savings {
            monthly_saving,
            interest_rate,
            cash_buffer_ratio,
            portfolio: Portfolio::new(working_years, 0),
            amounts: Vec::new(),
        }
    }

    fn seed(&mut self, amount: f64, date: Date) {
        self.portfolio.add_tranche(date);
        self.amounts.push(amount);
    }

    fn simulate_saving_phase(&mut self) {
        self.portfolio.simulate_accumulation();
        self.amounts.resize(self.portfolio.origins.len(), self.monthly_saving);
    }

    fn item(&self, tranche: usize) -> SavingItem {
        SavingItem { amount: self.amounts[tranche], date: self.portfolio.origins[tranche] }
    }

    fn total_savings(&self, until: &Date) -> f64 {
        self.portfolio
            .held_until(*until)
            .into_iter()
            .map(|tranche| self.item(tranche).current_saving(until, self.interest_rate))
            .sum()
    }

    /// The outcome, the net cash paid out, and the liquidated tranches in
    /// the order of their liquidation.
    fn simulate_withdrawal_phase(
        &self,
        monthly_withdrawal: f64,
        policy: WithdrawalPolicy,
        max_months: u32,
    ) -> (Outcome, f64, Vec<usize>) {
        let mut items: Vec<SavingItem> = (0..self.amounts.len()).map(|t| self.item(t)).collect();
        let total_cash_buffer =
            self.cash_buffer_ratio * self.total_savings(&self.portfolio.end_of_accumulation());
        let buffer_months = (total_cash_buffer / monthly_withdrawal) as u32;
        let mut run = Depletion::begin(&self.portfolio, policy, buffer_months, max_months);
        let mut total_withdrawal = 0.;
        let mut liquidated = Vec::new();
        let mut remaining = total_cash_buffer;
        loop {
            let at = run.date();
            let event = if !(remaining > 0.) {
                Event::Settled
            } else {
                match run.head() {
                    Some(head)
                        if items[head].current_savings_after_tax(&at, self.interest_rate) > remaining =>
                    {
                        Event::Covers
                    }
                    _ => Event::Short,
                }
            };
            let step = run.step(event);
            match step.trade {
                Some(Trade::Sell { tranche, at }) => {
                    total_withdrawal += remaining;
                    items[tranche].sell(remaining, self.interest_rate, &at);
                }
                Some(Trade::Liquidate { tranche, at }) => {
                    let after_tax = items[tranche].current_savings_after_tax(&at, self.interest_rate);
                    total_withdrawal += after_tax;
                    remaining -= after_tax;
                    liquidated.push(tranche);
                }
                None => {}
            }
            match step.next {
                Next::Pending => {}
                Next::Withdraw { .. } => remaining = monthly_withdrawal,
                Next::Finish(outcome) => {
                    if let Outcome::Exhausted { .. } = outcome {
                        total_withdrawal += total_cash_buffer;
                    }
                    return (outcome, total_withdrawal, liquidated);
                }
            }
        }
    }
}

fn close(a: f64, b: f64) -> bool {
    (a - b).abs() <= 1e-9 * b.abs()
}

#[test]
fn a_year_of_interest() {
    let item = SavingItem { amount: 1000.0, date: Date::new(0, 0, 0) };
    let until = Date::new(1, 0, 0);
    assert!(close(item.current_interest(&until, 0.05), 51.161897881733424));
    assert!(close(item.current_saving(&until, 0.05), 1051.161897881733424));
    let tax = 51.161897881733424 * 0.25 * (1.0 + 0.08 + 0.055);
    assert!(close(item.current_savings_after_tax(&until, 0.05), 1051.161897881733424 - tax));
    assert_eq!(item.current_interest(&Date::new(0, 0, 0), 0.05), 0.0);
}

#[test]
fn a_sale_shrinks_the_tranche() {
    let mut item = SavingItem { amount: 1000.0, date: Date::new(0, 0, 0) };
    item.sell(1000.0, 0.05, &Date::new(1, 0, 0));
    assert!(item.amount > 0.0 && item.amount < 1000.0);
    assert!(close(item.amount, 35.53333366138678));
    let before = item.amount;
    item.sell(0.0, 0.05, &Date::new(1, 0, 0));
    assert_eq!(item.amount, before);
}

#[test]
fn savings_are_valued_with_their_interest() {
    let mut savings = Savings::new(100.0, 0.05, 0.1, 2);
    savings.seed(1000.0, Date::new(0, 0, 0));
    savings.simulate_saving_phase();
    assert_eq!(savings.amounts.len(), 25);
    assert!(close(savings.total_savings(&Date::new(2, 0, 0)), 3634.027522514015));
    assert!(close(savings.total_savings(&Date::new(0, 0, 0)), 1100.0));
}

#[test]
fn fifo_and_lifo_part_ways() {
    let mut savings = Savings::new(500.0, 0.05, 0.1, 10);
    savings.simulate_saving_phase();
    let (fifo, fifo_total, fifo_liquidated) =
        savings.simulate_withdrawal_phase(500.0, WithdrawalPolicy::Fifo, 6000);
    let (lifo, lifo_total, lifo_liquidated) =
        savings.simulate_withdrawal_phase(500.0, WithdrawalPolicy::Lifo, 6000);
    assert_eq!(fifo, Outcome::Exhausted { months_survived: 186 });
    assert_eq!(lifo, Outcome::Exhausted { months_survived: 189 });
    assert_ne!(fifo, lifo);
    assert!(close(fifo_total, 101312.6967917573));
    assert!(close(lifo_total, 102905.72002518618));
    assert_eq!(fifo_liquidated, liquidation_order(&savings.portfolio.origins, WithdrawalPolicy::Fifo));
    assert_eq!(lifo_liquidated, liquidation_order(&savings.portfolio.origins, WithdrawalPolicy::Lifo));
    assert_eq!(savings.amounts, vec![500.0; 120]);
}

#[test]
fn a_seeded_portfolio_is_drawn_down() {
    let mut savings = Savings::new(100.0, 0.05, 0.1, 2);
    savings.seed(1000.0, Date::new(0, 0, 0));
    savings.simulate_saving_phase();
    let (fifo, fifo_total, _) = savings.simulate_withdrawal_phase(200.0, WithdrawalPolicy::Fifo, 2400);
    let (lifo, lifo_total, _) = savings.simulate_withdrawal_phase(200.0, WithdrawalPolicy::Lifo, 2400);
    assert_eq!(fifo, Outcome::Exhausted { months_survived: 17 });
    assert_eq!(lifo, Outcome::Exhausted { months_survived: 17 });
    assert!(close(fifo_total, 4007.662113251667));
    assert!(close(lifo_total, 4009.27482100768));
}

#[test]
fn a_buffer_of_everything_cannot_be_raised() {
    let mut savings = Savings::new(100.0, 0.05, 1.0, 3);
    savings.simulate_saving_phase();
    for policy in [WithdrawalPolicy::Fifo, WithdrawalPolicy::Lifo] {
        let (outcome, _, liquidated) = savings.simulate_withdrawal_phase(150.0, policy, 2400);
        assert_eq!(outcome, Outcome::BufferUnfunded);
        assert_eq!(liquidated.len(), 36);
    }
}

#[test]
fn without_interest_the_whole_can_be_the_buffer() {
    let mut savings = Savings::new(100.0, 0.0, 1.0, 3);
    savings.simulate_saving_phase();
    let (outcome, total, _) = savings.simulate_withdrawal_phase(150.0, WithdrawalPolicy::Fifo, 2400);
    assert_eq!(outcome, Outcome::Exhausted { months_survived: 24 });
    assert_eq!(total, 7200.0);
}

#[test]
fn a_portfolio_that_outgrows_the_withdrawals_reaches_the_cap() {
    let mut savings = Savings::new(500.0, 0.05, 0.1, 40);
    savings.seed(50000.0, Date::new(0, 0, 0));
    savings.simulate_saving_phase();
    let (outcome, total, _) = savings.simulate_withdrawal_phase(1000.0, WithdrawalPolicy::Fifo, 2400);
    assert_eq!(outcome, Outcome::CapReached { months: 2400 });
    assert!(close(total, 2513411.0152790593));
}

#[test]
fn no_buffer_no_months_of_grace() {
    let mut savings = Savings::new(100.0, 0.05, 0.0, 1);
    savings.simulate_saving_phase();
    let (fifo, fifo_total, _) = savings.simulate_withdrawal_phase(100.0, WithdrawalPolicy::Fifo, 2400);
    let (lifo, lifo_total, _) = savings.simulate_withdrawal_phase(100.0, WithdrawalPolicy::Lifo, 2400);
    assert_eq!(fifo, Outcome::Exhausted { months_survived: 12 });
    assert_eq!(lifo, Outcome::Exhausted { months_survived: 12 });
    assert!(close(fifo_total, 1245.0341482933534));
    assert!(close(lifo_total, 1245.1852326989049));
}
