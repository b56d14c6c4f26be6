//! The course of a depletion run.
//!
//! A run first raises the cash buffer and then one withdrawal a month, each
//! from the tranches at the head of the liquidation order. What a tranche is
//! worth is the caller's knowledge: the caller reports how the head compares
//! with what is owed, and the run answers with the trade to make and with
//! what comes next.

use crate::date::Date;
use crate::order::{goes_before, is_liquidation_order, liquidation_order, WithdrawalPolicy};
use crate::portfolio::Portfolio;
use vstd::prelude::*;

verus! {

/// How a run ended.
#[derive(PartialEq, Eq, Debug, Clone, Copy, Structural)]
pub enum Outcome {
    /// The tranches ran out while the cash buffer was raised: the buffer is
    /// too large for the portfolio.
    BufferUnfunded,
    /// The tranches ran out in a monthly withdrawal. The months survived are
    /// the monthly withdrawals met before, and the months that the buffer
    /// pays for.
    Exhausted { months_survived: u64 },
    /// All monthly withdrawals up to the cap were met.
    CapReached { months: u32 },
}

/// Where a run stands.
#[derive(PartialEq, Eq, Debug, Clone, Copy, Structural)]
pub enum Stage {
    /// The cash buffer is being raised.
    Buffer,
    /// The monthly withdrawal of this number is being raised; the first has
    /// number 0.
    Month(u32),
    /// The run is over.
    Over(Outcome),
}

/// What the caller found when it looked at the withdrawal in progress.
#[derive(PartialEq, Eq, Debug, Clone, Copy, Structural)]
pub enum Event {
    /// Nothing is owed, or nothing more.
    Settled,
    /// Something is owed, and the first tranche is worth more than that
    /// after tax.
    Covers,
    /// Something is owed, and the first tranche, if there is one, is worth
    /// no more than that after tax.
    Short,
}

/// A trade for the caller to make, valued at the date `at`.
#[derive(PartialEq, Eq, Debug, Clone, Copy, Structural)]
pub enum Trade {
    /// Sell from the tranche what is owed and no more.
    Sell { tranche: usize, at: Date },
    /// Take the whole of the tranche for what it is worth after tax.
    Liquidate { tranche: usize, at: Date },
}

/// What follows a step.
#[derive(PartialEq, Eq, Debug, Clone, Copy, Structural)]
pub enum Next {
    /// The withdrawal in progress goes on.
    Pending,
    /// The withdrawal in progress is met, and the next monthly withdrawal
    /// falls due at `at`.
    Withdraw { at: Date },
    /// The run is over.
    Finish(Outcome),
}

/// The answer to an event.
#[derive(PartialEq, Eq, Debug, Clone, Copy, Structural)]
pub struct Step {
    pub trade: Option<Trade>,
    pub next: Next,
}

impl Trade {
    /// The tranche that is traded.
    pub open spec fn tranche(self) -> usize {
        match self {
            Trade::Sell { tranche, .. } => tranche,
            Trade::Liquidate { tranche, .. } => tranche,
        }
    }
}

/// A run as a mathematical value.
pub struct Run {
    /// The tranches in the order of their liquidation.
    pub order: Seq<usize>,
    /// How many tranches of `order` are liquidated; the next is the head.
    pub cursor: int,
    /// The year in which depletion begins.
    pub start_year: u32,
    /// The months that the cash buffer pays for.
    pub buffer_months: u32,
    /// The number of monthly withdrawals after which the run is cut off.
    pub max_months: u32,
    /// Which withdrawal is in progress, or how the run ended.
    pub stage: Stage,
}

impl Run {
    /// The cursor is within the order, no tranche is listed twice, the
    /// withdrawal in progress lies below the cap, and the year of every
    /// withdrawal below the cap fits the calendar.
    pub open spec fn wf(self) -> bool {
        &&& 0 <= self.cursor <= self.order.len()
        &&& forall|i: int, j: int| 0 <= i < j < self.order.len() ==> self.order[i] != self.order[j]
        &&& self.max_months > 0 ==> self.start_year + (self.max_months - 1) / 12 <= u32::MAX
        &&& self.stage matches Stage::Month(k) ==> k < self.max_months
    }

    /// The date of the monthly withdrawal with number `k`.
    pub open spec fn month_date(self, k: int) -> Date {
        Date { year: (self.start_year + k / 12) as u32, month: (k % 12) as u8, day: 0 }
    }

    /// The date at which the withdrawal in progress is valued. The buffer is
    /// raised on the date of the first monthly withdrawal.
    pub open spec fn date(self) -> Date {
        match self.stage {
            Stage::Month(k) => self.month_date(k as int),
            _ => self.month_date(0),
        }
    }

    /// The head of the liquidation order, if a tranche is left.
    pub open spec fn head(self) -> Option<usize> {
        if 0 <= self.cursor < self.order.len() {
            Some(self.order[self.cursor])
        } else {
            None
        }
    }

    /// How a run ends that runs out of tranches now.
    pub open spec fn out_of_tranches(self) -> Outcome {
        match self.stage {
            Stage::Buffer => Outcome::BufferUnfunded,
            Stage::Month(k) => Outcome::Exhausted { months_survived: (k + self.buffer_months) as u64 },
            Stage::Over(outcome) => outcome,
        }
    }

    /// The withdrawal in progress is met: the next one begins, unless the
    /// cap is reached.
    pub open spec fn settle(self) -> (Run, Next) {
        let k: int = match self.stage {
            Stage::Month(k) => k + 1,
            _ => 0,
        };
        if k < self.max_months {
            (Run { stage: Stage::Month(k as u32), ..self }, Next::Withdraw { at: self.month_date(k) })
        } else {
            let outcome = Outcome::CapReached { months: self.max_months };
            (Run { stage: Stage::Over(outcome), ..self }, Next::Finish(outcome))
        }
    }

    /// The state after `event` and the answer to it.
    ///
    /// A run that is over stays as it is. A settled withdrawal makes way for
    /// the next. Where something is owed and no tranche is left, the run
    /// ends. Where the head covers what is owed, it is sold from and the
    /// withdrawal is met. Otherwise the head is liquidated and the
    /// withdrawal goes on with the tranche behind it.
    pub open spec fn step(self, event: Event) -> (Run, Step) {
        if let Stage::Over(outcome) = self.stage {
            (self, Step { trade: None, next: Next::Finish(outcome) })
        } else if event is Settled {
            (self.settle().0, Step { trade: None, next: self.settle().1 })
        } else if self.head() is None {
            let outcome = self.out_of_tranches();
            (Run { stage: Stage::Over(outcome), ..self }, Step { trade: None, next: Next::Finish(outcome) })
        } else if event is Covers {
            let trade = Trade::Sell { tranche: self.head()->0, at: self.date() };
            (self.settle().0, Step { trade: Some(trade), next: self.settle().1 })
        } else {
            let trade = Trade::Liquidate { tranche: self.head()->0, at: self.date() };
            (Run { cursor: self.cursor + 1, ..self }, Step { trade: Some(trade), next: Next::Pending })
        }
    }
}

impl Run {
    /// A bound on the number of steps that a run can still take before it is
    /// over: one for each tranche left, one for each withdrawal left to
    /// meet, and one to end on.
    pub open spec fn steps_left(self) -> nat {
        match self.stage {
            Stage::Buffer => (self.order.len() - self.cursor + self.max_months + 2) as nat,
            Stage::Month(k) => (self.order.len() - self.cursor + self.max_months - k + 1) as nat,
            Stage::Over(_) => 0,
        }
    }

    /// The state after one step for each of `events`, in turn.
    pub open spec fn after(self, events: Seq<Event>) -> Run
        decreases events.len(),
    {
        if events.len() == 0 {
            self
        } else {
            self.after(events.drop_last()).step(events.last()).0
        }
    }

    /// The answer to event `i` of `events`.
    pub open spec fn answer(self, events: Seq<Event>, i: int) -> Step {
        self.after(events.take(i)).step(events[i]).1
    }

    /// How many monthly withdrawals the answers to `events` have begun.
    pub open spec fn withdrawals_begun(self, events: Seq<Event>) -> nat
        decreases events.len(),
    {
        if events.len() == 0 {
            0
        } else if self.after(events.drop_last()).step(events.last()).1.next is Withdraw {
            self.withdrawals_begun(events.drop_last()) + 1
        } else {
            self.withdrawals_begun(events.drop_last())
        }
    }
}

/// A step keeps a run well formed, its order and its limits as they are, and
/// moves the cursor on by one tranche at most.
pub proof fn lemma_step_keeps_course(run: Run, event: Event)
    requires
        run.wf(),
    ensures
        run.step(event).0.wf(),
        run.step(event).0.order == run.order,
        run.step(event).0.start_year == run.start_year,
        run.step(event).0.buffer_months == run.buffer_months,
        run.step(event).0.max_months == run.max_months,
        run.cursor <= run.step(event).0.cursor <= run.cursor + 1,
        run.stage is Over ==> run.step(event).0 == run,
{
}

/// Every step of a run that is not over brings the end nearer, whatever the
/// event.
pub proof fn lemma_step_nears_end(run: Run, event: Event)
    requires
        run.wf(),
        !(run.stage is Over),
    ensures
        run.step(event).0.steps_left() < run.steps_left(),
{
}

/// Steps keep a run well formed, its order and its limits as they are, and
/// never move the cursor back; a run that is over stays as it is.
pub proof fn lemma_run_keeps_course(run: Run, events: Seq<Event>)
    requires
        run.wf(),
    ensures
        run.after(events).wf(),
        run.after(events).order == run.order,
        run.after(events).start_year == run.start_year,
        run.after(events).buffer_months == run.buffer_months,
        run.after(events).max_months == run.max_months,
        run.cursor <= run.after(events).cursor,
        run.stage is Over ==> run.after(events) == run,
    decreases events.len(),
{
    if events.len() > 0 {
        lemma_run_keeps_course(run, events.drop_last());
        lemma_step_keeps_course(run.after(events.drop_last()), events.last());
    }
}

/// A run is over after as many steps as `steps_left` allows, whatever the
/// events: no sequence of comparisons keeps it going for ever.
pub proof fn lemma_run_ends(run: Run, events: Seq<Event>)
    requires
        run.wf(),
    ensures
        run.after(events).stage is Over || run.after(events).steps_left() + events.len()
            <= run.steps_left(),
        events.len() >= run.steps_left() ==> run.after(events).stage is Over,
    decreases events.len(),
{
    if events.len() > 0 {
        let before = run.after(events.drop_last());
        lemma_run_ends(run, events.drop_last());
        lemma_run_keeps_course(run, events.drop_last());
        if !(before.stage is Over) {
            lemma_step_nears_end(before, events.last());
        }
    }
}

/// Taking the steps of `first` and then those of `rest` is taking the steps
/// of both in a row.
pub proof fn lemma_after_in_two_parts(run: Run, first: Seq<Event>, rest: Seq<Event>)
    ensures
        run.after(first + rest) == run.after(first).after(rest),
    decreases rest.len(),
{
    if rest.len() == 0 {
        assert(first + rest =~= first);
    } else {
        assert((first + rest).drop_last() =~= first + rest.drop_last());
        lemma_after_in_two_parts(run, first, rest.drop_last());
    }
}

/// Two trades of one run in the same tranche: the first of them is a sale,
/// and with it a withdrawal was met and the next begun. So a tranche that
/// was liquidated is never traded again, and no withdrawal both sells from a
/// tranche and liquidates it.
pub proof fn lemma_same_tranche_twice(run: Run, events: Seq<Event>, i: int, j: int)
    requires
        run.wf(),
        0 <= i < j < events.len(),
        run.answer(events, i).trade is Some,
        run.answer(events, j).trade is Some,
        run.answer(events, i).trade->0.tranche() == run.answer(events, j).trade->0.tranche(),
    ensures
        run.answer(events, i).trade->0 is Sell,
        run.answer(events, i).next is Withdraw,
{
    let first = run.after(events.take(i));
    let then = first.step(events[i]).0;
    let between = events.subrange(i + 1, j);
    lemma_run_keeps_course(run, events.take(i));
    lemma_step_keeps_course(first, events[i]);
    lemma_run_keeps_course(then, between);
    assert(run.after(events.take(j)) == then.after(between)) by {
        assert(events.take(i + 1).drop_last() =~= events.take(i));
        assert(events.take(j) =~= events.take(i + 1) + between);
        lemma_after_in_two_parts(run, events.take(i + 1), between);
    }
}

/// A run that runs out of tranches ends by the stage it is in. While the
/// buffer is raised it ends as unfunded, and no run ends so for any other
/// reason. In monthly withdrawal `k` it ends as exhausted after `k` months
/// and those of the buffer, and no run is exhausted while the buffer is
/// raised.
pub proof fn lemma_ends_by_stage(run: Run, event: Event)
    requires
        run.wf(),
        !(run.stage is Over),
    ensures
        run.step(event).1.next == Next::Finish(Outcome::BufferUnfunded) <==> run.stage is Buffer
            && !(event is Settled) && run.head() is None,
        run.stage matches Stage::Month(k) ==> (run.step(event).1.next == Next::Finish(
            Outcome::Exhausted { months_survived: (k + run.buffer_months) as u64 },
        ) <==> !(event is Settled) && run.head() is None),
        run.step(event).1.next matches Next::Finish(Outcome::Exhausted { .. }) ==> run.stage is Month,
{
}

/// The months of a run are the monthly withdrawals that it has met. A run
/// from the buffer stage on that stands in monthly withdrawal `k` has begun
/// `k + 1` of them; one that is exhausted has met all that it began but the
/// last, and survived that many months and those of the buffer; one that
/// reached the cap has begun and met as many as the cap allows. While the
/// buffer is raised, and where it cannot be raised, none has begun.
pub proof fn lemma_months_are_withdrawals_met(run: Run, events: Seq<Event>)
    requires
        run.wf(),
        run.stage is Buffer,
    ensures
        match run.after(events).stage {
            Stage::Buffer => run.withdrawals_begun(events) == 0,
            Stage::Month(k) => run.withdrawals_begun(events) == k + 1,
            Stage::Over(Outcome::BufferUnfunded) => run.withdrawals_begun(events) == 0,
            Stage::Over(Outcome::Exhausted { months_survived }) => run.withdrawals_begun(events) >= 1
                && months_survived == run.withdrawals_begun(events) - 1 + run.buffer_months,
            Stage::Over(Outcome::CapReached { months }) => run.withdrawals_begun(events) == months
                && months == run.max_months,
        },
    decreases events.len(),
{
    if events.len() > 0 {
        lemma_months_are_withdrawals_met(run, events.drop_last());
        lemma_run_keeps_course(run, events.drop_last());
    }
}

/// A depletion run over the tranches of a portfolio.
pub struct Depletion {
    order: Vec<usize>,
    cursor: usize,
    start_year: u32,
    buffer_months: u32,
    max_months: u32,
    stage: Stage,
}

impl View for Depletion {
    type V = Run;

    closed spec fn view(&self) -> Run {
        Run {
            order: self.order@,
            cursor: self.cursor as int,
            start_year: self.start_year,
            buffer_months: self.buffer_months,
            max_months: self.max_months,
            stage: self.stage,
        }
    }
}

impl Depletion {
    #[verifier::type_invariant]
    spec fn well_formed(self) -> bool {
        self@.wf()
    }

    /// A run over the tranches of `portfolio` in the order of `policy`. It
    /// begins with the cash buffer, which pays for `buffer_months` months,
    /// and is cut off after `max_months` monthly withdrawals.
    pub fn begin(
        portfolio: &Portfolio,
        policy: WithdrawalPolicy,
        buffer_months: u32,
        max_months: u32,
    ) -> (run: Depletion)
        requires
            max_months > 0 ==> portfolio.accumulation_years + (max_months - 1) / 12 <= u32::MAX,
        ensures
            run@.wf(),
            is_liquidation_order(portfolio.origins@, policy, run@.order),
            run@.cursor == 0,
            run@.start_year == portfolio.accumulation_years,
            run@.buffer_months == buffer_months,
            run@.max_months == max_months,
            run@.stage == Stage::Buffer,
    {
        let order = liquidation_order(&portfolio.origins, policy);
        assert forall|i: int, j: int| 0 <= i < j < order.len() implies order[i] != order[j] by {
            assert(goes_before(portfolio.origins@, policy, order[i] as int, order[j] as int));
        }
        Depletion {
            order,
            cursor: 0,
            start_year: portfolio.accumulation_years,
            buffer_months,
            max_months,
            stage: Stage::Buffer,
        }
    }

    fn month_date(&self, k: u32) -> (date: Date)
        requires
            k < self.max_months,
        ensures
            date == self@.month_date(k as int),
    {
        proof {
            use_type_invariant(self);
        }
        Date::new(self.start_year + k / 12, (k % 12) as u8, 0)
    }

    /// The date at which the withdrawal in progress is valued.
    pub fn date(&self) -> (date: Date)
        ensures
            date == self@.date(),
    {
        proof {
            use_type_invariant(self);
        }
        match self.stage {
            Stage::Month(k) => self.month_date(k),
            _ => Date::new(self.start_year, 0, 0),
        }
    }

    /// The first tranche that is not liquidated, if there is one.
    pub fn head(&self) -> (head: Option<usize>)
        ensures
            head == self@.head(),
    {
        proof {
            use_type_invariant(self);
        }
        if self.cursor < self.order.len() {
            Some(self.order[self.cursor])
        } else {
            None
        }
    }

    /// Where the run stands.
    pub fn stage(&self) -> (stage: Stage)
        ensures
            stage == self@.stage,
    {
        self.stage
    }

    fn settle(&mut self) -> (next: Next)
        requires
            !(old(self)@.stage is Over),
        ensures
            (final(self)@, next) == old(self)@.settle(),
    {
        proof {
            use_type_invariant(&*self);
        }
        let k: u32 = match self.stage {
            Stage::Month(k) => k + 1,
            _ => 0,
        };
        if k < self.max_months {
            self.stage = Stage::Month(k);
            Next::Withdraw { at: self.month_date(k) }
        } else {
            let outcome = Outcome::CapReached { months: self.max_months };
            self.stage = Stage::Over(outcome);
            Next::Finish(outcome)
        }
    }

    /// Takes the run one step on: the caller reports what it found, makes
    /// the trade that the answer names, and goes by `next`.
    pub fn step(&mut self, event: Event) -> (step: Step)
        ensures
            (final(self)@, step) == old(self)@.step(event),
            final(self)@.wf(),
    {
        proof {
            use_type_invariant(&*self);
        }
        if let Stage::Over(outcome) = self.stage {
            return Step { trade: None, next: Next::Finish(outcome) };
        }
        let at = self.date();
        match (event, self.head()) {
            (Event::Settled, _) => {
                let next = self.settle();
                Step { trade: None, next }
            },
            (_, None) => {
                let outcome = match self.stage {
                    Stage::Buffer => Outcome::BufferUnfunded,
                    Stage::Month(k) => Outcome::Exhausted {
                        months_survived: k as u64 + self.buffer_months as u64,
                    },
                    Stage::Over(outcome) => outcome,
                };
                self.stage = Stage::Over(outcome);
                Step { trade: None, next: Next::Finish(outcome) }
            },
            (Event::Covers, Some(tranche)) => {
                let next = self.settle();
                Step { trade: Some(Trade::Sell { tranche, at }), next }
            },
            (Event::Short, Some(tranche)) => {
                assert(self.cursor < self.order.len());
                self.cursor = self.cursor + 1;
                Step { trade: Some(Trade::Liquidate { tranche, at }), next: Next::Pending }
            },
        }
    }
}

} // verus!
