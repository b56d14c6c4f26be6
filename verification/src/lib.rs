//! Calendar and control logic of a retirement-portfolio simulation.
//!
//! A portfolio is a list of dated tranches that is filled month by month
//! while contributions are made and then liquidated, oldest first or newest
//! first, to pay a monthly withdrawal. This library holds the part of that
//! simulation that is decided in whole numbers: the calendar, the order in
//! which tranches are liquidated, and the course of the depletion run.
//! Amounts of money are real-valued and stay with the caller, who names a
//! tranche by its index.

pub mod date;
pub mod depletion;
pub mod order;
pub mod portfolio;
