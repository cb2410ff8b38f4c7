//! The planning and collecting core of a TCP connect scanner.
//!
//! A scan is configured as a [`target::ScanTarget`], divided among workers by
//! [`partition`], and its discoveries are gathered and ordered by
//! [`collect::Collector`] and written out by [`report`]. The [`driver`] ties
//! the phases together as a state machine whose transitions are pure: the
//! caller makes the connection attempts and feeds the outcomes back.
//! [`outcome`] states what a whole scan reports, whichever worker is first.

pub mod target;
pub mod partition;
pub mod collect;
pub mod report;
pub mod outcome;
pub mod driver;
