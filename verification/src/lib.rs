//! A sliding-window "actions per minute" counter.
//!
//! Each frame the host feeds the tracker the set of currently pressed
//! mouse buttons and keyboard keys together with the current time; the
//! tracker records one action per device whose set changed, evicts
//! actions older than the trailing window, and reports the count of the
//! remaining actions as the rate.

pub mod model;
pub mod tracker;
pub mod laws;
