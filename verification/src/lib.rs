//! A boost aggregation and threshold-triggered dispatch engine.
//!
//! Streams of small monetary "boost" events arrive from several independent
//! sources.  The library accumulates running totals, remembers which
//! thresholds have already fired, and decides which configured toggles
//! (effect triggers) should fire for a given boost.  The surrounding
//! process performs the network I/O: it feeds boosts in and carries the
//! firing decisions out to the effect transmitters.

pub mod assoc;
pub mod boost_filter;
pub mod boosts;
pub mod config;
pub mod dispatch;
pub mod dmx;
pub mod errors;
pub mod nwc;
pub mod sacn;
pub mod sat_tracker;
pub mod status;
pub mod strutil;
pub mod supervisor;
pub mod toggle_policy;
pub mod wled;
pub mod zaps;

pub use sat_tracker::SatTracker;
