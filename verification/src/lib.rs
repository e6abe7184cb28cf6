//! A concurrency-bounded TCP sweep of a subnet, as a set of verified decisions.
//!
//! The crate holds everything a sweep decides: which addresses of a subnet are
//! hosts, how many probes may be in flight, what a connect attempt and a banner
//! exchange amount to, and what is reported for a target. Sockets, timers and
//! the terminal belong to the caller, who performs the actions these functions
//! hand out and feeds the results back in.

pub mod address;
pub mod banner;
pub mod budget;
pub mod coordinator;
pub mod enumerator;
pub mod error;
pub mod options;
pub mod randomizer;
pub mod report;
pub mod subnet;
pub mod sweep;
pub mod target;
