//! Vanity address search over the child addresses of a ranged output descriptor.

pub mod classify;
pub mod coordinator;
pub mod descriptor;
pub mod error;
pub mod matching;
pub mod partition;
pub mod report;
pub mod search;
pub mod stop;
pub mod worker;
