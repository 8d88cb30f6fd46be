//! The producer side: its settings, and what its statistics and sends mean
//! for the metrics.

pub mod client;
pub mod config;
pub mod producer;
