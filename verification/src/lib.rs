//! A Kafka producer proxy: the rules by which an HTTP batch of records is
//! admitted, dispatched and answered, the sliding-window rate limiter, and the
//! framing of the write-ahead log.

pub mod clock;
pub mod config;
pub mod http;
pub mod ident;
pub mod kafka;
pub mod lifecycle;
pub mod log;
pub mod metrics;
pub mod ratelimit;
pub mod text;
pub mod wal;
pub mod yaml;
