//! The HTTP side: the shapes of a push and of its answer, and how a batch is
//! dispatched and collated.

pub mod api;
pub mod handlers;
pub mod server;
