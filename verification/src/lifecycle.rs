//! The order in which the parts of the proxy come up and go down.

use vstd::prelude::*;

verus! {

/// The parts of the proxy.
#[derive(Debug, Clone, Copy, PartialEq, Eq, Structural)]
pub enum Part {
    Logger,
    MetricsRegistry,
    RateLimiter,
    Producer,
    WalWriter,
    WalDrain,
    HttpServer,
    MetricsServer,
    SignalHandler,
}

/// The steps of a shutdown.
#[derive(Debug, Clone, Copy, PartialEq, Eq, Structural)]
pub enum Halt {
    /// Take no new HTTP connections.
    StopAccepting,
    /// Wait for the pushes in flight.
    AwaitHandlers,
    /// Stop the drain loop, once it is done with its segment.
    StopWalDrain,
    /// Close the producer, which flushes its queue.
    CloseProducer,
    /// Close the writer, which seals the active segment.
    CloseWalWriter,
    CloseMetricsServer,
    CloseLogger,
}

/// The order of startup: each part comes up after those it leans on.
pub open spec fn startup_order() -> Seq<Part> {
    seq![
        Part::Logger,
        Part::MetricsRegistry,
        Part::RateLimiter,
        Part::Producer,
        Part::WalWriter,
        Part::WalDrain,
        Part::HttpServer,
        Part::MetricsServer,
        Part::SignalHandler,
    ]
}

/// The order of shutdown on an interrupt or a termination signal.
pub open spec fn shutdown_order() -> Seq<Halt> {
    seq![
        Halt::StopAccepting,
        Halt::AwaitHandlers,
        Halt::StopWalDrain,
        Halt::CloseProducer,
        Halt::CloseWalWriter,
        Halt::CloseMetricsServer,
        Halt::CloseLogger,
    ]
}

/// The parts in the order of startup.
pub fn startup() -> (order: Vec<Part>)
    ensures
        order@ == startup_order(),
{
    let mut order: Vec<Part> = Vec::new();
    order.push(Part::Logger);
    order.push(Part::MetricsRegistry);
    order.push(Part::RateLimiter);
    order.push(Part::Producer);
    order.push(Part::WalWriter);
    order.push(Part::WalDrain);
    order.push(Part::HttpServer);
    order.push(Part::MetricsServer);
    order.push(Part::SignalHandler);
    assert(order@ =~= startup_order());
    order
}

/// The steps of a shutdown, in order.
pub fn shutdown() -> (order: Vec<Halt>)
    ensures
        order@ == shutdown_order(),
{
    let mut order: Vec<Halt> = Vec::new();
    order.push(Halt::StopAccepting);
    order.push(Halt::AwaitHandlers);
    order.push(Halt::StopWalDrain);
    order.push(Halt::CloseProducer);
    order.push(Halt::CloseWalWriter);
    order.push(Halt::CloseMetricsServer);
    order.push(Halt::CloseLogger);
    assert(order@ =~= shutdown_order());
    order
}

} // verus!
