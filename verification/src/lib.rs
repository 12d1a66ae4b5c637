//! The core of a live-visualization telemetry bus: normalized time types,
//! a channel-and-sink routing table, a connection-graph diff engine, a
//! service registry with call admission, per-client subscription accounting
//! with bounded outbound queues, and the wire framing and JSON documents of
//! the websocket sub-protocol. Every operation states its effect in a
//! contract, and the embedding code drives sockets and schedulers with the
//! values these operations decide.

use vstd::prelude::*;

verus! {

/// An error surfaced to the embedding code by the library.
#[derive(Clone, Copy, Debug, PartialEq, Eq, Structural)]
pub enum FoxgloveError {
    /// A duration conversion fell outside the representable range.
    DurationOutOfRange,
    /// A timestamp conversion fell outside the representable range.
    TimestampOutOfRange,
    /// A service name or id collides with a registered service.
    DuplicateService,
    /// The server was not configured with the services capability.
    ServicesNotSupported,
    /// The server was not configured with the connection-graph capability.
    ConnectionGraphNotSupported,
    /// The server could not bind its address.
    Bind,
    /// The process-wide channel identities are exhausted.
    ChannelsExhausted,
}

/// Error returned by range-checked time conversions.
#[derive(Clone, Copy, Debug, PartialEq, Eq, Structural)]
pub enum RangeError {
    /// The value is below the representable range.
    LowerBound,
    /// The value is above the representable range.
    UpperBound,
}

} // verus!

pub mod buffer;
pub mod client;
pub mod client_ops;
pub mod codegen;
pub mod connection_graph;
pub mod fetch_asset;
pub mod framing;
pub mod json;
pub mod semaphore;
pub mod server;
pub mod service;
pub mod sink;
pub mod text;
pub mod time;
