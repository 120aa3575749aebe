//! Domain primitives shared by the feeds, brokers and UI.
use vstd::prelude::*;

verus! {

/// A symbol identifier stored as zero-padded ASCII bytes.
pub type Symbol = [u8; 8];

/// Timestamp in nanoseconds since the Unix epoch.
pub type TimestampNanos = i64;

/// Price with 4 decimal places, stored as an integer number of
/// ten-thousandths for exact representation.
#[derive(Debug, Clone, Copy, PartialEq, Eq, PartialOrd, Ord, Hash, Structural)]
pub struct Price4(pub i64);

/// Connection state for an exchange or broker.
#[derive(Debug, Clone, Copy, PartialEq, Eq, Structural)]
pub enum ConnectionState {
    Connected,
    Disconnected,
    Reconnecting { attempt: u32 },
}

/// Severity level for risk alerts.
#[derive(Debug, Clone, Copy, PartialEq, Eq, Structural)]
pub enum AlertSeverity {
    Info,
    Warning,
    Critical,
}

/// Trading status for a symbol.
#[derive(Debug, Clone, Copy, PartialEq, Eq, Structural)]
pub enum TradingStatus {
    Trading,
    Halted,
    Paused,
    Closed,
}

} // verus!
