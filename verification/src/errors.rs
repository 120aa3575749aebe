//! Error types of the core, broker and exchange layers.
use crate::market::Price4;
use vstd::prelude::*;

verus! {

/// Generic core error.
///
/// Price and quantity payloads are carried as fixed-point `Price4`
/// values (ten-thousandths).
#[derive(Debug, Clone, PartialEq, Eq)]
pub enum CoreError {
    InvalidSymbol(String),
    InvalidPrice(Price4),
    InvalidQuantity(Price4),
    InvalidOrder(String),
    OrderNotFound(String),
    Serialization(String),
    Internal(String),
}

/// Errors reported by broker connections.
#[derive(Debug, Clone, PartialEq, Eq)]
pub enum BrokerError {
    ConnectionFailed(String),
    AuthenticationFailed(String),
    RateLimited { retry_after_secs: u64 },
    OrderRejected { reason: String, code: String },
    Timeout(String),
    Disconnected,
}

/// Errors originating from exchange connector operations.
#[derive(Debug, Clone, PartialEq, Eq)]
pub enum ExchangeError {
    WebSocket(String),
    StreamEnded,
    JsonParse(String),
    InvalidSymbol(String),
    RateLimited,
    Exchange(String),
    Http(String),
    ApiKeyNotConfigured,
    Core(CoreError),
    Internal(String),
}

} // verus!
