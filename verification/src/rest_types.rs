//! Response bodies of the Binance REST API, as plain values. Amounts are
//! the decimal text the exchange sends.
use vstd::prelude::*;

verus! {

/// `GET /api/v3/account`.
#[derive(Debug, Clone, PartialEq)]
pub struct BinanceAccountInfo {
    pub maker_commission: i64,
    pub taker_commission: i64,
    pub buyer_commission: i64,
    pub seller_commission: i64,
    pub can_trade: bool,
    pub can_withdraw: bool,
    pub can_deposit: bool,
    pub account_type: Option<String>,
    pub balances: Vec<BinanceBalance>,
    pub permissions: Vec<String>,
}

/// An asset balance of an account.
#[derive(Debug, Clone, PartialEq)]
pub struct BinanceBalance {
    pub asset: String,
    pub free: String,
    pub locked: String,
}

/// `POST /api/v3/order`.
#[derive(Debug, Clone, PartialEq)]
pub struct BinanceOrderResponse {
    pub symbol: String,
    pub order_id: i64,
    pub client_order_id: Option<String>,
    pub transact_time: Option<i64>,
    pub price: String,
    pub orig_qty: String,
    pub executed_qty: String,
    pub cummulative_quote_qty: String,
    pub status: String,
    pub time_in_force: String,
    pub order_type: String,
    pub side: String,
    pub fills: Option<Vec<BinanceOrderFill>>,
}

/// A fill of a new order.
#[derive(Debug, Clone, PartialEq)]
pub struct BinanceOrderFill {
    pub price: String,
    pub qty: String,
    pub commission: String,
    pub commission_asset: String,
    pub trade_id: i64,
}

/// `DELETE /api/v3/order`.
#[derive(Debug, Clone, PartialEq)]
pub struct BinanceCancelledOrder {
    pub symbol: String,
    pub orig_client_order_id: String,
    pub order_id: i64,
    pub client_order_id: String,
    pub price: String,
    pub orig_qty: String,
    pub executed_qty: String,
    pub cummulative_quote_qty: String,
    pub status: String,
    pub time_in_force: String,
    pub order_type: String,
    pub side: String,
}

/// A trade of `GET /api/v3/myTrades`.
#[derive(Debug, Clone, PartialEq)]
pub struct BinanceTrade {
    pub symbol: String,
    pub id: i64,
    pub order_id: i64,
    pub price: String,
    pub qty: String,
    pub commission: String,
    pub commission_asset: String,
    pub time: i64,
    pub is_buyer: bool,
    pub is_maker: bool,
    pub is_best_match: bool,
}

} // verus!
