//! Decoding of the account event stream: balance snapshots, order
//! execution reports, single balance changes and order-list status.
//!
//! Amounts are kept as the decimal text the exchange sent; a field is
//! accepted as an amount when `f64::from_str` would accept its text.
use crate::errors::ExchangeError;
use crate::fields::{
    bool_field_or, bool_or, decimal_field, decimal_field_or_zero, first_error, lemma_first_error_prefix, number_text, number_text_or_zero, decimal_or_zero, opt_string_view,
    optional_decimal, optional_str, read_document, require_decimal, require_i64, require_str,
    str_field_or, str_field_or_default,
};
use crate::json::{get_str, json_array, json_error_text, json_get, json_i64, json_parse, json_str, str_eq, Json};
use vstd::prelude::*;

verus! {

/// One asset's free and locked balance.
#[derive(Debug, Clone, PartialEq)]
pub struct AssetBalance {
    pub asset: String,
    pub free: String,
    pub locked: String,
}

/// Balance snapshot of all assets (`outboundAccountPosition`).
#[derive(Debug, Clone, PartialEq)]
pub struct AccountUpdateEvent {
    pub event_time: i64,
    pub balances: Vec<AssetBalance>,
}

/// Order execution report (`executionReport`).
#[derive(Debug, Clone, PartialEq)]
pub struct OrderUpdateEvent {
    pub event_time: i64,
    pub symbol: String,
    pub client_order_id: String,
    pub order_id: i64,
    pub side: String,
    pub order_type: String,
    pub time_in_force: String,
    pub orig_qty: String,
    pub cum_filled_qty: String,
    pub cum_quote_qty: String,
    pub last_filled_qty: String,
    pub last_filled_price: String,
    pub commission: Option<String>,
    pub commission_asset: Option<String>,
    pub current_status: String,
    pub is_on_book: bool,
    pub is_maker: bool,
}

/// Change of one asset's balance (`balanceUpdate`).
#[derive(Debug, Clone, PartialEq)]
pub struct BalanceUpdateEvent {
    pub event_time: i64,
    pub asset: String,
    pub delta: String,
}

/// Status change of an order list (`listStatus`).
#[derive(Debug, Clone, PartialEq)]
pub struct ListStatusEvent {
    pub event_time: i64,
    pub symbol: String,
    pub order_list_id: i64,
    pub list_status: String,
    pub list_order_status: String,
}

/// A decoded account-stream event.
#[derive(Debug, Clone, PartialEq)]
pub enum UserDataEvent {
    AccountUpdate(AccountUpdateEvent),
    OrderUpdate(OrderUpdateEvent),
    BalanceUpdate(BalanceUpdateEvent),
    ListStatus(ListStatusEvent),
}

// ── Balances ────────────────────────────────────────────────────────────

/// Why a balance entry is refused, if it is.
pub open spec fn balance_error(b: Json) -> Option<Seq<char>> {
    if json_str(json_get(b, "a"@)) is None {
        Some("balance missing asset"@)
    } else if decimal_field(b, "f"@) is None {
        Some("balance missing free"@)
    } else if decimal_field(b, "l"@) is None {
        Some("balance missing locked"@)
    } else {
        None
    }
}

/// `x` holds the fields of the balance entry `b`.
pub open spec fn balance_matches(b: Json, x: AssetBalance) -> bool {
    &&& json_str(json_get(b, "a"@)) == Some(x.asset@)
    &&& decimal_field(b, "f"@) == Some(x.free@)
    &&& decimal_field(b, "l"@) == Some(x.locked@)
}

/// The error of the first refused entry, if any.
pub open spec fn first_balance_error(bs: Seq<Json>) -> Option<Seq<char>> {
    first_error(bs, balance_check())
}

/// The check of one balance entry.
pub open spec fn balance_check() -> spec_fn(Json) -> Option<Seq<char>> {
    |b: Json| balance_error(b)
}

/// Why a balance snapshot is refused, if it is.
pub open spec fn account_update_error(j: Json) -> Option<Seq<char>> {
    if json_i64(json_get(j, "E"@)) is None {
        Some("account update missing event time"@)
    } else {
        match json_array(json_get(j, "B"@)) {
            None => Some("account update missing balances"@),
            Some(bs) => first_balance_error(bs),
        }
    }
}

/// `e` holds the fields of the balance snapshot `j`.
pub open spec fn account_update_matches(j: Json, e: AccountUpdateEvent) -> bool {
    &&& json_i64(json_get(j, "E"@)) == Some(e.event_time)
    &&& json_array(json_get(j, "B"@)) matches Some(bs)
    &&& bs.len() == e.balances@.len()
    &&& forall|i: int| 0 <= i < bs.len() ==> balance_matches(bs[i], #[trigger] e.balances@[i])
}

fn parse_balance(b: &Json) -> (r: Result<AssetBalance, ExchangeError>)
    ensures
        match balance_error(*b) {
            Some(m) => r matches Err(ExchangeError::JsonParse(x)) && x@ == m,
            None => r matches Ok(x) && balance_matches(*b, x),
        },
{
    let asset = match require_str(b, "a", "balance missing asset") {
        Ok(s) => s,
        Err(e) => return Err(e),
    };
    let free = match require_decimal(b, "f", "balance missing free") {
        Ok(s) => s,
        Err(e) => return Err(e),
    };
    let locked = match require_decimal(b, "l", "balance missing locked") {
        Ok(s) => s,
        Err(e) => return Err(e),
    };
    Ok(AssetBalance { asset, free, locked })
}

/// Decode a balance snapshot (`outboundAccountPosition`): the event
/// time `E` and every entry of `B` with its asset `a` and amounts `f`
/// and `l`; the first missing field is reported.
pub fn parse_account_update(raw: &Json) -> (r: Result<AccountUpdateEvent, ExchangeError>)
    ensures
        match account_update_error(*raw) {
            Some(m) => r matches Err(ExchangeError::JsonParse(x)) && x@ == m,
            None => r matches Ok(e) && account_update_matches(*raw, e),
        },
{
    let event_time = match require_i64(raw, "E", "account update missing event time") {
        Ok(x) => x,
        Err(e) => return Err(e),
    };
    let entries = match raw.get("B") {
        Some(v) => v.as_array(),
        None => None,
    };
    let entries = match entries {
        Some(a) => a,
        None => {
            return Err(ExchangeError::JsonParse(crate::text::to_owned_string("account update missing balances")));
        },
    };
    let ghost bs = entries@;
    let n = entries.len();
    let mut balances: Vec<AssetBalance> = Vec::new();
    let mut i: usize = 0;
    while i < n
        invariant
            n == bs.len(),
            bs == entries@,
            json_array(json_get(*raw, "B"@)) == Some(bs),
            json_i64(json_get(*raw, "E"@)) == Some(event_time),
            i <= n,
            first_balance_error(bs.take(i as int)) is None,
            balances@.len() == i,
            forall|k: int| 0 <= k < i ==> balance_matches(bs[k], #[trigger] balances@[k]),
        decreases n - i,
    {
        proof {
            assert(bs.take(i + 1).drop_last() =~= bs.take(i as int));
            assert(bs.take(i + 1).last() == bs[i as int]);
        }
        match parse_balance(&entries[i]) {
            Ok(x) => {
                balances.push(x);
            },
            Err(e) => {
                proof {
                    assert(first_balance_error(bs.take(i + 1)) == balance_error(bs[i as int]));
                    lemma_first_error_prefix(bs, balance_check(), i as int + 1);
                }
                return Err(e);
            },
        }
        i = i + 1;
    }
    proof {
        assert(bs.take(n as int) =~= bs);
    }
    Ok(AccountUpdateEvent { event_time, balances })
}

// ── Execution reports ───────────────────────────────────────────────────

/// Why an execution report is refused, if it is: the first required
/// field that is missing.
pub open spec fn order_update_error(j: Json) -> Option<Seq<char>> {
    if json_i64(json_get(j, "E"@)) is None {
        Some("order update missing event time"@)
    } else if json_str(json_get(j, "s"@)) is None {
        Some("order update missing symbol"@)
    } else if json_str(json_get(j, "c"@)) is None {
        Some("order update missing client order id"@)
    } else if json_i64(json_get(j, "i"@)) is None {
        Some("order update missing order id"@)
    } else if json_str(json_get(j, "S"@)) is None {
        Some("order update missing side"@)
    } else if json_str(json_get(j, "o"@)) is None {
        Some("order update missing order type"@)
    } else if decimal_field(j, "q"@) is None {
        Some("order update missing original quantity"@)
    } else if json_str(json_get(j, "X"@)) is None {
        Some("order update missing status"@)
    } else {
        None
    }
}

/// `e` holds the fields of the execution report `j`: optional amounts
/// default to "0", the time in force to "", the flags to false.
pub open spec fn order_update_matches(j: Json, e: OrderUpdateEvent) -> bool {
    &&& json_i64(json_get(j, "E"@)) == Some(e.event_time)
    &&& json_str(json_get(j, "s"@)) == Some(e.symbol@)
    &&& json_str(json_get(j, "c"@)) == Some(e.client_order_id@)
    &&& json_i64(json_get(j, "i"@)) == Some(e.order_id)
    &&& json_str(json_get(j, "S"@)) == Some(e.side@)
    &&& json_str(json_get(j, "o"@)) == Some(e.order_type@)
    &&& e.time_in_force@ == str_field_or(j, "f"@, ""@)
    &&& decimal_field(j, "q"@) == Some(e.orig_qty@)
    &&& e.cum_filled_qty@ == decimal_or_zero(j, "z"@)
    &&& e.cum_quote_qty@ == decimal_or_zero(j, "Z"@)
    &&& e.last_filled_qty@ == decimal_or_zero(j, "l"@)
    &&& e.last_filled_price@ == decimal_or_zero(j, "L"@)
    &&& opt_string_view(e.commission) == decimal_field(j, "n"@)
    &&& opt_string_view(e.commission_asset) == json_str(json_get(j, "N"@))
    &&& json_str(json_get(j, "X"@)) == Some(e.current_status@)
    &&& e.is_on_book == bool_field_or(j, "w"@, false)
    &&& e.is_maker == bool_field_or(j, "m"@, false)
}

/// Decode an execution report (`executionReport`).
pub fn parse_order_update(raw: &Json) -> (r: Result<OrderUpdateEvent, ExchangeError>)
    ensures
        match order_update_error(*raw) {
            Some(m) => r matches Err(ExchangeError::JsonParse(x)) && x@ == m,
            None => r matches Ok(e) && order_update_matches(*raw, e),
        },
{
    let event_time = match require_i64(raw, "E", "order update missing event time") {
        Ok(x) => x,
        Err(e) => return Err(e),
    };
    let symbol = match require_str(raw, "s", "order update missing symbol") {
        Ok(x) => x,
        Err(e) => return Err(e),
    };
    let client_order_id = match require_str(raw, "c", "order update missing client order id") {
        Ok(x) => x,
        Err(e) => return Err(e),
    };
    let order_id = match require_i64(raw, "i", "order update missing order id") {
        Ok(x) => x,
        Err(e) => return Err(e),
    };
    let side = match require_str(raw, "S", "order update missing side") {
        Ok(x) => x,
        Err(e) => return Err(e),
    };
    let order_type = match require_str(raw, "o", "order update missing order type") {
        Ok(x) => x,
        Err(e) => return Err(e),
    };
    let time_in_force = str_field_or_default(raw, "f", "");
    let orig_qty = match require_decimal(raw, "q", "order update missing original quantity") {
        Ok(x) => x,
        Err(e) => return Err(e),
    };
    let cum_filled_qty = decimal_field_or_zero(raw, "z");
    let cum_quote_qty = decimal_field_or_zero(raw, "Z");
    let last_filled_qty = decimal_field_or_zero(raw, "l");
    let last_filled_price = decimal_field_or_zero(raw, "L");
    let commission = optional_decimal(raw, "n");
    let commission_asset = optional_str(raw, "N");
    let current_status = match require_str(raw, "X", "order update missing status") {
        Ok(x) => x,
        Err(e) => return Err(e),
    };
    let is_on_book = bool_or(raw, "w", false);
    let is_maker = bool_or(raw, "m", false);
    Ok(OrderUpdateEvent {
        event_time,
        symbol,
        client_order_id,
        order_id,
        side,
        order_type,
        time_in_force,
        orig_qty,
        cum_filled_qty,
        cum_quote_qty,
        last_filled_qty,
        last_filled_price,
        commission,
        commission_asset,
        current_status,
        is_on_book,
        is_maker,
    })
}

// ── Balance changes and list status ─────────────────────────────────────

/// Why a balance change is refused, if it is.
pub open spec fn balance_update_error(j: Json) -> Option<Seq<char>> {
    if json_i64(json_get(j, "E"@)) is None {
        Some("balance update missing event time"@)
    } else if json_str(json_get(j, "a"@)) is None {
        Some("balance update missing asset"@)
    } else if decimal_field(j, "d"@) is None {
        Some("balance update missing delta"@)
    } else {
        None
    }
}

/// `e` holds the fields of the balance change `j`.
pub open spec fn balance_update_matches(j: Json, e: BalanceUpdateEvent) -> bool {
    &&& json_i64(json_get(j, "E"@)) == Some(e.event_time)
    &&& json_str(json_get(j, "a"@)) == Some(e.asset@)
    &&& decimal_field(j, "d"@) == Some(e.delta@)
}

/// Decode a balance change (`balanceUpdate`).
pub fn parse_balance_update(raw: &Json) -> (r: Result<BalanceUpdateEvent, ExchangeError>)
    ensures
        match balance_update_error(*raw) {
            Some(m) => r matches Err(ExchangeError::JsonParse(x)) && x@ == m,
            None => r matches Ok(e) && balance_update_matches(*raw, e),
        },
{
    let event_time = match require_i64(raw, "E", "balance update missing event time") {
        Ok(x) => x,
        Err(e) => return Err(e),
    };
    let asset = match require_str(raw, "a", "balance update missing asset") {
        Ok(x) => x,
        Err(e) => return Err(e),
    };
    let delta = match require_decimal(raw, "d", "balance update missing delta") {
        Ok(x) => x,
        Err(e) => return Err(e),
    };
    Ok(BalanceUpdateEvent { event_time, asset, delta })
}

/// Why a list status is refused, if it is.
pub open spec fn list_status_error(j: Json) -> Option<Seq<char>> {
    if json_i64(json_get(j, "E"@)) is None {
        Some("list status missing event time"@)
    } else if json_str(json_get(j, "s"@)) is None {
        Some("list status missing symbol"@)
    } else if json_i64(json_get(j, "g"@)) is None {
        Some("list status missing order list id"@)
    } else if json_str(json_get(j, "l"@)) is None {
        Some("list status missing list status"@)
    } else if json_str(json_get(j, "L"@)) is None {
        Some("list status missing list order status"@)
    } else {
        None
    }
}

/// `e` holds the fields of the list status `j`.
pub open spec fn list_status_matches(j: Json, e: ListStatusEvent) -> bool {
    &&& json_i64(json_get(j, "E"@)) == Some(e.event_time)
    &&& json_str(json_get(j, "s"@)) == Some(e.symbol@)
    &&& json_i64(json_get(j, "g"@)) == Some(e.order_list_id)
    &&& json_str(json_get(j, "l"@)) == Some(e.list_status@)
    &&& json_str(json_get(j, "L"@)) == Some(e.list_order_status@)
}

/// Decode an order-list status (`listStatus`).
pub fn parse_list_status(raw: &Json) -> (r: Result<ListStatusEvent, ExchangeError>)
    ensures
        match list_status_error(*raw) {
            Some(m) => r matches Err(ExchangeError::JsonParse(x)) && x@ == m,
            None => r matches Ok(e) && list_status_matches(*raw, e),
        },
{
    let event_time = match require_i64(raw, "E", "list status missing event time") {
        Ok(x) => x,
        Err(e) => return Err(e),
    };
    let symbol = match require_str(raw, "s", "list status missing symbol") {
        Ok(x) => x,
        Err(e) => return Err(e),
    };
    let order_list_id = match require_i64(raw, "g", "list status missing order list id") {
        Ok(x) => x,
        Err(e) => return Err(e),
    };
    let list_status = match require_str(raw, "l", "list status missing list status") {
        Ok(x) => x,
        Err(e) => return Err(e),
    };
    let list_order_status = match require_str(raw, "L", "list status missing list order status") {
        Ok(x) => x,
        Err(e) => return Err(e),
    };
    Ok(ListStatusEvent { event_time, symbol, order_list_id, list_status, list_order_status })
}

// ── Messages ────────────────────────────────────────────────────────────

/// What a decoded document yields: the event of a known type whose
/// fields are all present; nothing for another type, a document with no
/// type, or an event with a missing field.
pub open spec fn user_event_spec(j: Json, o: Option<UserDataEvent>) -> bool {
    match json_str(json_get(j, "e"@)) {
        None => o is None,
        Some(t) => if t == "outboundAccountPosition"@ {
            if account_update_error(j) is Some {
                o is None
            } else {
                o matches Some(UserDataEvent::AccountUpdate(e)) && account_update_matches(j, e)
            }
        } else if t == "executionReport"@ {
            if order_update_error(j) is Some {
                o is None
            } else {
                o matches Some(UserDataEvent::OrderUpdate(e)) && order_update_matches(j, e)
            }
        } else if t == "balanceUpdate"@ {
            if balance_update_error(j) is Some {
                o is None
            } else {
                o matches Some(UserDataEvent::BalanceUpdate(e)) && balance_update_matches(j, e)
            }
        } else if t == "listStatus"@ {
            if list_status_error(j) is Some {
                o is None
            } else {
                o matches Some(UserDataEvent::ListStatus(e)) && list_status_matches(j, e)
            }
        } else {
            o is None
        },
    }
}

/// Decode one text message of the account stream. A text that is not
/// JSON is an error; otherwise the event it carries, if any (see
/// `user_event_spec`).
pub fn decode_user_message(text: &str) -> (r: Result<Option<UserDataEvent>, ExchangeError>)
    ensures
        match json_parse(text@) {
            None => r matches Err(ExchangeError::JsonParse(m)) && m@ == json_error_text(text@),
            Some(j) => r matches Ok(o) && user_event_spec(j, o),
        },
{
    let raw = match read_document(text) {
        Ok(j) => j,
        Err(e) => return Err(e),
    };
    let event_type = match get_str(&raw, "e") {
        Some(t) => t,
        None => return Ok(None),
    };
    if str_eq(event_type, "outboundAccountPosition") {
        match parse_account_update(&raw) {
            Ok(e) => Ok(Some(UserDataEvent::AccountUpdate(e))),
            Err(_) => Ok(None),
        }
    } else if str_eq(event_type, "executionReport") {
        match parse_order_update(&raw) {
            Ok(e) => Ok(Some(UserDataEvent::OrderUpdate(e))),
            Err(_) => Ok(None),
        }
    } else if str_eq(event_type, "balanceUpdate") {
        match parse_balance_update(&raw) {
            Ok(e) => Ok(Some(UserDataEvent::BalanceUpdate(e))),
            Err(_) => Ok(None),
        }
    } else if str_eq(event_type, "listStatus") {
        match parse_list_status(&raw) {
            Ok(e) => Ok(Some(UserDataEvent::ListStatus(e))),
            Err(_) => Ok(None),
        }
    } else {
        Ok(None)
    }
}

/// A decoded execution report carries, as the quantity of its last fill,
/// the report's own "l" number and, as the cumulative filled quantity, its
/// "z" number (each "0" when absent or not a number); the fill price is
/// its "L" number. A partial fill thus reports what this fill traded, not
/// the running total.
pub proof fn law_order_update_fill_quantities(j: Json, e: OrderUpdateEvent)
    requires
        order_update_matches(j, e),
    ensures
        e.last_filled_qty@ == number_text_or_zero(json_get(j, "l"@)),
        e.cum_filled_qty@ == number_text_or_zero(json_get(j, "z"@)),
        e.last_filled_price@ == number_text_or_zero(json_get(j, "L"@)),
{
}

/// The quantity of the last fill depends on the report's "l" field alone:
/// two decoded reports whose "l" fields agree report the same last fill,
/// whatever their cumulative quantities "z".
pub proof fn law_last_fill_depends_on_l_only(j1: Json, e1: OrderUpdateEvent, j2: Json, e2: OrderUpdateEvent)
    requires
        order_update_matches(j1, e1),
        order_update_matches(j2, e2),
        json_get(j1, "l"@) == json_get(j2, "l"@),
    ensures
        e1.last_filled_qty@ == e2.last_filled_qty@,
{
}

/// Every field of a decoded execution report comes from its own key of
/// Binance's `executionReport`: event time "E", symbol "s", client order
/// id "c", order id "i", side "S", type "o", time in force "f" ("" when
/// absent), original quantity "q", cumulative quote quantity "Z" ("0"
/// when absent), commission "n" and its asset "N" (when present), status
/// "X", on-book flag "w" and maker flag "m" (false when absent).
pub proof fn law_order_update_keys(j: Json, e: OrderUpdateEvent)
    requires
        order_update_matches(j, e),
    ensures
        json_get(j, "E"@) matches Some(Json::Number(n)) && n.int == Some(e.event_time),
        json_get(j, "s"@) matches Some(Json::Str(x)) && x@ == e.symbol@,
        json_get(j, "c"@) matches Some(Json::Str(x)) && x@ == e.client_order_id@,
        json_get(j, "i"@) matches Some(Json::Number(n)) && n.int == Some(e.order_id),
        json_get(j, "S"@) matches Some(Json::Str(x)) && x@ == e.side@,
        json_get(j, "o"@) matches Some(Json::Str(x)) && x@ == e.order_type@,
        e.time_in_force@ == (match json_get(j, "f"@) {
            Some(Json::Str(x)) => x@,
            _ => ""@,
        }),
        number_text(json_get(j, "q"@)) == Some(e.orig_qty@),
        e.cum_quote_qty@ == number_text_or_zero(json_get(j, "Z"@)),
        number_text(json_get(j, "n"@)) == (match e.commission {
            Some(x) => Some(x@),
            None => None,
        }),
        (match json_get(j, "N"@) {
            Some(Json::Str(x)) => Some(x@),
            _ => None,
        }) == (match e.commission_asset {
            Some(x) => Some(x@),
            None => None,
        }),
        json_get(j, "X"@) matches Some(Json::Str(x)) && x@ == e.current_status@,
        e.is_on_book == (json_get(j, "w"@) == Some(Json::Bool(true))),
        e.is_maker == (json_get(j, "m"@) == Some(Json::Bool(true))),
{
}

/// A decoded balance change carries the event time "E", the asset "a" and
/// the signed amount "d" of Binance's `balanceUpdate`.
pub proof fn law_balance_update_keys(j: Json, e: BalanceUpdateEvent)
    requires
        balance_update_matches(j, e),
    ensures
        json_get(j, "E"@) matches Some(Json::Number(n)) && n.int == Some(e.event_time),
        json_get(j, "a"@) matches Some(Json::Str(x)) && x@ == e.asset@,
        number_text(json_get(j, "d"@)) == Some(e.delta@),
{
}

/// A decoded list status carries the event time "E", the symbol "s", the
/// order list id "g", the list status "l" and the list order status "L"
/// of Binance's `listStatus`.
pub proof fn law_list_status_keys(j: Json, e: ListStatusEvent)
    requires
        list_status_matches(j, e),
    ensures
        json_get(j, "E"@) matches Some(Json::Number(n)) && n.int == Some(e.event_time),
        json_get(j, "s"@) matches Some(Json::Str(x)) && x@ == e.symbol@,
        json_get(j, "g"@) matches Some(Json::Number(n)) && n.int == Some(e.order_list_id),
        json_get(j, "l"@) matches Some(Json::Str(x)) && x@ == e.list_status@,
        json_get(j, "L"@) matches Some(Json::Str(x)) && x@ == e.list_order_status@,
{
}

/// The entry `b` of a balance snapshot holds the asset "a", the free
/// amount "f" and the locked amount "l" of `x`.
pub open spec fn balance_entry_keys(b: Json, x: AssetBalance) -> bool {
    &&& json_get(b, "a"@) matches Some(Json::Str(a)) && a@ == x.asset@
    &&& number_text(json_get(b, "f"@)) == Some(x.free@)
    &&& number_text(json_get(b, "l"@)) == Some(x.locked@)
}

/// A decoded balance snapshot keeps every entry of "B", in order, each
/// with its asset "a", free amount "f" and locked amount "l".
pub proof fn law_account_update_keys(j: Json, e: AccountUpdateEvent)
    requires
        account_update_matches(j, e),
    ensures
        json_get(j, "E"@) matches Some(Json::Number(n)) && n.int == Some(e.event_time),
        json_array(json_get(j, "B"@)) matches Some(bs) && bs.len() == e.balances@.len() && forall|i: int|
            0 <= i < bs.len() ==> balance_entry_keys(bs[i], #[trigger] e.balances@[i]),
{
    let bs = json_array(json_get(j, "B"@))->0;
    assert forall|i: int| 0 <= i < bs.len() implies balance_entry_keys(bs[i], #[trigger] e.balances@[i]) by {
        assert(balance_matches(bs[i], e.balances@[i]));
    }
}

/// Each kind of account event comes only from a document of its own type
/// "e": a balance snapshot from "outboundAccountPosition", an execution
/// report from "executionReport", a balance change from "balanceUpdate"
/// and a list status from "listStatus".
pub proof fn law_user_event_routing(j: Json, o: Option<UserDataEvent>)
    requires
        user_event_spec(j, o),
    ensures
        o matches Some(UserDataEvent::AccountUpdate(_)) ==> json_str(json_get(j, "e"@)) == Some(
            "outboundAccountPosition"@,
        ),
        o matches Some(UserDataEvent::OrderUpdate(_)) ==> json_str(json_get(j, "e"@)) == Some("executionReport"@),
        o matches Some(UserDataEvent::BalanceUpdate(_)) ==> json_str(json_get(j, "e"@)) == Some("balanceUpdate"@),
        o matches Some(UserDataEvent::ListStatus(_)) ==> json_str(json_get(j, "e"@)) == Some("listStatus"@),
{
}

} // verus!
