//! Decoding of market-feed messages: trades and top-of-book depth
//! snapshots, from combined-stream envelopes or raw events, and the
//! exchange's error replies.
//!
//! Prices and sizes are kept as the decimal text the exchange sent.
use crate::errors::ExchangeError;
use crate::fields::{
    bool_field_or, bool_or, decimal_field, first_error, lemma_first_error_prefix, number_text, decimal_of, decimal_value, read_document, require_decimal,
    require_i64, require_str, require_u64, str_field_or, str_field_or_default,
};
use crate::json::{get_i64, get_str, json_array, json_error_text, json_get, json_i64, json_parse, json_str, json_u64, str_eq, Json};
use crate::symbols::{lowercase, str_to_lowercase, symbol_bytes_spec, symbol_to_bytes};
use crate::text::{i64_to_decimal, int_decimal, push_str, to_owned_string};
use vstd::prelude::*;
use vstd::string::StrSliceExecFns;

verus! {

/// A trade: the fixed-width symbol, price and quantity as decimal text,
/// trade time in milliseconds and the condition flags (1 when the buyer
/// was the maker).
#[derive(Debug, Clone, PartialEq)]
pub struct TradeUpdate {
    pub symbol: [u8; 8],
    pub price: String,
    pub volume: String,
    pub trade_time_ms: i64,
    pub conditions: u32,
}

/// One price level of a depth snapshot.
#[derive(Debug, Clone, PartialEq)]
pub struct DepthLevel {
    pub price: String,
    pub size: String,
}

/// A depth snapshot for a symbol (lowercase).
#[derive(Debug, Clone, PartialEq)]
pub struct DepthSnapshot {
    pub symbol: String,
    pub bids: Vec<DepthLevel>,
    pub asks: Vec<DepthLevel>,
    pub last_update_id: u64,
}

/// What a feed message carries.
#[derive(Debug, Clone, PartialEq)]
pub enum FeedMessage {
    Trade(TradeUpdate),
    Depth(DepthSnapshot),
    /// A stream or event type the feed does not handle.
    Ignored,
}

// ── Trades ──────────────────────────────────────────────────────────────

/// Why a trade is refused, if it is.
pub open spec fn trade_error(j: Json) -> Option<Seq<char>> {
    if json_str(json_get(j, "s"@)) is None {
        Some("missing symbol"@)
    } else if decimal_field(j, "p"@) is None {
        Some("missing/invalid price"@)
    } else if decimal_field(j, "q"@) is None {
        Some("missing/invalid quantity"@)
    } else if json_i64(json_get(j, "T"@)) is None {
        Some("missing trade time"@)
    } else {
        None
    }
}

/// `t` holds the fields of the trade `j`; the maker flag `m` defaults
/// to true.
pub open spec fn trade_matches(j: Json, t: TradeUpdate) -> bool {
    &&& json_str(json_get(j, "s"@)) matches Some(s) && t.symbol@ == symbol_bytes_spec(s)
    &&& decimal_field(j, "p"@) == Some(t.price@)
    &&& decimal_field(j, "q"@) == Some(t.volume@)
    &&& json_i64(json_get(j, "T"@)) == Some(t.trade_time_ms)
    &&& t.conditions == (if bool_field_or(j, "m"@, true) { 1u32 } else { 0u32 })
}

/// Decode a trade event.
pub fn parse_trade(raw: &Json) -> (r: Result<TradeUpdate, ExchangeError>)
    ensures
        match trade_error(*raw) {
            Some(m) => r matches Err(ExchangeError::JsonParse(x)) && x@ == m,
            None => r matches Ok(t) && trade_matches(*raw, t),
        },
{
    let symbol_raw = match get_str(raw, "s") {
        Some(s) => s,
        None => return Err(ExchangeError::JsonParse(to_owned_string("missing symbol"))),
    };
    let price = match require_decimal(raw, "p", "missing/invalid price") {
        Ok(x) => x,
        Err(e) => return Err(e),
    };
    let volume = match require_decimal(raw, "q", "missing/invalid quantity") {
        Ok(x) => x,
        Err(e) => return Err(e),
    };
    let trade_time_ms = match require_i64(raw, "T", "missing trade time") {
        Ok(x) => x,
        Err(e) => return Err(e),
    };
    let is_maker_buy = bool_or(raw, "m", true);
    let symbol = symbol_to_bytes(symbol_raw);
    Ok(TradeUpdate { symbol, price, volume, trade_time_ms, conditions: if is_maker_buy { 1 } else { 0 } })
}

// ── Depth snapshots ─────────────────────────────────────────────────────

/// The elements of a level entry that is an array of at least two.
pub open spec fn level_pair(l: Json) -> Option<Seq<Json>> {
    match json_array(Some(l)) {
        Some(p) => if p.len() >= 2 { Some(p) } else { None },
        None => None,
    }
}

/// Why a level entry is refused, if it is; entries that are not pairs
/// are skipped, not refused.
pub open spec fn level_error(l: Json) -> Option<Seq<char>> {
    match level_pair(l) {
        None => None,
        Some(p) => if decimal_value(Some(p[0])) is None {
            Some("depth invalid price"@)
        } else if decimal_value(Some(p[1])) is None {
            Some("depth invalid size"@)
        } else {
            None
        },
    }
}

/// The check of one book entry.
pub open spec fn level_check() -> spec_fn(Json) -> Option<Seq<char>> {
    |l: Json| level_error(l)
}

/// The error of the first refused entry, if any.
pub open spec fn levels_error(ls: Seq<Json>) -> Option<Seq<char>> {
    first_error(ls, level_check())
}

/// The (price, size) texts of the pair entries, in order.
pub open spec fn kept_levels(ls: Seq<Json>) -> Seq<(Seq<char>, Seq<char>)>
    decreases ls.len(),
{
    if ls.len() == 0 {
        Seq::empty()
    } else {
        match level_pair(ls.last()) {
            Some(p) => kept_levels(ls.drop_last()).push(
                (decimal_value(Some(p[0])).unwrap(), decimal_value(Some(p[1])).unwrap()),
            ),
            None => kept_levels(ls.drop_last()),
        }
    }
}

/// The (price, size) texts of decoded levels.
pub open spec fn levels_view(v: Seq<DepthLevel>) -> Seq<(Seq<char>, Seq<char>)> {
    v.map_values(|l: DepthLevel| (l.price@, l.size@))
}

/// Why one side of a book is refused, if it is.
pub open spec fn side_error(v: Option<Json>, missing: Seq<char>) -> Option<Seq<char>> {
    match v {
        None => Some(missing),
        Some(x) => match json_array(Some(x)) {
            None => Some("depth levels not an array"@),
            Some(ls) => levels_error(ls),
        },
    }
}

/// Why a depth snapshot is refused, if it is.
pub open spec fn depth_error(j: Json) -> Option<Seq<char>> {
    if json_str(json_get(j, "s"@)) is None {
        Some("depth missing symbol"@)
    } else if json_u64(json_get(j, "lastUpdateId"@)) is None {
        Some("depth missing lastUpdateId"@)
    } else if side_error(json_get(j, "bids"@), "depth missing bids"@) is Some {
        side_error(json_get(j, "bids"@), "depth missing bids"@)
    } else {
        side_error(json_get(j, "asks"@), "depth missing asks"@)
    }
}

/// `d` holds the fields of the depth snapshot `j`.
pub open spec fn depth_matches(j: Json, d: DepthSnapshot) -> bool {
    &&& json_str(json_get(j, "s"@)) matches Some(s) && d.symbol@ == str_to_lowercase(s)
    &&& json_u64(json_get(j, "lastUpdateId"@)) == Some(d.last_update_id)
    &&& json_array(json_get(j, "bids"@)) matches Some(b) && levels_view(d.bids@) == kept_levels(b)
    &&& json_array(json_get(j, "asks"@)) matches Some(a) && levels_view(d.asks@) == kept_levels(a)
}

/// Decode one side of a book: the price levels of an array, skipping
/// entries that are not arrays of at least two elements.
fn parse_levels(v: Option<&Json>, missing: &str) -> (r: Result<Vec<DepthLevel>, ExchangeError>)
    ensures
        match side_error(
            match v {
                Some(x) => Some(*x),
                None => None,
            },
            missing@,
        ) {
            Some(m) => r matches Err(ExchangeError::JsonParse(x)) && x@ == m,
            None => r matches Ok(l) && json_array(
                match v {
                    Some(x) => Some(*x),
                    None => None,
                },
            ) matches Some(ls) && levels_view(l@) == kept_levels(ls),
        },
{
    let arr = match v {
        Some(x) => x,
        None => return Err(ExchangeError::JsonParse(to_owned_string(missing))),
    };
    let levels = match arr.as_array() {
        Some(a) => a,
        None => return Err(ExchangeError::JsonParse(to_owned_string("depth levels not an array"))),
    };
    let ghost ls = levels@;
    let n = levels.len();
    let mut result: Vec<DepthLevel> = Vec::new();
    let mut i: usize = 0;
    while i < n
        invariant
            n == ls.len(),
            ls == levels@,
            json_array(Some(*arr)) == Some(ls),
            v matches Some(x) && *x == *arr,
            i <= n,
            levels_error(ls.take(i as int)) is None,
            levels_view(result@) == kept_levels(ls.take(i as int)),
        decreases n - i,
    {
        proof {
            assert(ls.take(i + 1).drop_last() =~= ls.take(i as int));
            assert(ls.take(i + 1).last() == ls[i as int]);
        }
        let level = &levels[i];
        match level.as_array() {
            Some(pair) => {
                if pair.len() >= 2 {
                    let price = match decimal_of(&pair[0]) {
                        Some(x) => x,
                        None => {
                            proof {
                                assert(levels_error(ls.take(i + 1)) == level_error(ls[i as int]));
                                lemma_first_error_prefix(ls, level_check(), i + 1);
                            }
                            return Err(ExchangeError::JsonParse(to_owned_string("depth invalid price")));
                        },
                    };
                    let size = match decimal_of(&pair[1]) {
                        Some(x) => x,
                        None => {
                            proof {
                                assert(levels_error(ls.take(i + 1)) == level_error(ls[i as int]));
                                lemma_first_error_prefix(ls, level_check(), i + 1);
                            }
                            return Err(ExchangeError::JsonParse(to_owned_string("depth invalid size")));
                        },
                    };
                    let ghost before = result@;
                    result.push(DepthLevel { price, size });
                    proof {
                        assert(result@.drop_last() == before);
                        assert(levels_view(result@) =~= levels_view(before).push(
                            (result@.last().price@, result@.last().size@),
                        ));
                    }
                }
            },
            None => {},
        }
        i = i + 1;
    }
    proof {
        assert(ls.take(n as int) =~= ls);
    }
    Ok(result)
}

/// Decode a depth snapshot: symbol `s` (lowercased), `lastUpdateId`,
/// then the `bids` and `asks` levels.
pub fn parse_depth(raw: &Json) -> (r: Result<DepthSnapshot, ExchangeError>)
    ensures
        match depth_error(*raw) {
            Some(m) => r matches Err(ExchangeError::JsonParse(x)) && x@ == m,
            None => r matches Ok(d) && depth_matches(*raw, d),
        },
{
    let symbol_raw = match get_str(raw, "s") {
        Some(s) => s,
        None => return Err(ExchangeError::JsonParse(to_owned_string("depth missing symbol"))),
    };
    let last_update_id = match require_u64(raw, "lastUpdateId", "depth missing lastUpdateId") {
        Ok(x) => x,
        Err(e) => return Err(e),
    };
    let bids = match parse_levels(raw.get("bids"), "depth missing bids") {
        Ok(x) => x,
        Err(e) => return Err(e),
    };
    let asks = match parse_levels(raw.get("asks"), "depth missing asks") {
        Ok(x) => x,
        Err(e) => return Err(e),
    };
    let symbol = lowercase(symbol_raw);
    Ok(DepthSnapshot { symbol, bids, asks, last_update_id })
}

// ── Messages ────────────────────────────────────────────────────────────

/// `s` ends with `suffix`.
pub open spec fn ends_with(s: Seq<char>, suffix: Seq<char>) -> bool {
    s.len() >= suffix.len() && s.subrange(s.len() - suffix.len(), s.len() as int) == suffix
}

/// Whether `s` ends with `suffix`.
pub fn str_ends_with(s: &str, suffix: &str) -> (b: bool)
    ensures
        b == ends_with(s@, suffix@),
{
    let n = s.unicode_len();
    let m = suffix.unicode_len();
    if n < m {
        return false;
    }
    let off = n - m;
    let mut i: usize = 0;
    while i < m
        invariant
            n == s@.len(),
            m == suffix@.len(),
            off == n - m,
            i <= m,
            forall|k: int| 0 <= k < i ==> s@[off + k] == suffix@[k],
        decreases m - i,
    {
        if s.get_char(off + i) != suffix.get_char(i) {
            proof {
                assert(s@.subrange(off as int, n as int)[i as int] == s@[off + i]);
            }
            return false;
        }
        i = i + 1;
    }
    proof {
        assert(s@.subrange(off as int, n as int) =~= suffix@);
    }
    true
}

/// The outcome of decoding `j` as a trade.
pub open spec fn trade_outcome(j: Json, r: Result<FeedMessage, ExchangeError>) -> bool {
    match trade_error(j) {
        Some(m) => r matches Err(ExchangeError::JsonParse(x)) && x@ == m,
        None => r matches Ok(FeedMessage::Trade(t)) && trade_matches(j, t),
    }
}

/// The outcome of decoding `j` as a depth snapshot.
pub open spec fn depth_outcome(j: Json, r: Result<FeedMessage, ExchangeError>) -> bool {
    match depth_error(j) {
        Some(m) => r matches Err(ExchangeError::JsonParse(x)) && x@ == m,
        None => r matches Ok(FeedMessage::Depth(d)) && depth_matches(j, d),
    }
}

/// The message of an exchange error reply with the given code.
pub open spec fn feed_error_text(j: Json, code: i64) -> Seq<char> {
    "code "@ + int_decimal(code as int) + ": "@ + str_field_or(j, "msg"@, "unknown"@)
}

/// What a feed document decodes to: an error reply (one with an integer
/// `code`) is an `Exchange` error; a combined-stream envelope is routed
/// by the suffix of its stream name; a raw event by its type `e`.
pub open spec fn feed_message_spec(j: Json, r: Result<FeedMessage, ExchangeError>) -> bool {
    match json_i64(json_get(j, "code"@)) {
        Some(code) => r matches Err(ExchangeError::Exchange(m)) && m@ == feed_error_text(j, code),
        None => match json_str(json_get(j, "stream"@)) {
            Some(name) => match json_get(j, "data"@) {
                None => r matches Err(ExchangeError::JsonParse(m)) && m@
                    == "combined stream missing 'data' field"@,
                Some(data) => if ends_with(name, "@trade"@) {
                    trade_outcome(data, r)
                } else if ends_with(name, "@depth20@100ms"@) {
                    depth_outcome(data, r)
                } else {
                    r == Ok::<FeedMessage, ExchangeError>(FeedMessage::Ignored)
                },
            },
            None => match json_str(json_get(j, "e"@)) {
                Some(t) => if t == "trade"@ {
                    trade_outcome(j, r)
                } else if t == "depthUpdate"@ {
                    depth_outcome(j, r)
                } else {
                    r == Ok::<FeedMessage, ExchangeError>(FeedMessage::Ignored)
                },
                None => r == Ok::<FeedMessage, ExchangeError>(FeedMessage::Ignored),
            },
        },
    }
}

fn trade_message(raw: &Json) -> (r: Result<FeedMessage, ExchangeError>)
    ensures
        trade_outcome(*raw, r),
{
    match parse_trade(raw) {
        Ok(t) => Ok(FeedMessage::Trade(t)),
        Err(e) => Err(e),
    }
}

fn depth_message(raw: &Json) -> (r: Result<FeedMessage, ExchangeError>)
    ensures
        depth_outcome(*raw, r),
{
    match parse_depth(raw) {
        Ok(d) => Ok(FeedMessage::Depth(d)),
        Err(e) => Err(e),
    }
}

/// Decode a document of the market feed (see `feed_message_spec`).
pub fn decode_feed_document(raw: &Json) -> (r: Result<FeedMessage, ExchangeError>)
    ensures
        feed_message_spec(*raw, r),
{
    match get_i64(raw, "code") {
        Some(code) => {
            let msg = match get_str(raw, "msg") {
                Some(m) => m,
                None => "unknown",
            };
            let mut text = to_owned_string("code ");
            let digits = i64_to_decimal(code);
            push_str(&mut text, digits.as_str());
            push_str(&mut text, ": ");
            push_str(&mut text, msg);
            return Err(ExchangeError::Exchange(text));
        },
        None => {},
    }
    match get_str(raw, "stream") {
        Some(name) => {
            let data = match raw.get("data") {
                Some(d) => d,
                None => {
                    return Err(
                        ExchangeError::JsonParse(to_owned_string("combined stream missing 'data' field")),
                    );
                },
            };
            if str_ends_with(name, "@trade") {
                trade_message(data)
            } else if str_ends_with(name, "@depth20@100ms") {
                depth_message(data)
            } else {
                Ok(FeedMessage::Ignored)
            }
        },
        None => {
            match get_str(raw, "e") {
                Some(t) => {
                    if str_eq(t, "trade") {
                        trade_message(raw)
                    } else if str_eq(t, "depthUpdate") {
                        depth_message(raw)
                    } else {
                        Ok(FeedMessage::Ignored)
                    }
                },
                None => Ok(FeedMessage::Ignored),
            }
        },
    }
}

/// Decode one text message of the market feed. A text that is not JSON
/// is a `JsonParse` error with the parser's message.
pub fn decode_feed_message(text: &str) -> (r: Result<FeedMessage, ExchangeError>)
    ensures
        match json_parse(text@) {
            None => r matches Err(ExchangeError::JsonParse(m)) && m@ == json_error_text(text@),
            Some(j) => feed_message_spec(j, r),
        },
{
    match read_document(text) {
        Ok(j) => decode_feed_document(&j),
        Err(e) => Err(e),
    }
}

/// A decoded trade carries the symbol "s" (in its fixed-width form), the
/// price "p", the quantity "q" and the trade time "T" of Binance's trade
/// event; its condition flag is 0 exactly when the maker flag "m" is
/// `false`, and 1 otherwise (also when "m" is absent).
pub proof fn law_trade_keys(j: Json, t: TradeUpdate)
    requires
        trade_matches(j, t),
    ensures
        json_get(j, "s"@) matches Some(Json::Str(x)) && t.symbol@ == symbol_bytes_spec(x@),
        number_text(json_get(j, "p"@)) == Some(t.price@),
        number_text(json_get(j, "q"@)) == Some(t.volume@),
        json_get(j, "T"@) matches Some(Json::Number(n)) && n.int == Some(t.trade_time_ms),
        (t.conditions == 0) == (json_get(j, "m"@) == Some(Json::Bool(false))),
        t.conditions == 0 || t.conditions == 1,
{
}

/// A decoded depth snapshot carries the lowercase symbol "s" and the update
/// id "lastUpdateId"; its bids are the price levels of "bids" and its asks
/// those of "asks", never the other way round.
pub proof fn law_depth_keys(j: Json, d: DepthSnapshot)
    requires
        depth_matches(j, d),
    ensures
        json_get(j, "s"@) matches Some(Json::Str(x)) && d.symbol@ == str_to_lowercase(x@),
        json_get(j, "lastUpdateId"@) matches Some(Json::Number(n)) && n.uint == Some(d.last_update_id),
        json_get(j, "bids"@) matches Some(Json::Array(b)) && levels_view(d.bids@) == kept_levels(b@),
        json_get(j, "asks"@) matches Some(Json::Array(a)) && levels_view(d.asks@) == kept_levels(a@),
{
}

/// A trade comes only from a combined-stream envelope whose stream name
/// ends in "@trade" or from a raw event of type "trade", a depth snapshot
/// only from a stream ending in "@depth20@100ms" or an event of type
/// "depthUpdate"; a document with an integer "code" is always an exchange
/// error.
pub proof fn law_feed_routing(j: Json, r: Result<FeedMessage, ExchangeError>)
    requires
        feed_message_spec(j, r),
    ensures
        (json_get(j, "code"@) matches Some(Json::Number(n)) && n.int is Some) ==> r matches Err(
            ExchangeError::Exchange(_),
        ),
        r matches Ok(FeedMessage::Trade(_)) ==> (match json_str(json_get(j, "stream"@)) {
            Some(name) => ends_with(name, "@trade"@),
            None => json_str(json_get(j, "e"@)) == Some("trade"@),
        }),
        r matches Ok(FeedMessage::Depth(_)) ==> (match json_str(json_get(j, "stream"@)) {
            Some(name) => ends_with(name, "@depth20@100ms"@),
            None => json_str(json_get(j, "e"@)) == Some("depthUpdate"@),
        }),
{
}

} // verus!
