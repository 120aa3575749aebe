//! Order vocabulary and its mapping to Binance order-request parameters.
use crate::query::{params_view, ParamView};
use crate::rest::{new_order_params, new_order_params_spec, opt_view};
use crate::symbols::{normalize_order_symbol, order_symbol};
use vstd::prelude::*;
use vstd::string::StrSliceExecFns;

verus! {

/// Order side.
#[derive(Debug, Clone, Copy, PartialEq, Eq, Structural)]
pub enum Side {
    Buy,
    Sell,
}

/// Order type.
#[derive(Debug, Clone, Copy, PartialEq, Eq, Structural)]
pub enum OrderType {
    Market,
    Limit,
    StopMarket,
    StopLimit,
}

/// Time in force.
#[derive(Debug, Clone, Copy, PartialEq, Eq, Structural)]
pub enum TimeInForce {
    Gtc,
    Ioc,
    Fok,
    Day,
    Gtd,
}

/// Binance name of a side.
pub fn side_param(side: Side) -> (s: &'static str)
    ensures
        s@ == (match side {
            Side::Buy => "BUY"@,
            Side::Sell => "SELL"@,
        }),
{
    match side {
        Side::Buy => "BUY",
        Side::Sell => "SELL",
    }
}

/// Binance name of an order type (stop orders map to `STOP_LOSS` and
/// `STOP_LOSS_LIMIT`).
pub fn order_type_param(order_type: OrderType) -> (s: &'static str)
    ensures
        s@ == (match order_type {
            OrderType::Market => "MARKET"@,
            OrderType::Limit => "LIMIT"@,
            OrderType::StopMarket => "STOP_LOSS"@,
            OrderType::StopLimit => "STOP_LOSS_LIMIT"@,
        }),
{
    match order_type {
        OrderType::Market => "MARKET",
        OrderType::Limit => "LIMIT",
        OrderType::StopMarket => "STOP_LOSS",
        OrderType::StopLimit => "STOP_LOSS_LIMIT",
    }
}

/// Binance name of a time in force; `Day` is sent as `GTC` and `Gtd`
/// is not sent at all.
pub fn time_in_force_param(tif: TimeInForce) -> (s: Option<&'static str>)
    ensures
        match tif {
            TimeInForce::Gtc => s matches Some(v) && v@ == "GTC"@,
            TimeInForce::Ioc => s matches Some(v) && v@ == "IOC"@,
            TimeInForce::Fok => s matches Some(v) && v@ == "FOK"@,
            TimeInForce::Day => s matches Some(v) && v@ == "GTC"@,
            TimeInForce::Gtd => s is None,
        },
{
    match tif {
        TimeInForce::Gtc => Some("GTC"),
        TimeInForce::Ioc => Some("IOC"),
        TimeInForce::Fok => Some("FOK"),
        TimeInForce::Day => Some("GTC"),
        TimeInForce::Gtd => None,
    }
}

/// Limit and stop-limit orders carry a limit price.
pub open spec fn uses_price(t: OrderType) -> bool {
    t is Limit || t is StopLimit
}

/// Stop-market and stop-limit orders carry a stop price.
pub open spec fn uses_stop_price(t: OrderType) -> bool {
    t is StopMarket || t is StopLimit
}

/// Text sent as `timeInForce`: none for `Gtd`.
pub open spec fn time_in_force_sent(tif: TimeInForce) -> Option<Seq<char>> {
    match tif {
        TimeInForce::Gtc => Some("GTC"@),
        TimeInForce::Ioc => Some("IOC"@),
        TimeInForce::Fok => Some("FOK"@),
        TimeInForce::Day => Some("GTC"@),
        TimeInForce::Gtd => None,
    }
}

/// Parameters of the order request: the symbol in order form, the side
/// and type names, the quantity, the limit and stop prices (already
/// rendered as decimals) only for the order types that use them, the
/// time in force when one is sent, and the client order id.
pub open spec fn order_request_spec(
    symbol: Seq<char>,
    side: Side,
    order_type: OrderType,
    tif: TimeInForce,
    quantity: Seq<char>,
    price: Option<Seq<char>>,
    stop_price: Option<Seq<char>>,
    client_order_id: Seq<char>,
) -> Seq<ParamView> {
    new_order_params_spec(
        order_symbol(symbol),
        match side {
            Side::Buy => "BUY"@,
            Side::Sell => "SELL"@,
        },
        match order_type {
            OrderType::Market => "MARKET"@,
            OrderType::Limit => "LIMIT"@,
            OrderType::StopMarket => "STOP_LOSS"@,
            OrderType::StopLimit => "STOP_LOSS_LIMIT"@,
        },
        quantity,
        if uses_price(order_type) { price } else { None },
        time_in_force_sent(tif),
        if uses_stop_price(order_type) { stop_price } else { None },
        Some(client_order_id),
    )
}

/// Map an order to Binance request parameters.
pub fn order_request_params(
    symbol: &str,
    side: Side,
    order_type: OrderType,
    tif: TimeInForce,
    quantity: &str,
    price: Option<&str>,
    stop_price: Option<&str>,
    client_order_id: &str,
) -> (params: Vec<(&'static str, String)>)
    ensures
        params_view(params@) == order_request_spec(
            symbol@,
            side,
            order_type,
            tif,
            quantity@,
            opt_view(price),
            opt_view(stop_price),
            client_order_id@,
        ),
{
    let sym = normalize_order_symbol(symbol);
    let price_param = match order_type {
        OrderType::Limit | OrderType::StopLimit => price,
        _ => None,
    };
    let stop_param = match order_type {
        OrderType::StopMarket | OrderType::StopLimit => stop_price,
        _ => None,
    };
    let tif_param = time_in_force_param(tif);
    new_order_params(
        sym.as_str(),
        side_param(side),
        order_type_param(order_type),
        quantity,
        price_param,
        tif_param,
        stop_param,
        Some(client_order_id),
    )
}

/// `s` with every trailing `c` removed.
pub open spec fn strip_trailing(s: Seq<char>, c: char) -> Seq<char>
    decreases s.len(),
{
    if s.len() > 0 && s.last() == c {
        strip_trailing(s.drop_last(), c)
    } else {
        s
    }
}

/// A fixed-point decimal rendering with trailing zeros removed, and then
/// a trailing decimal point (`"0.01000000"` becomes `"0.01"`,
/// `"45000.00000000"` becomes `"45000"`).
pub open spec fn trim_decimal_spec(s: Seq<char>) -> Seq<char> {
    strip_trailing(strip_trailing(s, '0'), '.')
}

proof fn lemma_strip_trailing_prefix(s: Seq<char>, c: char, end: int)
    requires
        0 <= end <= s.len(),
        forall|j: int| end <= j < s.len() ==> s[j] == c,
    ensures
        strip_trailing(s, c) == strip_trailing(s.take(end), c),
    decreases s.len() - end,
{
    if end < s.len() {
        assert(s.last() == c);
        assert(s.drop_last().take(end) =~= s.take(end));
        lemma_strip_trailing_prefix(s.drop_last(), c, end);
    } else {
        assert(s.take(end) =~= s);
    }
}

/// The first `end` characters of `s`.
fn prefix_chars(s: &str, end: usize) -> (r: String)
    requires
        end <= s@.len(),
    ensures
        r@ == s@.take(end as int),
{
    let mut r = String::new();
    let mut i: usize = 0;
    while i < end
        invariant
            end <= s@.len(),
            i <= end,
            r@ == s@.take(i as int),
        decreases end - i,
    {
        crate::text::push_char(&mut r, s.get_char(i));
        proof {
            assert(s@.take(i + 1) =~= s@.take(i as int).push(s@[i as int]));
        }
        i = i + 1;
    }
    r
}

/// Remove trailing `c` characters.
fn trim_end_char(s: &str, c: char) -> (r: String)
    ensures
        r@ == strip_trailing(s@, c),
{
    let mut end = s.unicode_len();
    while end > 0 && s.get_char(end - 1) == c
        invariant
            end <= s@.len(),
            forall|j: int| end <= j < s@.len() ==> s@[j] == c,
        decreases end,
    {
        end = end - 1;
    }
    proof {
        lemma_strip_trailing_prefix(s@, c, end as int);
        let t = s@.take(end as int);
        if end > 0 {
            assert(t.last() == s@[end - 1]);
        }
    }
    prefix_chars(s, end)
}

/// Strip trailing zeros, then a trailing decimal point, from a decimal
/// rendered with a fixed number of places.
pub fn trim_decimal_zeros(s: &str) -> (r: String)
    ensures
        r@ == trim_decimal_spec(s@),
{
    let t = trim_end_char(s, '0');
    trim_end_char(t.as_str(), '.')
}

/// An order request lists, in this order: the symbol in order form, the
/// side (`BUY` or `SELL`), the type (`MARKET`, `LIMIT`, `STOP_LOSS` or
/// `STOP_LOSS_LIMIT`) and the quantity; then the limit price, only for
/// limit and stop-limit orders that give one; the time in force (`GTC`
/// for good-till-cancelled and day orders, `IOC`, `FOK`, none for
/// good-till-date); the stop price, only for stop orders that give one;
/// and last the client order id.
pub proof fn law_order_request_layout(
    symbol: Seq<char>,
    side: Side,
    order_type: OrderType,
    tif: TimeInForce,
    quantity: Seq<char>,
    price: Option<Seq<char>>,
    stop_price: Option<Seq<char>>,
    client_order_id: Seq<char>,
)
    ensures
        order_request_spec(symbol, side, order_type, tif, quantity, price, stop_price, client_order_id) == seq![
            ("symbol"@, order_symbol(symbol)),
            (
                "side"@,
                if side == Side::Buy {
                    "BUY"@
                } else {
                    "SELL"@
                },
            ),
            (
                "type"@,
                if order_type == OrderType::Market {
                    "MARKET"@
                } else if order_type == OrderType::Limit {
                    "LIMIT"@
                } else if order_type == OrderType::StopMarket {
                    "STOP_LOSS"@
                } else {
                    "STOP_LOSS_LIMIT"@
                },
            ),
            ("quantity"@, quantity),
        ] + (if (order_type == OrderType::Limit || order_type == OrderType::StopLimit) && price is Some {
            seq![("price"@, price->0)]
        } else {
            Seq::empty()
        }) + (if tif == TimeInForce::Gtd {
            Seq::empty()
        } else if tif == TimeInForce::Ioc {
            seq![("timeInForce"@, "IOC"@)]
        } else if tif == TimeInForce::Fok {
            seq![("timeInForce"@, "FOK"@)]
        } else {
            seq![("timeInForce"@, "GTC"@)]
        }) + (if (order_type == OrderType::StopMarket || order_type == OrderType::StopLimit) && stop_price is Some {
            seq![("stopPrice"@, stop_price->0)]
        } else {
            Seq::empty()
        }) + seq![("newClientOrderId"@, client_order_id)],
{
}

/// Stripping `c` removes a run of `c` at the end and nothing else.
proof fn lemma_strip_trailing(s: Seq<char>, c: char)
    ensures
        strip_trailing(s, c).len() <= s.len(),
        s.take(strip_trailing(s, c).len() as int) == strip_trailing(s, c),
        forall|i: int| strip_trailing(s, c).len() <= i < s.len() ==> s[i] == c,
        strip_trailing(s, c).len() > 0 ==> strip_trailing(s, c).last() != c,
    decreases s.len(),
{
    if s.len() > 0 && s.last() == c {
        lemma_strip_trailing(s.drop_last(), c);
        let t = strip_trailing(s.drop_last(), c);
        assert(s.take(t.len() as int) =~= s.drop_last().take(t.len() as int));
        assert forall|i: int| t.len() <= i < s.len() implies s[i] == c by {
            if i < s.len() - 1 {
                assert(s[i] == s.drop_last()[i]);
            }
        }
    } else {
        assert(s.take(s.len() as int) =~= s);
    }
}

/// Trimming a fixed-point decimal keeps a prefix and removes only a tail
/// of decimal points followed by zeros: no '.' follows a removed '0', the
/// result never ends in '.', and it ends in '0' only when a '.' was
/// removed right after it (`"45000.00000000"` gives `"45000"`,
/// `"0.01000000"` gives `"0.01"`).
pub proof fn law_trim_decimal(s: Seq<char>)
    ensures
        ({
            let r = trim_decimal_spec(s);
            &&& r.len() <= s.len()
            &&& s.take(r.len() as int) == r
            &&& forall|i: int| r.len() <= i < s.len() ==> s[i] == '.' || s[i] == '0'
            &&& forall|i: int, j: int| r.len() <= i < j < s.len() && s[i] == '0' ==> s[j] == '0'
            &&& r.len() > 0 ==> r.last() != '.'
            &&& r.len() > 0 && r.last() == '0' ==> r.len() < s.len() && s[r.len() as int] == '.'
        }),
{
    let z = strip_trailing(s, '0');
    let r = strip_trailing(z, '.');
    lemma_strip_trailing(s, '0');
    lemma_strip_trailing(z, '.');
    assert(s.take(r.len() as int) =~= z.take(r.len() as int));
    assert forall|i: int| r.len() <= i < s.len() implies s[i] == '.' || s[i] == '0' by {
        if i < z.len() {
            assert(s[i] == z[i]);
        }
    }
    assert forall|i: int, j: int| r.len() <= i < j < s.len() && s[i] == '0' implies s[j] == '0' by {
        if i < z.len() {
            assert(s[i] == z[i]);
        }
    }
    if r.len() > 0 && r.last() == '0' {
        assert(r.last() == s[r.len() - 1]);
        if r.len() == z.len() {
            assert(z.last() == r.last());
        } else {
            assert(s[r.len() as int] == z[r.len() as int]);
        }
    }
}

} // verus!
