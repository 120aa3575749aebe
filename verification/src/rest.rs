//! Binance REST request construction: endpoint URLs, request
//! parameters, signed query strings and error classification. The HTTP
//! transport itself lives with the caller.
use crate::errors::ExchangeError;
use crate::query::{build_query_at, params_view, query_spec, ParamView};
use crate::signing::{sign_query, signature_spec};
use crate::text::{i64_to_decimal, int_decimal, nat_decimal, push_str, push_u64_decimal, to_owned_string};
use vstd::prelude::*;
use vstd::string::StrSliceExecFns;

verus! {

/// Binance production REST API base URL.
pub const BINANCE_REST_URL: &'static str = "https://api.binance.com";

/// Binance testnet REST API base URL.
pub const BINANCE_TESTNET_REST_URL: &'static str = "https://testnet.binance.vision";

/// Default receive window (milliseconds).
pub const DEFAULT_RECV_WINDOW: u64 = 5000;

/// A Binance API error response body.
#[derive(Debug, Clone, PartialEq, Eq)]
pub struct BinanceApiError {
    pub code: i64,
    pub msg: String,
}

/// What a client is configured with.
pub struct RestClientView {
    pub api_key: Seq<char>,
    pub secret: Seq<u8>,
    pub base_url: Seq<char>,
    pub recv_window: nat,
}

/// Credentials, endpoint and receive window of a Binance REST client,
/// with the request construction and signing that depend on them.
#[derive(Clone)]
pub struct BinanceRestClient {
    api_key: String,
    secret_key: Vec<u8>,
    base_url: String,
    recv_window: u64,
}

/// Milliseconds since the Unix epoch by the system clock: calls
/// `std::time::SystemTime::now`, measures it from `UNIX_EPOCH` (0 if the
/// clock reads before the epoch) and takes whole milliseconds. Nothing is
/// claimed of the value: it is the time of the call.
#[verifier::external_body]
fn unix_millis_since_epoch() -> u128 {
    std::time::SystemTime::now().duration_since(std::time::UNIX_EPOCH).unwrap_or_default().as_millis()
}

/// The request timestamp: milliseconds since the Unix epoch by the system
/// clock, saturating at `i64::MAX`.
fn unix_millis_now() -> (ms: i64)
    ensures
        ms >= 0,
{
    let ms = unix_millis_since_epoch();
    if ms <= i64::MAX as u128 {
        ms as i64
    } else {
        i64::MAX
    }
}

/// `base + path + "?" + query + "&signature=" + signature`.
pub open spec fn signed_url_spec(base: Seq<char>, path: Seq<char>, query: Seq<char>, signature: Seq<char>) -> Seq<char> {
    base + path + seq!['?'] + query + "&signature="@ + signature
}

impl BinanceRestClient {
    pub closed spec fn view(&self) -> RestClientView {
        RestClientView {
            api_key: self.api_key@,
            secret: self.secret_key@,
            base_url: self.base_url@,
            recv_window: self.recv_window as nat,
        }
    }

    /// Create a client for the live (`use_testnet == false`) or testnet
    /// endpoint, with the default receive window.
    pub fn new(api_key: String, secret_key: String, use_testnet: bool) -> (c: Self)
        ensures
            c@.api_key == api_key@,
            c@.secret == vstd::utf8::encode_utf8(secret_key@),
            c@.base_url == (if use_testnet { BINANCE_TESTNET_REST_URL@ } else { BINANCE_REST_URL@ }),
            c@.recv_window == DEFAULT_RECV_WINDOW,
    {
        let base_url = if use_testnet {
            to_owned_string(BINANCE_TESTNET_REST_URL)
        } else {
            to_owned_string(BINANCE_REST_URL)
        };
        let secret = secret_key.as_str().as_bytes_vec();
        BinanceRestClient { api_key, secret_key: secret, base_url, recv_window: DEFAULT_RECV_WINDOW }
    }

    /// The same client with another receive window (milliseconds).
    pub fn with_recv_window(self, recv_window: u64) -> (c: Self)
        ensures
            c@.api_key == self@.api_key,
            c@.secret == self@.secret,
            c@.base_url == self@.base_url,
            c@.recv_window == recv_window,
    {
        BinanceRestClient { recv_window, ..self }
    }

    /// Use another base URL (a mock server, for instance).
    pub fn with_base_url(self, base_url: String) -> (c: Self)
        ensures
            c@.api_key == self@.api_key,
            c@.secret == self@.secret,
            c@.base_url == base_url@,
            c@.recv_window == self@.recv_window,
    {
        BinanceRestClient { base_url, ..self }
    }

    /// The API key sent in the `X-MBX-APIKEY` header.
    pub fn api_key(&self) -> (k: &str)
        ensures
            k@ == self@.api_key,
    {
        self.api_key.as_str()
    }

    /// The base URL requests go to.
    pub fn base_url(&self) -> (u: &str)
        ensures
            u@ == self@.base_url,
    {
        self.base_url.as_str()
    }

    /// The receive window in milliseconds.
    pub fn recv_window(&self) -> (w: u64)
        ensures
            w == self@.recv_window,
    {
        self.recv_window
    }

    /// Query string for `params` at time `timestamp_ms`.
    pub fn build_query_at(&self, params: &[(&str, String)], timestamp_ms: i64) -> (q: String)
        ensures
            q@ == query_spec(params_view(params@), timestamp_ms as int, self@.recv_window),
    {
        build_query_at(params, timestamp_ms, self.recv_window)
    }

    /// Query string for `params` stamped with the current time.
    pub fn build_query(&self, params: &[(&str, String)]) -> (q: String)
        ensures
            exists|ts: i64| q@ == query_spec(params_view(params@), ts as int, self@.recv_window),
    {
        let ts = unix_millis_now();
        self.build_query_at(params, ts)
    }

    /// HMAC-SHA256 hex signature of a query under the secret key.
    pub fn sign(&self, query: &str) -> (sig: String)
        ensures
            sig@ == signature_spec(self@.secret, query@),
            sig@.len() == 64,
    {
        sign_query(self.secret_key.as_slice(), query)
    }

    /// Signed URL for `path` with `params` at time `timestamp_ms`.
    pub fn signed_url_at(&self, path: &str, params: &[(&str, String)], timestamp_ms: i64) -> (url: String)
        ensures
            url@ == signed_url_spec(
                self@.base_url,
                path@,
                query_spec(params_view(params@), timestamp_ms as int, self@.recv_window),
                signature_spec(
                    self@.secret,
                    query_spec(params_view(params@), timestamp_ms as int, self@.recv_window),
                ),
            ),
    {
        let query = self.build_query_at(params, timestamp_ms);
        let signature = self.sign(query.as_str());
        let mut url = to_owned_string(self.base_url.as_str());
        push_str(&mut url, path);
        push_str(&mut url, "?");
        push_str(&mut url, query.as_str());
        push_str(&mut url, "&signature=");
        push_str(&mut url, signature.as_str());
        proof {
            reveal_strlit("?");
        }
        url
    }

    /// Signed GET URL, stamped with the current time.
    pub fn signed_get_url(&self, path: &str, params: &[(&str, String)]) -> (url: String)
        ensures
            exists|ts: i64|
                url@ == signed_url_spec(
                    self@.base_url,
                    path@,
                    query_spec(params_view(params@), ts as int, self@.recv_window),
                    signature_spec(self@.secret, query_spec(params_view(params@), ts as int, self@.recv_window)),
                ),
    {
        let ts = unix_millis_now();
        self.signed_url_at(path, params, ts)
    }

    /// Signed POST URL (Binance takes POST parameters in the query string).
    pub fn signed_post_url(&self, path: &str, params: &[(&str, String)]) -> (url: String)
        ensures
            exists|ts: i64|
                url@ == signed_url_spec(
                    self@.base_url,
                    path@,
                    query_spec(params_view(params@), ts as int, self@.recv_window),
                    signature_spec(self@.secret, query_spec(params_view(params@), ts as int, self@.recv_window)),
                ),
    {
        self.signed_get_url(path, params)
    }

    /// Signed DELETE URL.
    pub fn signed_delete_url(&self, path: &str, params: &[(&str, String)]) -> (url: String)
        ensures
            exists|ts: i64|
                url@ == signed_url_spec(
                    self@.base_url,
                    path@,
                    query_spec(params_view(params@), ts as int, self@.recv_window),
                    signature_spec(self@.secret, query_spec(params_view(params@), ts as int, self@.recv_window)),
                ),
    {
        self.signed_get_url(path, params)
    }

    /// The API key as it may be shown: its first four bytes followed by
    /// `****` (the whole key when shorter).
    pub fn masked_api_key(&self) -> (m: String)
        requires
            key_prefix_chars(self@.api_key, 4) is Some,
        ensures
            m@ == self@.api_key.take(key_prefix_chars(self@.api_key, 4).unwrap() as int) + "****"@,
    {
        let key = self.api_key.as_str();
        let n = key.unicode_len();
        let mut i: usize = 0;
        let mut budget: u32 = 4;
        let mut shown = String::new();
        proof {
            assert(key@.skip(0) =~= key@);
            assert(key@.take(0) =~= shown@);
        }
        while budget > 0 && i < n
            invariant
                n == self@.api_key.len(),
                key@ == self@.api_key,
                i <= n,
                budget <= 4,
                shown@ == key@.take(i as int),
                key_prefix_chars(key@, 4) matches Some(j) && i <= j && key_prefix_chars(
                    key@.skip(i as int),
                    budget as nat,
                ) == Some((j - i) as nat),
            decreases n - i,
        {
            let c = key.get_char(i);
            let w = utf8_width_of(c);
            let ghost rest = key@.skip(i as int);
            let ghost j = key_prefix_chars(key@, 4).unwrap();
            proof {
                assert(rest.len() > 0);
                assert(rest[0] == c);
                assert(rest.drop_first() =~= key@.skip(i + 1));
                assert(key@.take(i + 1) =~= key@.take(i as int).push(c));
                assert(key_prefix_chars(rest, budget as nat) == Some((j - i) as nat));
                assert(w <= budget);
                assert(key_prefix_chars(rest.drop_first(), (budget - w) as nat) == Some((j - i - 1) as nat));
            }
            budget = budget - w;
            crate::text::push_char(&mut shown, c);
            i = i + 1;
        }
        proof {
            let j = key_prefix_chars(key@, 4).unwrap();
            if i < n {
                assert(budget == 0);
                assert(key_prefix_chars(key@.skip(i as int), 0) == Some(0nat));
            } else {
                assert(key@.skip(i as int).len() == 0);
                assert(key_prefix_chars(key@.skip(i as int), budget as nat) == Some(0nat));
            }
            assert(j == i);
        }
        push_str(&mut shown, "****");
        shown
    }

    /// Unsigned URL of a public endpoint: base URL followed by `path`.
    pub fn public_url(&self, path: &str) -> (url: String)
        ensures
            url@ == self@.base_url + path@,
    {
        let mut url = to_owned_string(self.base_url.as_str());
        push_str(&mut url, path);
        url
    }

    /// URL of the user-data-stream endpoint for a listen key
    /// (keepalive and close).
    pub fn listen_key_url(&self, listen_key: &str) -> (url: String)
        ensures
            url@ == self@.base_url + "/api/v3/userDataStream?listenKey="@ + listen_key@,
    {
        let mut url = to_owned_string(self.base_url.as_str());
        push_str(&mut url, "/api/v3/userDataStream?listenKey=");
        push_str(&mut url, listen_key);
        url
    }
}

/// An optional string argument, viewed as characters.
pub open spec fn opt_view(o: Option<&str>) -> Option<Seq<char>> {
    match o {
        Some(s) => Some(s@),
        None => None,
    }
}

/// One optional parameter: present only when the value is.
pub open spec fn optional_param(key: Seq<char>, value: Option<Seq<char>>) -> Seq<ParamView> {
    match value {
        Some(v) => seq![(key, v)],
        None => Seq::empty(),
    }
}

/// Parameters of `POST /api/v3/order`, in the order they are added.
pub open spec fn new_order_params_spec(
    symbol: Seq<char>,
    side: Seq<char>,
    order_type: Seq<char>,
    quantity: Seq<char>,
    price: Option<Seq<char>>,
    time_in_force: Option<Seq<char>>,
    stop_price: Option<Seq<char>>,
    client_order_id: Option<Seq<char>>,
) -> Seq<ParamView> {
    seq![("symbol"@, symbol), ("side"@, side), ("type"@, order_type), ("quantity"@, quantity)]
        + optional_param("price"@, price) + optional_param("timeInForce"@, time_in_force)
        + optional_param("stopPrice"@, stop_price) + optional_param("newClientOrderId"@, client_order_id)
}

fn push_optional_param(params: &mut Vec<(&'static str, String)>, key: &'static str, value: Option<&str>)
    ensures
        params_view(final(params)@) == params_view(old(params)@) + optional_param(key@, opt_view(value)),
{
    let ghost before = params_view(params@);
    match value {
        Some(v) => {
            params.push((key, to_owned_string(v)));
        },
        None => {},
    }
    proof {
        assert(params_view(params@) =~= before + optional_param(key@, opt_view(value)));
    }
}

/// Parameters for placing an order.
pub fn new_order_params(
    symbol: &str,
    side: &str,
    order_type: &str,
    quantity: &str,
    price: Option<&str>,
    time_in_force: Option<&str>,
    stop_price: Option<&str>,
    client_order_id: Option<&str>,
) -> (params: Vec<(&'static str, String)>)
    ensures
        params_view(params@) == new_order_params_spec(
            symbol@,
            side@,
            order_type@,
            quantity@,
            opt_view(price),
            opt_view(time_in_force),
            opt_view(stop_price),
            opt_view(client_order_id),
        ),
{
    let mut params: Vec<(&'static str, String)> = Vec::new();
    params.push(("symbol", to_owned_string(symbol)));
    params.push(("side", to_owned_string(side)));
    params.push(("type", to_owned_string(order_type)));
    params.push(("quantity", to_owned_string(quantity)));
    proof {
        assert(params_view(params@) =~= seq![
            ("symbol"@, symbol@),
            ("side"@, side@),
            ("type"@, order_type@),
            ("quantity"@, quantity@),
        ]);
    }
    push_optional_param(&mut params, "price", price);
    push_optional_param(&mut params, "timeInForce", time_in_force);
    push_optional_param(&mut params, "stopPrice", stop_price);
    push_optional_param(&mut params, "newClientOrderId", client_order_id);
    params
}

/// Parameters identifying one order (cancel and status queries).
pub fn order_id_params(symbol: &str, order_id: i64) -> (params: Vec<(&'static str, String)>)
    ensures
        params_view(params@) == seq![("symbol"@, symbol@), ("orderId"@, int_decimal(order_id as int))],
{
    let mut params: Vec<(&'static str, String)> = Vec::new();
    params.push(("symbol", to_owned_string(symbol)));
    params.push(("orderId", i64_to_decimal(order_id)));
    proof {
        assert(params_view(params@) =~= seq![("symbol"@, symbol@), ("orderId"@, int_decimal(order_id as int))]);
    }
    params
}

/// Parameters of the open-orders query: the symbol when one is given.
pub fn open_orders_params(symbol: Option<&str>) -> (params: Vec<(&'static str, String)>)
    ensures
        params_view(params@) == optional_param("symbol"@, opt_view(symbol)),
{
    let mut params: Vec<(&'static str, String)> = Vec::new();
    push_optional_param(&mut params, "symbol", symbol);
    proof {
        assert(params_view(Seq::<(&'static str, String)>::empty()) =~= Seq::<ParamView>::empty());
    }
    params
}

/// Parameters of the trade-history query.
pub fn my_trades_params(symbol: &str, limit: Option<i64>) -> (params: Vec<(&'static str, String)>)
    ensures
        params_view(params@) == seq![("symbol"@, symbol@)] + (match limit {
            Some(l) => seq![("limit"@, int_decimal(l as int))],
            None => Seq::<ParamView>::empty(),
        }),
{
    let mut params: Vec<(&'static str, String)> = Vec::new();
    params.push(("symbol", to_owned_string(symbol)));
    match limit {
        Some(l) => {
            params.push(("limit", i64_to_decimal(l)));
        },
        None => {},
    }
    proof {
        assert(params_view(params@) =~= seq![("symbol"@, symbol@)] + (match limit {
            Some(l) => seq![("limit"@, int_decimal(l as int))],
            None => Seq::<ParamView>::empty(),
        }));
    }
    params
}

/// Message of a structured Binance error.
pub open spec fn api_error_text(code: i64, msg: Seq<char>) -> Seq<char> {
    "Binance API error [code "@ + int_decimal(code as int) + "]: "@ + msg
}

/// Message of an unstructured HTTP error.
pub open spec fn http_error_text(status: u16, body: Seq<char>) -> Seq<char> {
    "HTTP "@ + nat_decimal(status as nat) + ": "@ + body
}

/// Classify a failed response: a body that parsed as a Binance error
/// (`api_error`) becomes `Exchange` with its code and message; anything
/// else becomes `Http` with the status and the raw body.
pub fn error_from_response(status: u16, body: &str, api_error: Option<BinanceApiError>) -> (e: ExchangeError)
    ensures
        match api_error {
            Some(a) => e matches ExchangeError::Exchange(m) && m@ == api_error_text(a.code, a.msg@),
            None => e matches ExchangeError::Http(m) && m@ == http_error_text(status, body@),
        },
{
    match api_error {
        Some(a) => {
            let mut m = to_owned_string("Binance API error [code ");
            let code = i64_to_decimal(a.code);
            push_str(&mut m, code.as_str());
            push_str(&mut m, "]: ");
            push_str(&mut m, a.msg.as_str());
            ExchangeError::Exchange(m)
        },
        None => {
            let mut m = to_owned_string("HTTP ");
            push_u64_decimal(&mut m, status as u64);
            push_str(&mut m, ": ");
            push_str(&mut m, body);
            ExchangeError::Http(m)
        },
    }
}

/// Bytes of a character's UTF-8 encoding.
pub open spec fn utf8_width(c: char) -> nat {
    if (c as u32) < 0x80 {
        1
    } else if (c as u32) < 0x800 {
        2
    } else if (c as u32) < 0x10000 {
        3
    } else {
        4
    }
}

fn utf8_width_of(c: char) -> (w: u32)
    ensures
        w == utf8_width(c),
        1 <= w <= 4,
{
    let v = c as u32;
    if v < 0x80 {
        1
    } else if v < 0x800 {
        2
    } else if v < 0x10000 {
        3
    } else {
        4
    }
}

/// How many leading characters of `s` make up its first `budget` bytes
/// (all of `s` when it is shorter); none when that many bytes end
/// inside a character, where a byte slice of the string would panic.
pub open spec fn key_prefix_chars(s: Seq<char>, budget: nat) -> Option<nat>
    decreases s.len(),
{
    if budget == 0 || s.len() == 0 {
        Some(0)
    } else if utf8_width(s[0]) > budget {
        None
    } else {
        match key_prefix_chars(s.drop_first(), (budget - utf8_width(s[0])) as nat) {
            Some(j) => Some(j + 1),
            None => None,
        }
    }
}

} // verus!
