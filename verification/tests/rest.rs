use hmac::Mac;
use velox::errors::ExchangeError;
use velox::orders::{order_request_params, trim_decimal_zeros, OrderType, Side, TimeInForce};
use velox::query::{build_query_at, sort_params};
use velox::rest::{
    error_from_response, my_trades_params, new_order_params, open_orders_params, order_id_params, BinanceApiError,
    BinanceRestClient, DEFAULT_RECV_WINDOW,
};
use velox::signing::sign_query;

fn test_client() -> BinanceRestClient {
    BinanceRestClient::new("test_api_key".into(), "test_secret_key".into(), false)
}

fn check_build_query_empty_params() {
    let client = test_client();
    let query = client.build_query(&[]);
    assert!(query.contains("timestamp="), "query={query}");
    assert!(query.contains("recvWindow="), "query={query}");
    assert!(
        query.starts_with("timestamp=") || query.contains("&timestamp="),
        "query should start with or contain &timestamp=, got: {query}"
    );
}

fn check_build_query_sorted_params() {
    let client = test_client();
    let params = [
        ("symbol", "BTCUSDT".to_string()),
        ("side", "BUY".to_string()),
        ("type", "MARKET".to_string()),
    ];
    let query = client.build_query(&params);
    let parts: Vec<&str> = query.split('&').collect();
    let param_part: Vec<&&str> =
        parts.iter().filter(|p| !p.starts_with("timestamp=") && !p.starts_with("recvWindow=")).collect();
    assert_eq!(param_part.len(), 3);
    assert!(param_part[0].starts_with("side="));
    assert!(param_part[1].starts_with("symbol="));
    assert!(param_part[2].starts_with("type="));
}

fn check_sign_consistency() {
    let client = test_client();
    let query = "symbol=BTCUSDT&side=BUY&timestamp=1234567890&recvWindow=5000";
    let sig1 = client.sign(query);
    let sig2 = client.sign(query);
    assert_eq!(sig1, sig2, "HMAC signature must be deterministic");
    assert_eq!(sig1.len(), 64, "SHA-256 hex should be 64 chars");
}

fn check_signed_get_url_includes_auth() {
    let client = test_client();
    let params = [("symbol", "BTCUSDT".to_string())];
    let url = client.signed_get_url("/api/v3/order", &params);
    assert!(url.starts_with("https://api.binance.com/api/v3/order?"));
    assert!(url.contains("symbol=BTCUSDT"));
    assert!(url.contains("timestamp="));
    assert!(url.contains("recvWindow="));
    assert!(url.contains("signature="));
}

fn check_hmac_known_vector() {
    let client = BinanceRestClient::new("api_key".into(), "secret".into(), false);
    let query = "hello=world";
    let sig = client.sign(query);
    let mut mac = hmac::Hmac::<sha2::Sha256>::new_from_slice(b"secret").unwrap();
    mac.update(b"hello=world");
    let expected = hex::encode(mac.finalize().into_bytes());
    assert_eq!(sig, expected, "HMAC signature should match known vector");
}

fn check_signed_post_url_format() {
    let client = test_client();
    let params = [
        ("symbol", "ETHUSDT".to_string()),
        ("side", "SELL".to_string()),
        ("type", "LIMIT".to_string()),
        ("quantity", "0.1".to_string()),
        ("price", "3000.00".to_string()),
        ("timeInForce", "GTC".to_string()),
    ];
    let url = client.signed_post_url("/api/v3/order", &params);
    assert!(url.contains("side=SELL"));
    assert!(url.contains("symbol=ETHUSDT"));
    assert!(url.contains("quantity=0.1"));
    assert!(url.contains("price=3000.00"));
    assert!(url.contains("signature="));
}

fn check_signed_delete_url_format() {
    let client = test_client();
    let params = [("symbol", "BTCUSDT".to_string()), ("orderId", "123456789".to_string())];
    let url = client.signed_delete_url("/api/v3/order", &params);
    assert!(url.contains("orderId=123456789"));
    assert!(url.contains("signature="));
}

fn check_debug_redacts_api_key() {
    let client = BinanceRestClient::new("ABCD1234Secret".into(), "supersecret".into(), false);
    let masked = client.masked_api_key();
    assert!(masked.contains("ABCD****"), "Should show first 4 chars of API key");
    assert!(!masked.contains("supersecret"), "Should NOT contain the full secret key");
    assert!(!masked.contains("ABCD1234Secret"), "Should NOT contain the full API key");
}

#[test]
fn binance_rest_test_build_query_empty_params() {
    check_build_query_empty_params();
}

#[test]
fn tests_test_build_query_empty_params() {
    check_build_query_empty_params();
}

#[test]
fn binance_rest_test_build_query_sorted_params() {
    check_build_query_sorted_params();
}

#[test]
fn tests_test_build_query_sorted_params() {
    check_build_query_sorted_params();
}

#[test]
fn binance_rest_test_sign_consistency() {
    check_sign_consistency();
}

#[test]
fn tests_test_sign_consistency() {
    check_sign_consistency();
}

#[test]
fn binance_rest_test_signed_get_url_includes_auth() {
    check_signed_get_url_includes_auth();
}

#[test]
fn tests_test_signed_get_url_includes_auth() {
    check_signed_get_url_includes_auth();
}

#[test]
fn binance_rest_test_hmac_known_vector() {
    check_hmac_known_vector();
}

#[test]
fn tests_test_hmac_known_vector() {
    check_hmac_known_vector();
}

#[test]
fn binance_rest_test_signed_post_url_format() {
    check_signed_post_url_format();
}

#[test]
fn tests_test_signed_post_url_format() {
    check_signed_post_url_format();
}

#[test]
fn binance_rest_test_signed_delete_url_format() {
    check_signed_delete_url_format();
}

#[test]
fn tests_test_signed_delete_url_format() {
    check_signed_delete_url_format();
}

#[test]
fn binance_rest_test_debug_redacts_api_key() {
    check_debug_redacts_api_key();
}

#[test]
fn tests_test_debug_redacts_api_key() {
    check_debug_redacts_api_key();
}

// ── Further checks ──────────────────────────────────────────────────────

#[test]
fn query_is_sorted_then_stamped() {
    let params = [("symbol", "BTCUSDT".to_string()), ("side", "BUY".to_string()), ("Zeta", "1".to_string())];
    assert_eq!(build_query_at(&params, 1234567890, 5000), "Zeta=1&side=BUY&symbol=BTCUSDT&timestamp=1234567890&recvWindow=5000");
    assert_eq!(build_query_at(&[], -7, 1), "timestamp=-7&recvWindow=1");
    let sorted = sort_params(&[("b", "1".to_string()), ("a", "2".to_string()), ("b", "0".to_string())]);
    assert_eq!(sorted, vec![("a".to_string(), "2".to_string()), ("b".to_string(), "1".to_string()), ("b".to_string(), "0".to_string())]);
}

#[test]
fn signed_url_is_exact() {
    let client = test_client();
    let params = [("symbol", "BTCUSDT".to_string())];
    let query = "symbol=BTCUSDT&timestamp=1000&recvWindow=5000";
    let url = client.signed_url_at("/api/v3/order", &params, 1000);
    assert_eq!(url, format!("https://api.binance.com/api/v3/order?{query}&signature={}", client.sign(query)));
    assert_eq!(client.sign(query), sign_query(b"test_secret_key", query));
}

#[test]
fn hmac_signature_differs_from_input() {
    let sig = sign_query(b"key", "The quick brown fox jumps over the lazy dog");
    assert_eq!(sig, "f7bc83f430538424b13298e6aa6fb143ef4d59a14946175997479dbc2d1a3cd8");
}

#[test]
fn client_configuration() {
    let client = BinanceRestClient::new("k".into(), "s".into(), true).with_recv_window(10_000);
    assert_eq!(client.base_url(), "https://testnet.binance.vision");
    assert_eq!(client.recv_window(), 10_000);
    assert_eq!(client.api_key(), "k");
    let client = client.with_base_url("http://127.0.0.1:9".into());
    assert_eq!(client.public_url("/api/v3/ping"), "http://127.0.0.1:9/api/v3/ping");
    assert_eq!(client.listen_key_url("abc"), "http://127.0.0.1:9/api/v3/userDataStream?listenKey=abc");
    assert_eq!(test_client().recv_window(), DEFAULT_RECV_WINDOW);
}

#[test]
fn masked_key_of_short_key() {
    let client = BinanceRestClient::new("ab".into(), "s".into(), false);
    assert_eq!(client.masked_api_key(), "ab****");
}

#[test]
fn request_parameters() {
    let p = new_order_params("BTCUSDT", "BUY", "LIMIT", "1", Some("2"), None, None, Some("id"));
    let keys: Vec<&str> = p.iter().map(|(k, _)| *k).collect();
    assert_eq!(keys, vec!["symbol", "side", "type", "quantity", "price", "newClientOrderId"]);
    assert_eq!(order_id_params("X", -3), vec![("symbol", "X".to_string()), ("orderId", "-3".to_string())]);
    assert!(open_orders_params(None).is_empty());
    assert_eq!(my_trades_params("X", Some(500)), vec![("symbol", "X".to_string()), ("limit", "500".to_string())]);
}

#[test]
fn order_mapping() {
    let p = order_request_params("btc-usdt", Side::Sell, OrderType::StopLimit, TimeInForce::Day, "0.5", Some("100"), Some("99"), "cid");
    assert_eq!(
        p,
        vec![
            ("symbol", "BTCUSDT".to_string()),
            ("side", "SELL".to_string()),
            ("type", "STOP_LOSS_LIMIT".to_string()),
            ("quantity", "0.5".to_string()),
            ("price", "100".to_string()),
            ("timeInForce", "GTC".to_string()),
            ("stopPrice", "99".to_string()),
            ("newClientOrderId", "cid".to_string()),
        ]
    );
    let p = order_request_params("ETH/USDT", Side::Buy, OrderType::Market, TimeInForce::Gtd, "1", Some("5"), Some("4"), "c");
    assert_eq!(
        p,
        vec![
            ("symbol", "ETHUSDT".to_string()),
            ("side", "BUY".to_string()),
            ("type", "MARKET".to_string()),
            ("quantity", "1".to_string()),
            ("newClientOrderId", "c".to_string()),
        ]
    );
}

#[test]
fn decimal_trimming() {
    assert_eq!(trim_decimal_zeros("0.01000000"), "0.01");
    assert_eq!(trim_decimal_zeros("100.00000000"), "100");
    assert_eq!(trim_decimal_zeros("0.00123456"), "0.00123456");
    assert_eq!(trim_decimal_zeros("1.50000000"), "1.5");
    assert_eq!(trim_decimal_zeros("45000.12000000"), "45000.12");
}

#[test]
fn error_classification() {
    let e = error_from_response(400, "{}", Some(BinanceApiError { code: -2014, msg: "API-key format invalid.".into() }));
    assert_eq!(e, ExchangeError::Exchange("Binance API error [code -2014]: API-key format invalid.".into()));
    let e = error_from_response(503, "Service Temporarily Unavailable", None);
    assert_eq!(e, ExchangeError::Http("HTTP 503: Service Temporarily Unavailable".into()));
}

#[test]
fn masked_key_counts_bytes() {
    let client = BinanceRestClient::new("ÄBCDE".into(), "s".into(), false);
    assert_eq!(client.masked_api_key(), "ÄBC****");
}
