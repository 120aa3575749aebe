use velox::backoff::backoff_delay;
use velox::errors::ExchangeError;
use velox::fields::read_document;
use velox::link::{check_stream_start, LinkState};
use velox::userdata::{
    decode_user_message, parse_account_update, parse_balance_update, parse_list_status, parse_order_update,
    AccountUpdateEvent, AssetBalance, BalanceUpdateEvent, ListStatusEvent, OrderUpdateEvent, UserDataEvent,
};

fn num(s: &str) -> f64 {
    s.parse::<f64>().unwrap()
}

fn check_parse_account_update() {
    let json = r#"{
        "e": "outboundAccountPosition",
        "E": 1672515782136,
        "u": 123456789,
        "B": [
            {"a": "BTC", "f": "0.50000000", "l": "0.10000000"},
            {"a": "USDT", "f": "10000.00000000", "l": "500.00000000"}
        ]
    }"#;
    let raw = read_document(json).unwrap();
    let event = parse_account_update(&raw).unwrap();

    assert_eq!(event.event_time, 1672515782136);
    assert_eq!(event.balances.len(), 2);
    assert_eq!(event.balances[0].asset, "BTC");
    assert!((num(&event.balances[0].free) - 0.5).abs() < 1e-8);
    assert!((num(&event.balances[0].locked) - 0.1).abs() < 1e-8);
    assert_eq!(event.balances[1].asset, "USDT");
    assert!((num(&event.balances[1].free) - 10000.0).abs() < 1e-8);
}

fn check_parse_order_update_fill() {
    let json = r#"{
        "e": "executionReport",
        "E": 1672515782136,
        "s": "BTCUSDT",
        "c": "myCustomId123",
        "i": 123456789,
        "S": "BUY",
        "o": "MARKET",
        "f": "IOC",
        "q": "0.01000000",
        "p": "45000.00000000",
        "P": "0.00000000",
        "F": "0.00000000",
        "z": "0.01000000",
        "Z": "450.00000000",
        "l": "0.01000000",
        "L": "45000.00000000",
        "n": "0.00000000",
        "N": "BNB",
        "x": "TRADE",
        "X": "FILLED",
        "w": false,
        "m": false
    }"#;
    let raw = read_document(json).unwrap();
    let event = parse_order_update(&raw).unwrap();

    assert_eq!(event.event_time, 1672515782136);
    assert_eq!(event.symbol, "BTCUSDT");
    assert_eq!(event.side, "BUY");
    assert_eq!(event.order_type, "MARKET");
    assert_eq!(event.current_status, "FILLED");
    assert!((num(&event.orig_qty) - 0.01).abs() < 1e-8);
    assert!((num(&event.cum_filled_qty) - 0.01).abs() < 1e-8);
    assert!((num(&event.last_filled_price) - 45000.0).abs() < 1e-8);
    assert_eq!(event.commission.as_deref().map(num), Some(0.0));
    assert_eq!(event.commission_asset, Some("BNB".into()));
}

fn check_parse_order_update_new() {
    let json = r#"{
        "e": "executionReport",
        "E": 1672515782136,
        "s": "BTCUSDT",
        "c": "myLimitOrder",
        "i": 987654321,
        "S": "SELL",
        "o": "LIMIT",
        "f": "GTC",
        "q": "0.10000000",
        "p": "50000.00000000",
        "P": "0.00000000",
        "F": "0.00000000",
        "z": "0.00000000",
        "Z": "0.00000000",
        "l": "0.00000000",
        "L": "0.00000000",
        "x": "NEW",
        "X": "NEW",
        "w": true,
        "m": false
    }"#;
    let raw = read_document(json).unwrap();
    let event = parse_order_update(&raw).unwrap();

    assert_eq!(event.side, "SELL");
    assert_eq!(event.order_type, "LIMIT");
    assert_eq!(event.current_status, "NEW");
    assert!((num(&event.cum_filled_qty) - 0.0).abs() < 1e-8);
    assert!(event.is_on_book);
}

fn check_parse_balance_update() {
    let json = r#"{
        "e": "balanceUpdate",
        "E": 1672515782136,
        "a": "USDT",
        "d": "100.00000000"
    }"#;
    let raw = read_document(json).unwrap();
    let event = parse_balance_update(&raw).unwrap();

    assert_eq!(event.event_time, 1672515782136);
    assert_eq!(event.asset, "USDT");
    assert!((num(&event.delta) - 100.0).abs() < 1e-8);
}

fn check_parse_list_status() {
    let json = r#"{
        "e": "listStatus",
        "E": 1672515782136,
        "s": "BTCUSDT",
        "g": 12345,
        "l": "EXECUTING",
        "L": "STARTED"
    }"#;
    let raw = read_document(json).unwrap();
    let event = parse_list_status(&raw).unwrap();

    assert_eq!(event.event_time, 1672515782136);
    assert_eq!(event.symbol, "BTCUSDT");
    assert_eq!(event.order_list_id, 12345);
    assert_eq!(event.list_status, "EXECUTING");
    assert_eq!(event.list_order_status, "STARTED");
}

fn check_parse_unknown_event() {
    let json = r#"{"e": "unknownEvent", "E": 12345}"#;
    let result = decode_user_message(json);
    assert!(result.is_ok());
    assert_eq!(result, Ok(None));
}

fn check_handle_message_sends_to_channel() {
    let json = r#"{
        "e": "executionReport",
        "E": 1672515782136,
        "s": "BTCUSDT",
        "c": "test",
        "i": 1,
        "S": "BUY",
        "o": "MARKET",
        "f": "IOC",
        "q": "1.0",
        "p": "0.0",
        "P": "0.0",
        "F": "0.0",
        "z": "1.0",
        "Z": "45000.0",
        "l": "1.0",
        "L": "45000.0",
        "X": "FILLED",
        "w": false,
        "m": false
    }"#;
    let event = decode_user_message(json).unwrap().expect("Should receive an event");
    match event {
        UserDataEvent::OrderUpdate(update) => {
            assert_eq!(update.symbol, "BTCUSDT");
            assert_eq!(update.current_status, "FILLED");
        }
        _ => panic!("Expected OrderUpdate event"),
    }
}

fn check_backoff_delay() {
    let d1 = backoff_delay(1, 60, 1000);
    assert!(d1 >= 500);
    assert!(d1 <= 1000);

    let d3 = backoff_delay(3, 60, 1000);
    assert!(d3 >= 500);
    assert!(d3 <= 4000);
}

fn check_start_twice_fails() {
    let link = LinkState::new();
    assert!(!link.connected());
    assert_eq!(
        check_stream_start(true, true),
        Err(ExchangeError::Exchange("User data stream is already running".to_string()))
    );
}

#[test]
fn binance_user_data_test_parse_account_update() {
    check_parse_account_update();
}

#[test]
fn tests_test_parse_account_update() {
    check_parse_account_update();
}

#[test]
fn binance_user_data_test_parse_order_update_fill() {
    check_parse_order_update_fill();
}

#[test]
fn tests_test_parse_order_update_fill() {
    check_parse_order_update_fill();
}

#[test]
fn binance_user_data_test_parse_order_update_new() {
    check_parse_order_update_new();
}

#[test]
fn tests_test_parse_order_update_new() {
    check_parse_order_update_new();
}

#[test]
fn binance_user_data_test_parse_balance_update() {
    check_parse_balance_update();
}

#[test]
fn tests_test_parse_balance_update() {
    check_parse_balance_update();
}

#[test]
fn binance_user_data_test_parse_list_status() {
    check_parse_list_status();
}

#[test]
fn tests_test_parse_list_status() {
    check_parse_list_status();
}

#[test]
fn binance_user_data_test_parse_unknown_event() {
    check_parse_unknown_event();
}

#[test]
fn tests_test_parse_unknown_event() {
    check_parse_unknown_event();
}

#[test]
fn binance_user_data_test_handle_message_sends_to_channel() {
    check_handle_message_sends_to_channel();
}

#[test]
fn tests_test_handle_message_sends_to_channel() {
    check_handle_message_sends_to_channel();
}

#[test]
fn binance_user_data_test_backoff_delay() {
    check_backoff_delay();
}

#[test]
fn tests_test_backoff_delay() {
    check_backoff_delay();
}

#[test]
fn binance_user_data_test_start_twice_fails() {
    check_start_twice_fails();
}

#[test]
fn tests_test_start_twice_fails() {
    check_start_twice_fails();
}

#[test]
fn test_asset_balance_debug() {
    let bal = AssetBalance { asset: "BTC".into(), free: "1.0".into(), locked: "0.5".into() };
    let debug = format!("{bal:?}");
    assert!(debug.contains("BTC"));
    assert!(debug.contains("1.0"));
}

#[test]
fn test_account_update_event_eq() {
    let a = AccountUpdateEvent { event_time: 100, balances: vec![] };
    let b = AccountUpdateEvent { event_time: 100, balances: vec![] };
    assert_eq!(a, b);
}

#[test]
fn test_user_data_event_variants() {
    let acc = UserDataEvent::AccountUpdate(AccountUpdateEvent { event_time: 1, balances: vec![] });
    let ord = UserDataEvent::OrderUpdate(OrderUpdateEvent {
        event_time: 2,
        symbol: "BTCUSDT".into(),
        client_order_id: "c".into(),
        order_id: 1,
        side: "BUY".into(),
        order_type: "MARKET".into(),
        time_in_force: "IOC".into(),
        orig_qty: "0.01".into(),
        cum_filled_qty: "0.01".into(),
        cum_quote_qty: "450.0".into(),
        last_filled_qty: "0.01".into(),
        last_filled_price: "45000.0".into(),
        commission: None,
        commission_asset: None,
        current_status: "FILLED".into(),
        is_on_book: false,
        is_maker: false,
    });
    let bal = UserDataEvent::BalanceUpdate(BalanceUpdateEvent { event_time: 3, asset: "USDT".into(), delta: "100.0".into() });
    let lst = UserDataEvent::ListStatus(ListStatusEvent {
        event_time: 4,
        symbol: "BTCUSDT".into(),
        order_list_id: 123,
        list_status: "EXECUTING".into(),
        list_order_status: "STARTED".into(),
    });

    assert!(matches!(acc, UserDataEvent::AccountUpdate(_)));
    assert!(matches!(ord, UserDataEvent::OrderUpdate(_)));
    assert!(matches!(bal, UserDataEvent::BalanceUpdate(_)));
    assert!(matches!(lst, UserDataEvent::ListStatus(_)));
}

// ── Further checks ──────────────────────────────────────────────────────

#[test]
fn order_update_defaults() {
    let json = r#"{"e":"executionReport","E":1,"s":"X","c":"c","i":2,"S":"BUY","o":"LIMIT","q":"3","X":"NEW"}"#;
    match decode_user_message(json).unwrap() {
        Some(UserDataEvent::OrderUpdate(e)) => {
            assert_eq!(e.time_in_force, "");
            assert_eq!(e.cum_filled_qty, "0");
            assert_eq!(e.cum_quote_qty, "0");
            assert_eq!(e.last_filled_qty, "0");
            assert_eq!(e.last_filled_price, "0");
            assert_eq!(e.commission, None);
            assert_eq!(e.commission_asset, None);
            assert!(!e.is_on_book);
            assert!(!e.is_maker);
        }
        other => panic!("unexpected {other:?}"),
    }
}

#[test]
fn order_update_errors_in_field_order() {
    let full = [
        ("E", "1"), ("s", "\"X\""), ("c", "\"c\""), ("i", "2"), ("S", "\"BUY\""), ("o", "\"LIMIT\""), ("q", "\"3\""), ("X", "\"NEW\""),
    ];
    let messages = [
        "order update missing event time",
        "order update missing symbol",
        "order update missing client order id",
        "order update missing order id",
        "order update missing side",
        "order update missing order type",
        "order update missing original quantity",
        "order update missing status",
    ];
    for skip in 0..full.len() {
        let body: Vec<String> = full
            .iter()
            .enumerate()
            .filter(|(i, _)| *i != skip)
            .map(|(_, (k, v))| format!("\"{k}\":{v}"))
            .collect();
        let json = format!("{{{}}}", body.join(","));
        let raw = read_document(&json).unwrap();
        assert_eq!(parse_order_update(&raw), Err(ExchangeError::JsonParse(messages[skip].to_string())));
        let with_type = format!("{{\"e\":\"executionReport\",{}}}", body.join(","));
        assert_eq!(decode_user_message(&with_type), Ok(None));
    }
}

#[test]
fn account_update_errors() {
    let cases = [
        (r#"{"B":[]}"#, "account update missing event time"),
        (r#"{"E":1,"B":{}}"#, "account update missing balances"),
        (r#"{"E":1,"B":[{"a":"X","f":"1","l":"1"},{"f":"1","l":"1"}]}"#, "balance missing asset"),
        (r#"{"E":1,"B":[{"a":"X","f":"one","l":"1"}]}"#, "balance missing free"),
        (r#"{"E":1,"B":[{"a":"X","f":"1"}]}"#, "balance missing locked"),
    ];
    for (json, msg) in cases {
        let raw = read_document(json).unwrap();
        assert_eq!(parse_account_update(&raw), Err(ExchangeError::JsonParse(msg.to_string())));
    }
    let raw = read_document(r#"{"E":9,"B":[]}"#).unwrap();
    assert_eq!(parse_account_update(&raw), Ok(AccountUpdateEvent { event_time: 9, balances: vec![] }));
}

#[test]
fn balance_and_list_errors() {
    let raw = read_document(r#"{"E":1,"a":"BTC"}"#).unwrap();
    assert_eq!(parse_balance_update(&raw), Err(ExchangeError::JsonParse("balance update missing delta".into())));
    let raw = read_document(r#"{"E":1,"s":"X","g":"7","l":"A","L":"B"}"#).unwrap();
    assert_eq!(parse_list_status(&raw), Err(ExchangeError::JsonParse("list status missing order list id".into())));
}

#[test]
fn not_json_is_an_error() {
    assert!(matches!(decode_user_message("{"), Err(ExchangeError::JsonParse(_))));
    assert!(matches!(read_document("[1,"), Err(ExchangeError::JsonParse(_))));
    assert_eq!(decode_user_message("{}"), Ok(None));
    assert_eq!(decode_user_message(r#"{"e":5}"#), Ok(None));
}

#[test]
fn stream_start_checks() {
    assert_eq!(check_stream_start(false, false), Err(ExchangeError::ApiKeyNotConfigured));
    assert_eq!(check_stream_start(false, true), Ok(()));
}
