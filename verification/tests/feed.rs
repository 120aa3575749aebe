use velox::backoff::{backoff_delay, backoff_delay_at, backoff_window_ms};
use velox::errors::{CoreError, ExchangeError};
use velox::feed::{decode_feed_message, str_ends_with, FeedMessage};
use velox::link::LinkState;
use velox::ring_buffer::RingBuffer;
use velox::symbols::{build_stream_path, feed_url, normalize_feed_symbol, symbol_to_bytes, symbol_to_string, SymbolSubscriptions};

#[test]
fn test_build_stream_path() {
    let symbols: Vec<String> = vec!["btcusdt".into(), "ethusdt".into()];
    let path = build_stream_path(&symbols);
    assert!(path.contains("btcusdt@trade"), "path={path}");
    assert!(path.contains("btcusdt@depth20@100ms"), "path={path}");
    assert!(path.contains("ethusdt@trade"), "path={path}");
    assert!(path.starts_with("?streams="), "path={path}");
    let count = path.matches("@trade").count() + path.matches("@depth20@100ms").count();
    assert_eq!(count, 4, "expected 4 stream entries for 2 symbols");
}

#[test]
fn test_subscribe_normalizes_symbol() {
    let mut subs = SymbolSubscriptions::new();
    subs.subscribe("BTC-USDT").unwrap();
    subs.subscribe("ETH/USDT").unwrap();

    let symbols = subs.symbols();
    assert!(symbols.contains(&"btcusdt".into()));
    assert!(symbols.contains(&"ethusdt".into()));
    assert_eq!(symbols.len(), 2);
}

#[test]
fn test_subscribe_duplicate() {
    let mut subs = SymbolSubscriptions::new();
    subs.subscribe("btcusdt").unwrap();
    subs.subscribe("BTCUSDT").unwrap();
    assert_eq!(subs.symbols().len(), 1);
}

#[test]
fn test_handle_trade() {
    let mut ring = RingBuffer::new(1024);
    let json = r#"{
        "e": "trade",
        "E": 1672515782136,
        "s": "BTCUSDT",
        "t": 123456789,
        "p": "45000.25",
        "q": "0.001",
        "T": 1672515782136,
        "m": true,
        "M": true
    }"#;
    match decode_feed_message(json).unwrap() {
        FeedMessage::Trade(t) => {
            assert!(ring.push(t));
        }
        other => panic!("expected a trade, got {other:?}"),
    }
    assert_eq!(ring.len(), 1);
}

#[test]
fn test_symbol_to_bytes() {
    let mut subs = SymbolSubscriptions::new();
    subs.subscribe("BTC/USD").unwrap();
    subs.subscribe("ETHBTC").unwrap();
    let symbols = subs.symbols();
    assert!(symbols.contains(&"btcusd".into()));
    assert!(symbols.contains(&"ethbtc".into()));
}

#[test]
fn test_backoff_delay_basic() {
    let d1 = backoff_delay(1, 60, 1000);
    assert!(d1 >= 500);
    assert!(d1 <= 1000);

    let d2 = backoff_delay(2, 60, 1000);
    assert!(d2 >= 500);
    assert!(d2 <= 2000);

    let d6 = backoff_delay(6, 60, 1000);
    assert!(d6 >= 500);
    assert!(d6 <= 60_000);
}

#[test]
fn test_backoff_delay_increases_with_attempt() {
    let d1 = backoff_delay(1, 60, 1000);
    let d4 = backoff_delay(4, 60, 1000);
    assert!(d4 >= d1 || d4 <= 8000);
}

#[test]
fn test_connected_initial_state() {
    let link = LinkState::new();
    assert!(!link.connected());
}

// ── Further checks ──────────────────────────────────────────────────────

#[test]
fn trade_fields_are_decoded() {
    let json = r#"{"e":"trade","s":"ethbtc","p":"0.05","q":"12.5","T":-5,"m":false}"#;
    match decode_feed_message(json).unwrap() {
        FeedMessage::Trade(t) => {
            assert_eq!(&t.symbol, b"ETHBTC\0\0");
            assert_eq!(t.price, "0.05");
            assert_eq!(t.volume, "12.5");
            assert_eq!(t.trade_time_ms, -5);
            assert_eq!(t.conditions, 0);
        }
        other => panic!("expected a trade, got {other:?}"),
    }
}

#[test]
fn trade_maker_flag_defaults_to_buyer_maker() {
    let json = r#"{"stream":"btcusdt@trade","data":{"s":"BTCUSDT","p":"1","q":"2","T":7}}"#;
    match decode_feed_message(json).unwrap() {
        FeedMessage::Trade(t) => assert_eq!(t.conditions, 1),
        other => panic!("expected a trade, got {other:?}"),
    }
}

#[test]
fn trade_errors_name_the_first_missing_field() {
    let cases = [
        (r#"{"e":"trade","p":"1","q":"1","T":1}"#, "missing symbol"),
        (r#"{"e":"trade","s":"X","p":"abc","q":"1","T":1}"#, "missing/invalid price"),
        (r#"{"e":"trade","s":"X","p":"1","T":1}"#, "missing/invalid quantity"),
        (r#"{"e":"trade","s":"X","p":"1","q":"1"}"#, "missing trade time"),
    ];
    for (json, msg) in cases {
        assert_eq!(decode_feed_message(json), Err(ExchangeError::JsonParse(msg.to_string())));
    }
}

#[test]
fn depth_snapshot_keeps_pairs_and_skips_others() {
    let json = r#"{"stream":"btcusdt@depth20@100ms","data":{
        "s":"BTCUSDT","lastUpdateId":42,
        "bids":[["100.5","2"],["99","1"],["bad"]],
        "asks":[["101","0.5"],7]}}"#;
    match decode_feed_message(json).unwrap() {
        FeedMessage::Depth(d) => {
            assert_eq!(d.symbol, "btcusdt");
            assert_eq!(d.last_update_id, 42);
            assert_eq!(d.bids.len(), 2);
            assert_eq!(d.bids[0].price, "100.5");
            assert_eq!(d.bids[0].size, "2");
            assert_eq!(d.bids[1].price, "99");
            assert_eq!(d.asks.len(), 1);
            assert_eq!(d.asks[0].size, "0.5");
        }
        other => panic!("expected a depth snapshot, got {other:?}"),
    }
}

#[test]
fn depth_errors() {
    let cases = [
        (r#"{"e":"depthUpdate","lastUpdateId":1,"bids":[],"asks":[]}"#, "depth missing symbol"),
        (r#"{"e":"depthUpdate","s":"A","bids":[],"asks":[]}"#, "depth missing lastUpdateId"),
        (r#"{"e":"depthUpdate","s":"A","lastUpdateId":1,"asks":[]}"#, "depth missing bids"),
        (r#"{"e":"depthUpdate","s":"A","lastUpdateId":1,"bids":{},"asks":[]}"#, "depth levels not an array"),
        (r#"{"e":"depthUpdate","s":"A","lastUpdateId":1,"bids":[["x","1"]],"asks":[]}"#, "depth invalid price"),
        (r#"{"e":"depthUpdate","s":"A","lastUpdateId":1,"bids":[["1","y"]],"asks":[]}"#, "depth invalid size"),
        (r#"{"e":"depthUpdate","s":"A","lastUpdateId":1,"bids":[]}"#, "depth missing asks"),
    ];
    for (json, msg) in cases {
        assert_eq!(decode_feed_message(json), Err(ExchangeError::JsonParse(msg.to_string())));
    }
}

#[test]
fn exchange_error_reply() {
    let json = r#"{"code":-1121,"msg":"Invalid symbol."}"#;
    assert_eq!(
        decode_feed_message(json),
        Err(ExchangeError::Exchange("code -1121: Invalid symbol.".to_string()))
    );
    assert_eq!(
        decode_feed_message(r#"{"code":5}"#),
        Err(ExchangeError::Exchange("code 5: unknown".to_string()))
    );
}

#[test]
fn envelope_and_routing() {
    assert_eq!(
        decode_feed_message(r#"{"stream":"btcusdt@trade"}"#),
        Err(ExchangeError::JsonParse("combined stream missing 'data' field".to_string()))
    );
    assert_eq!(decode_feed_message(r#"{"stream":"btcusdt@kline_1m","data":{}}"#), Ok(FeedMessage::Ignored));
    assert_eq!(decode_feed_message(r#"{"e":"kline"}"#), Ok(FeedMessage::Ignored));
    assert_eq!(decode_feed_message(r#"{"result":null,"id":1}"#), Ok(FeedMessage::Ignored));
    assert!(matches!(decode_feed_message("not json"), Err(ExchangeError::JsonParse(_))));
}

#[test]
fn decimal_texts_follow_float_syntax() {
    for ok in ["1", "1.", ".5", "-0.25", "+3e5", "1E-7", "inf", "-Infinity", "NaN", "1.e5", "+iNf", "007"] {
        let json = format!(r#"{{"e":"trade","s":"X","p":"{ok}","q":"1","T":1}}"#);
        assert!(matches!(decode_feed_message(&json), Ok(FeedMessage::Trade(_))), "{ok}");
        assert!(ok.parse::<f64>().is_ok());
    }
    for bad in ["", ".", "e5", "1e", "1.2.3", "0x10", " 1", "infinit", ".e1", "--1", "1e+", "nan1"] {
        let json = format!(r#"{{"e":"trade","s":"X","p":"{bad}","q":"1","T":1}}"#);
        assert_eq!(
            decode_feed_message(&json),
            Err(ExchangeError::JsonParse("missing/invalid price".to_string())),
            "{bad}"
        );
        assert!(bad.parse::<f64>().is_err());
    }
}

#[test]
fn subscription_rules() {
    let mut subs = SymbolSubscriptions::new();
    assert_eq!(subs.subscribe("-/"), Err(CoreError::InvalidSymbol("-/".to_string())));
    subs.subscribe("btc-usdt").unwrap();
    subs.subscribe("eth/usdt").unwrap();
    subs.unsubscribe("BTC/USDT");
    assert_eq!(subs.symbols(), &vec!["ethusdt".to_string()]);
    assert_eq!(normalize_feed_symbol("Sol-USDC"), "solusdc");
    assert_eq!(
        feed_url(&["ethusdt".to_string()]),
        "wss://stream.binance.com:9443/stream?streams=ethusdt@trade/ethusdt@depth20@100ms"
    );
}

#[test]
fn fixed_width_symbols() {
    assert_eq!(&symbol_to_bytes("btcusdt"), b"BTCUSDT\0");
    assert_eq!(&symbol_to_bytes("averylongsymbol"), b"AVERYLON");
    assert_eq!(symbol_to_string(b"ES      "), "ES");
    assert_eq!(symbol_to_string(b"BTCUSD\0\0"), "BTCUSD\0\0".trim());
}

#[test]
fn suffix_check() {
    assert!(str_ends_with("abc@trade", "@trade"));
    assert!(!str_ends_with("trade", "@trade"));
    assert!(str_ends_with("x", ""));
}

#[test]
fn backoff_window_and_jitter() {
    assert_eq!(backoff_window_ms(1, 60, 1000), 1000);
    assert_eq!(backoff_window_ms(3, 60, 1000), 4000);
    assert_eq!(backoff_window_ms(10, 60, 1000), 60_000);
    assert_eq!(backoff_window_ms(0, 60, 1000), 1000);
    // The attempt number is mixed into bit 64 and up of the clock reading.
    assert_eq!(backoff_delay_at(1, 60, 1000, 750), 500);
    assert_eq!(backoff_delay_at(1, 60, 1000, 100), 716);
    assert_eq!(backoff_delay_at(3, 60, 1000, 2_003_999), 2847);
    assert_eq!(backoff_delay_at(3, 60, 1000, 0), 2848);
    assert_eq!(backoff_delay_at(5, 0, 1000, 0), 0);
}

#[test]
fn symbol_text_replaces_invalid_bytes() {
    assert_eq!(symbol_to_string(&[0xff, b'A', b' ', b' ', b' ', b' ', b' ', b' ']), "\u{fffd}A");
}

fn padded(s: &str) -> [u8; 8] {
    let mut b = [b' '; 8];
    b[..s.len()].copy_from_slice(s.as_bytes());
    b
}

#[test]
fn symbol_trim_removes_unicode_white_space_only() {
    let white = [
        '\u{9}', '\u{a}', '\u{b}', '\u{c}', '\u{d}', ' ', '\u{85}', '\u{a0}', '\u{1680}', '\u{2000}', '\u{2001}',
        '\u{2002}', '\u{2003}', '\u{2004}', '\u{2005}', '\u{2006}', '\u{2007}', '\u{2008}', '\u{2009}', '\u{200a}',
        '\u{2028}', '\u{2029}', '\u{202f}', '\u{205f}', '\u{3000}',
    ];
    for c in white {
        assert!(c.is_whitespace());
        let s = format!("{}AB{}", c, c);
        assert_eq!(symbol_to_string(&padded(&s)), "AB");
    }
    for c in ['\u{0}', '\u{200b}', '\u{180e}', '\u{feff}', 'x'] {
        assert!(!c.is_whitespace());
        let s = format!("{}AB", c);
        assert_eq!(symbol_to_string(&padded(&s)), s);
    }
}
