use velox::broker::{BrokerConfig, BrokerSession, ConnectionHandle, MockBroker, OrderId, StoredConfig, MOCK_SESSION_ID};
use velox::errors::CoreError;
use velox::keystore::{delete, entry_error, load, save, KeyringReport, SERVICE_NAME, USERNAME};

fn test_config() -> BrokerConfig {
    BrokerConfig {
        api_key: "test_key_12345".into(),
        api_secret: "test_secret_67890".into(),
        base_url: "https://test.binance.com".into(),
        paper_trading: true,
    }
}

#[test]
fn test_stored_config_roundtrip() {
    let config = test_config();
    let stored = StoredConfig::from(&config);
    let restored = BrokerConfig::from(stored);

    assert_eq!(restored.api_key, "test_key_12345");
    assert_eq!(restored.api_secret, "test_secret_67890");
    assert_eq!(restored.base_url, "https://test.binance.com");
    assert!(restored.paper_trading);
}

#[test]
fn mock_broker_identity() {
    let broker = MockBroker::new("paper");
    assert_eq!(broker.name(), "paper");
    let handle: ConnectionHandle = broker.connection_handle();
    assert_eq!(handle.broker, "paper");
    assert_eq!(handle.session_id, MOCK_SESSION_ID);
    assert_eq!(handle.session_id, "mock-session-001");
}

#[test]
fn session_requires_connection() {
    let mut s = BrokerSession::new();
    assert!(!s.connected());
    assert_eq!(s.require_connected(), Err(CoreError::Internal("Broker not connected".into())));
    s.mark_connected();
    assert!(s.connected());
    assert_eq!(s.require_connected(), Ok(()));
}

#[test]
fn session_records_and_forgets_orders() {
    let mut s = BrokerSession::new();
    s.mark_connected();
    let a = OrderId(0x0123_4567_89ab_cdef_0123_4567_89ab_cdef);
    let b = OrderId(7);
    s.record_order(a, 42, "BTCUSDT".into());
    s.record_order(b, 43, "ETHUSDT".into());
    assert_eq!(s.lookup_order(a), Ok((42, "BTCUSDT".to_string())));
    s.record_order(a, 44, "BNBUSDT".into());
    assert_eq!(s.lookup_order(a), Ok((44, "BNBUSDT".to_string())));
    s.forget_order(a);
    assert_eq!(
        s.lookup_order(a),
        Err(CoreError::OrderNotFound("01234567-89ab-cdef-0123-456789abcdef".into()))
    );
    assert_eq!(s.lookup_order(b), Ok((43, "ETHUSDT".to_string())));
    s.disconnect();
    assert!(!s.connected());
    assert_eq!(s.lookup_order(b), Err(CoreError::OrderNotFound("00000000-0000-0000-0000-000000000007".into())));
}

#[test]
fn fresh_order_ids_differ() {
    let a = OrderId::new();
    let b = OrderId::new();
    assert_ne!(a, b);
    for id in [a, b] {
        assert_eq!((id.0 >> 76) & 0xF, 4);
        assert_eq!((id.0 >> 62) & 3, 2);
        assert!(uuid::Uuid::from_u128(id.0).get_version_num() == 4);
    }
}

#[test]
fn keyring_reports() {
    assert_eq!(SERVICE_NAME, "velox-terminal");
    assert_eq!(USERNAME, "binance-api");
    assert_eq!(delete(KeyringReport::Done(())), Ok(()));
    assert_eq!(delete(KeyringReport::NoEntry), Ok(()));
    assert_eq!(delete(KeyringReport::Failed("locked".into())), Err("Keyring delete_credential: locked".into()));
    assert_eq!(load(KeyringReport::Done("{}".into())), Ok(Some("{}".into())));
    assert_eq!(load(KeyringReport::NoEntry), Ok(None));
    assert_eq!(load(KeyringReport::Failed("x".into())), Err("Keyring get_password: x".into()));
    assert_eq!(save(Ok(())), Ok(()));
    assert_eq!(save(Err("denied".into())), Err("Keyring set_password: denied".into()));
    assert_eq!(entry_error("no dbus"), "Keyring entry creation: no dbus");
}

fn check_is_connected_initially_false() {
    let session = BrokerSession::new();
    assert!(!session.connected());
}

fn check_submit_order_requires_connection() {
    let session = BrokerSession::new();
    let result = session.require_connected();
    assert!(result.is_err(), "Should fail without connection");
}

fn check_connect_and_connection_state() {
    let mut session = BrokerSession::new();
    session.mark_connected();
    assert!(session.connected());
    session.disconnect();
    assert!(!session.connected());
}

fn check_default() {
    let session = BrokerSession::default();
    assert!(!session.connected());
}

#[test]
fn binance_broker_test_is_connected_initially_false() {
    check_is_connected_initially_false();
}

#[test]
fn tests_test_is_connected_initially_false() {
    check_is_connected_initially_false();
}

#[test]
fn binance_broker_test_submit_order_requires_connection() {
    check_submit_order_requires_connection();
}

#[test]
fn tests_test_submit_order_requires_connection() {
    check_submit_order_requires_connection();
}

#[test]
fn binance_broker_test_connect_and_connection_state() {
    check_connect_and_connection_state();
}

#[test]
fn tests_test_connect_and_connection_state() {
    check_connect_and_connection_state();
}

#[test]
fn binance_broker_test_default() {
    check_default();
}

#[test]
fn tests_test_default() {
    check_default();
}

#[test]
fn client_order_ids() {
    let ours = OrderId(0xff);
    assert_eq!(velox::broker::client_order_id_for(Some("mine".into()), ours), "mine");
    assert_eq!(velox::broker::client_order_id_for(None, ours), "00000000-0000-0000-0000-0000000000ff");
}

#[test]
fn cancel_forgets_only_on_success() {
    let mut s = BrokerSession::new();
    s.mark_connected();
    let a = OrderId(1);
    s.record_order(a, 42, "BTCUSDT".into());
    let refused = Err(CoreError::Internal("Binance cancel failed: rejected".into()));
    assert_eq!(s.complete_cancel(a, refused.clone()), refused);
    assert_eq!(s.lookup_order(a), Ok((42, "BTCUSDT".to_string())));
    assert_eq!(s.complete_cancel(a, Ok(())), Ok(()));
    assert!(s.lookup_order(a).is_err());
    assert!(s.connected());
}
