//! Broker configuration, connection handles, the mock broker and the
//! session state of the Binance broker (connection flag and the mapping
//! from our order ids to Binance's).
use crate::errors::CoreError;
use crate::signing::hex_lower;
use crate::text::to_owned_string;
use std::collections::HashMap;
use vstd::arithmetic::power2::pow2;
use vstd::prelude::*;
use vstd::std_specs::convert::FromSpec;
use vstd::std_specs::convert::FromSpecImpl;

verus! {

/// Configuration for connecting to a broker.
#[derive(Debug, Clone)]
pub struct BrokerConfig {
    pub api_key: String,
    pub api_secret: String,
    pub base_url: String,
    pub paper_trading: bool,
}

/// Credentials as stored in the OS keyring (serialised as JSON).
#[derive(Debug, Clone)]
pub struct StoredConfig {
    pub api_key: String,
    pub api_secret: String,
    pub base_url: String,
    pub paper_trading: bool,
}

impl<'a> From<&'a BrokerConfig> for StoredConfig {
    fn from(c: &'a BrokerConfig) -> (s: StoredConfig) {
        StoredConfig {
            api_key: c.api_key.clone(),
            api_secret: c.api_secret.clone(),
            base_url: c.base_url.clone(),
            paper_trading: c.paper_trading,
        }
    }
}

impl<'a> FromSpecImpl<&'a BrokerConfig> for StoredConfig {
    open spec fn obeys_from_spec() -> bool {
        true
    }

    open spec fn from_spec(c: &'a BrokerConfig) -> StoredConfig {
        StoredConfig {
            api_key: c.api_key,
            api_secret: c.api_secret,
            base_url: c.base_url,
            paper_trading: c.paper_trading,
        }
    }
}

impl From<StoredConfig> for BrokerConfig {
    fn from(s: StoredConfig) -> (c: BrokerConfig) {
        BrokerConfig {
            api_key: s.api_key,
            api_secret: s.api_secret,
            base_url: s.base_url,
            paper_trading: s.paper_trading,
        }
    }
}

impl FromSpecImpl<StoredConfig> for BrokerConfig {
    open spec fn obeys_from_spec() -> bool {
        true
    }

    open spec fn from_spec(s: StoredConfig) -> BrokerConfig {
        BrokerConfig {
            api_key: s.api_key,
            api_secret: s.api_secret,
            base_url: s.base_url,
            paper_trading: s.paper_trading,
        }
    }
}

/// Storing and restoring a configuration gives back the same fields.
pub proof fn law_stored_config_roundtrip(c: BrokerConfig)
    ensures
        ({
            let r = <BrokerConfig as FromSpec<StoredConfig>>::from_spec(
                <StoredConfig as FromSpec<&BrokerConfig>>::from_spec(&c),
            );
            &&& r.api_key@ == c.api_key@
            &&& r.api_secret@ == c.api_secret@
            &&& r.base_url@ == c.base_url@
            &&& r.paper_trading == c.paper_trading
        }),
{
}

/// Connection handle returned by a broker.
#[derive(Debug, Clone)]
pub struct ConnectionHandle {
    pub broker: String,
    pub session_id: String,
}

/// A simulated broker for paper trading and testing.
pub struct MockBroker {
    name: String,
}

/// Session id the mock broker hands out.
pub const MOCK_SESSION_ID: &'static str = "mock-session-001";

impl MockBroker {
    /// The broker's name as given at construction.
    pub closed spec fn spec_name(&self) -> Seq<char> {
        self.name@
    }

    /// A mock broker with the given name.
    pub fn new(name: &str) -> (b: Self)
        ensures
            b.spec_name() == name@,
    {
        MockBroker { name: to_owned_string(name) }
    }

    /// The broker's name.
    pub fn name(&self) -> (n: &str)
        ensures
            n@ == self.spec_name(),
    {
        self.name.as_str()
    }

    /// The handle a connection to this broker yields: its name and the
    /// fixed mock session id.
    pub fn connection_handle(&self) -> (h: ConnectionHandle)
        ensures
            h.broker@ == self.spec_name(),
            h.session_id@ == MOCK_SESSION_ID@,
    {
        ConnectionHandle { broker: self.name.clone(), session_id: to_owned_string(MOCK_SESSION_ID) }
    }
}

/// The 16 bytes of a 128-bit value, most significant first.
pub open spec fn be_bytes_u128(id: u128) -> Seq<u8> {
    Seq::new(16, |i: int| ((id as int / pow2((8 * (15 - i)) as nat) as int) % 256) as u8)
}

/// Hyphenated lowercase text of a UUID, as `uuid::Uuid`'s `Display`
/// writes it: the 32 hex digits of its big-endian bytes in groups of
/// 8, 4, 4, 4 and 12, joined by '-'.
pub open spec fn uuid_text(id: u128) -> Seq<char> {
    let h = hex_lower(be_bytes_u128(id));
    h.subrange(0, 8) + seq!['-'] + h.subrange(8, 12) + seq!['-'] + h.subrange(12, 16) + seq!['-']
        + h.subrange(16, 20) + seq!['-'] + h.subrange(20, 32)
}

/// A random (version 4) UUID: the version nibble (bits 76 to 79 of its
/// big-endian integer) is 4 and the variant bits (63 and 62) are `10`.
pub open spec fn is_random_uuid(id: u128) -> bool {
    &&& (id >> 76u128) & 0xFu128 == 4u128
    &&& (id >> 62u128) & 3u128 == 2u128
}

/// A fresh random (version 4) UUID as an integer
/// (`uuid::Uuid::new_v4().as_u128()`). Claims only the version and
/// variant bits, which `new_v4` sets by masking the random value; the
/// other 122 bits are random.
#[verifier::external_body]
fn new_uuid() -> (id: u128)
    ensures
        is_random_uuid(id),
{
    uuid::Uuid::new_v4().as_u128()
}

/// `uuid::Uuid::from_u128(id).to_string()`: `from_u128` takes the value's
/// big-endian bytes and `Display` writes them as lowercase hex in the
/// hyphenated 8-4-4-4-12 layout.
#[verifier::external_body]
fn uuid_string(id: u128) -> (s: String)
    ensures
        s@ == uuid_text(id),
{
    uuid::Uuid::from_u128(id).to_string()
}

/// Our identifier of an order (a UUID).
#[derive(Debug, Clone, Copy, PartialEq, Eq, Hash, Structural)]
pub struct OrderId(pub u128);

impl OrderId {
    /// A fresh random order id: a version 4 UUID.
    pub fn new() -> (id: OrderId)
        ensures
            is_random_uuid(id.0),
    {
        OrderId(new_uuid())
    }
}

/// The client order id sent with a new order: the caller's own, or
/// else the text of our order id, so that the exchange order can be
/// told apart and matched to ours.
pub fn client_order_id_for(given: Option<String>, ours: OrderId) -> (s: String)
    ensures
        match given {
            Some(g) => s@ == g@,
            None => s@ == uuid_text(ours.0),
        },
{
    match given {
        Some(g) => g,
        None => uuid_string(ours.0),
    }
}

/// The (exchange id, symbol) views of a map of orders.
pub open spec fn orders_view(m: Map<u128, (i64, String)>) -> Map<u128, (i64, Seq<char>)> {
    m.map_values(|v: (i64, String)| (v.0, v.1@))
}

/// Session state of the Binance broker: whether it is connected, and
/// which exchange order (numeric id and symbol) each of our order ids
/// stands for.
pub struct BrokerSession {
    connected: bool,
    orders: HashMap<u128, (i64, String)>,
}

impl BrokerSession {
    /// Whether the session is connected.
    pub closed spec fn is_connected(&self) -> bool {
        self.connected
    }

    /// Our order ids mapped to (exchange id, symbol).
    pub closed spec fn order_map(&self) -> Map<u128, (i64, Seq<char>)> {
        orders_view(self.orders@)
    }

    /// A disconnected session with no orders.
    pub fn new() -> (s: Self)
        ensures
            !s.is_connected(),
            s.order_map() == Map::<u128, (i64, Seq<char>)>::empty(),
    {
        let s = BrokerSession { connected: false, orders: HashMap::new() };
        proof {
            assert(s.order_map() =~= Map::<u128, (i64, Seq<char>)>::empty());
        }
        s
    }

    /// Whether the session is connected.
    pub fn connected(&self) -> (b: bool)
        ensures
            b == self.is_connected(),
    {
        self.connected
    }

    /// Mark the session connected; the order map is kept.
    pub fn mark_connected(&mut self)
        ensures
            final(self).is_connected(),
            final(self).order_map() == old(self).order_map(),
    {
        self.connected = true;
    }

    /// Disconnect: the session forgets every order.
    pub fn disconnect(&mut self)
        ensures
            !final(self).is_connected(),
            final(self).order_map() == Map::<u128, (i64, Seq<char>)>::empty(),
    {
        self.connected = false;
        self.orders.clear();
        proof {
            assert(self.order_map() =~= Map::<u128, (i64, Seq<char>)>::empty());
        }
    }

    /// Orders may only be sent or cancelled while connected.
    pub fn require_connected(&self) -> (r: Result<(), CoreError>)
        ensures
            self.is_connected() <==> r is Ok,
            r matches Err(e) ==> (e matches CoreError::Internal(m) && m@ == "Broker not connected"@),
    {
        if self.connected {
            Ok(())
        } else {
            Err(CoreError::Internal(to_owned_string("Broker not connected")))
        }
    }

    /// Forget the exchange order behind one of our ids (if any).
    pub fn forget_order(&mut self, id: OrderId)
        ensures
            final(self).is_connected() == old(self).is_connected(),
            final(self).order_map() == old(self).order_map().remove(id.0),
    {
        broadcast use vstd::std_specs::hash::group_hash_axioms;
        let _ = self.orders.remove(&id.0);
        proof {
            assert(self.order_map() =~= old(self).order_map().remove(id.0));
        }
    }

    /// Conclude the cancellation of order `id` with the exchange's answer:
    /// on success the order is forgotten, on failure nothing changes; the
    /// answer is passed on.
    pub fn complete_cancel(&mut self, id: OrderId, exchange: Result<(), CoreError>) -> (r: Result<(), CoreError>)
        ensures
            r == exchange,
            final(self).is_connected() == old(self).is_connected(),
            final(self).order_map() == (if exchange is Ok { old(self).order_map().remove(id.0) } else { old(self).order_map() }),
    {
        if exchange.is_ok() {
            self.forget_order(id);
        }
        exchange
    }

    /// Remember which exchange order one of our ids stands for.
    pub fn record_order(&mut self, id: OrderId, exchange_id: i64, symbol: String)
        ensures
            final(self).is_connected() == old(self).is_connected(),
            final(self).order_map() == old(self).order_map().insert(id.0, (exchange_id, symbol@)),
    {
        broadcast use vstd::std_specs::hash::group_hash_axioms;
        let ghost sym = symbol@;
        let _ = self.orders.insert(id.0, (exchange_id, symbol));
        proof {
            assert(self.order_map() =~= old(self).order_map().insert(id.0, (exchange_id, sym)));
        }
    }

    /// The exchange order behind one of our ids; `OrderNotFound` with the
    /// id's UUID text when there is none.
    pub fn lookup_order(&self, id: OrderId) -> (r: Result<(i64, String), CoreError>)
        ensures
            match r {
                Ok((x, s)) => self.order_map().dom().contains(id.0) && self.order_map()[id.0] == (x, s@),
                Err(e) => !self.order_map().dom().contains(id.0) && (e matches CoreError::OrderNotFound(t)
                    && t@ == uuid_text(id.0)),
            },
    {
        broadcast use vstd::std_specs::hash::group_hash_axioms;
        match self.orders.get(&id.0) {
            Some(v) => Ok((v.0, v.1.clone())),
            None => Err(CoreError::OrderNotFound(uuid_string(id.0))),
        }
    }
}

impl Default for BrokerSession {
    /// A disconnected session with no orders.
    fn default() -> (s: Self)
        ensures
            !s.is_connected(),
            s.order_map() == Map::<u128, (i64, Seq<char>)>::empty(),
    {
        BrokerSession::new()
    }
}

/// Recording an order and looking it up gives back what was recorded.
pub proof fn law_record_then_lookup(m: Map<u128, (i64, Seq<char>)>, id: u128, x: i64, sym: Seq<char>)
    ensures
        m.insert(id, (x, sym)).dom().contains(id),
        m.insert(id, (x, sym))[id] == (x, sym),
{
}

} // verus!
