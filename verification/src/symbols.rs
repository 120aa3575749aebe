//! Trading-symbol handling: normalisation of user-entered symbols, the
//! subscription list of a market feed, fixed-width symbol bytes and
//! the combined-stream path of the Binance WebSocket feed.
use crate::errors::CoreError;
use crate::text::{push_char, push_str, to_owned_string};
use vstd::prelude::*;
use vstd::string::StrSliceExecFns;

verus! {

/// `str::to_lowercase` of a string (Unicode lowercase mapping).
pub uninterp spec fn str_to_lowercase(s: Seq<char>) -> Seq<char>;

/// `str::to_uppercase` of a string (Unicode uppercase mapping).
pub uninterp spec fn str_to_uppercase(s: Seq<char>) -> Seq<char>;

/// `String::from_utf8_lossy` of a byte string.
pub uninterp spec fn utf8_lossy(bytes: Seq<u8>) -> Seq<char>;

/// A character with the Unicode `White_Space` property, which
/// `char::is_whitespace` tests: U+0009 to U+000D, U+0020, U+0085, U+00A0,
/// U+1680, U+2000 to U+200A, U+2028, U+2029, U+202F, U+205F and U+3000.
pub open spec fn is_white_space(c: char) -> bool {
    let u = c as u32;
    ||| 0x09 <= u <= 0x0D
    ||| u == 0x20
    ||| u == 0x85
    ||| u == 0xA0
    ||| u == 0x1680
    ||| 0x2000 <= u <= 0x200A
    ||| u == 0x2028
    ||| u == 0x2029
    ||| u == 0x202F
    ||| u == 0x205F
    ||| u == 0x3000
}

/// The string without its leading white space.
pub open spec fn trim_start_spec(s: Seq<char>) -> Seq<char>
    decreases s.len(),
{
    if s.len() > 0 && is_white_space(s[0]) {
        trim_start_spec(s.drop_first())
    } else {
        s
    }
}

/// The string without its trailing white space.
pub open spec fn trim_end_spec(s: Seq<char>) -> Seq<char>
    decreases s.len(),
{
    if s.len() > 0 && is_white_space(s.last()) {
        trim_end_spec(s.drop_last())
    } else {
        s
    }
}

/// `str::trim` of a string: leading and trailing white space removed.
pub open spec fn str_trim(s: Seq<char>) -> Seq<char> {
    trim_end_spec(trim_start_spec(s))
}

/// `str::to_lowercase`. Claims only that the result is the lowercase
/// mapping of the input, a function of the input alone.
#[verifier::external_body]
pub(crate) fn lowercase(s: &str) -> (r: String)
    ensures
        r@ == str_to_lowercase(s@),
{
    s.to_lowercase()
}

/// `str::to_uppercase`. Claims only that the result is the uppercase
/// mapping of the input, a function of the input alone.
#[verifier::external_body]
fn uppercase(s: &str) -> (r: String)
    ensures
        r@ == str_to_uppercase(s@),
{
    s.to_uppercase()
}

/// `String::from_utf8_lossy(bytes).into_owned()`. Claims the result is a
/// function of the bytes and, as documented, that valid UTF-8 comes back
/// unchanged.
#[verifier::external_body]
fn from_utf8_lossy(bytes: &[u8]) -> (r: String)
    ensures
        r@ == utf8_lossy(bytes@),
        vstd::utf8::valid_utf8(bytes@) ==> r@ == vstd::utf8::decode_utf8(bytes@),
{
    String::from_utf8_lossy(bytes).into_owned()
}

/// `str::trim(s).to_string()`. As documented, `trim` removes leading and
/// trailing characters with the Unicode `White_Space` property and keeps
/// the rest.
#[verifier::external_body]
fn trim(s: &str) -> (r: String)
    ensures
        r@ == str_trim(s@),
{
    s.trim().to_string()
}

/// Holds of every character but '-' and '/'.
pub open spec fn not_separator() -> spec_fn(char) -> bool {
    |c: char| c != '-' && c != '/'
}

/// Holds of every string but `n`.
pub open spec fn differs_from(n: Seq<char>) -> spec_fn(Seq<char>) -> bool {
    |x: Seq<char>| x != n
}

/// Filtering an extended sequence filters the prefix and keeps the new
/// element when it passes.
pub proof fn lemma_filter_push<A>(s: Seq<A>, pred: spec_fn(A) -> bool, x: A)
    ensures
        s.push(x).filter(pred) == (if pred(x) { s.filter(pred).push(x) } else { s.filter(pred) }),
{
    reveal(Seq::filter);
    assert(s.push(x).drop_last() =~= s);
}

/// The string without any '-' or '/' characters.
pub open spec fn strip_separators(s: Seq<char>) -> Seq<char> {
    s.filter(not_separator())
}

/// Feed form of a symbol: lowercase with '-' and '/' removed
/// (`BTC-USDT` becomes `btcusdt`).
pub open spec fn feed_symbol(s: Seq<char>) -> Seq<char> {
    strip_separators(str_to_lowercase(s))
}

/// Order form of a symbol: uppercase with '-' and '/' removed
/// (`btc/usdt` becomes `BTCUSDT`).
pub open spec fn order_symbol(s: Seq<char>) -> Seq<char> {
    strip_separators(str_to_uppercase(s))
}

/// Remove every '-' and '/' from `s`.
pub fn remove_separators(s: &str) -> (r: String)
    ensures
        r@ == strip_separators(s@),
{
    let mut r = String::new();
    let n = s.unicode_len();
    let mut i: usize = 0;
    while i < n
        invariant
            n == s@.len(),
            i <= n,
            r@ == strip_separators(s@.take(i as int)),
        decreases n - i,
    {
        let c = s.get_char(i);
        proof {
            assert(s@.take(i + 1) =~= s@.take(i as int).push(c));
            lemma_filter_push(s@.take(i as int), not_separator(), c);
        }
        if c != '-' && c != '/' {
            push_char(&mut r, c);
        }
        i = i + 1;
    }
    proof {
        assert(s@.take(n as int) =~= s@);
    }
    r
}

/// Normalise a symbol for the market feed: lowercase, separators removed.
pub fn normalize_feed_symbol(symbol: &str) -> (r: String)
    ensures
        r@ == feed_symbol(symbol@),
{
    let lower = lowercase(symbol);
    remove_separators(lower.as_str())
}

/// Normalise a symbol for order placement: uppercase, separators removed.
pub fn normalize_order_symbol(symbol: &str) -> (r: String)
    ensures
        r@ == order_symbol(symbol@),
{
    let upper = uppercase(symbol);
    remove_separators(upper.as_str())
}

/// Printable form of a fixed-width symbol: the bytes read as UTF-8
/// (invalid sequences replaced) with surrounding white space trimmed.
pub fn symbol_to_string(sym: &[u8; 8]) -> (r: String)
    ensures
        r@ == str_trim(utf8_lossy(sym@)),
{
    let s = from_utf8_lossy(sym.as_slice());
    trim(s.as_str())
}

/// Fixed-width form of an exchange symbol: the first eight bytes of its
/// uppercase UTF-8 encoding, zero-padded.
pub open spec fn symbol_bytes_spec(raw: Seq<char>) -> Seq<u8> {
    let b = vstd::utf8::encode_utf8(str_to_uppercase(raw));
    Seq::new(8, |i: int| if i < b.len() { b[i] } else { 0u8 })
}

/// Convert an exchange symbol to zero-padded uppercase ASCII bytes.
pub fn symbol_to_bytes(symbol_raw: &str) -> (out: [u8; 8])
    ensures
        out@ == symbol_bytes_spec(symbol_raw@),
{
    let mut out: [u8; 8] = [0u8; 8];
    let upper = uppercase(symbol_raw);
    let bytes = upper.as_str().as_bytes();
    let len = if bytes.len() < 8 { bytes.len() } else { 8 };
    let mut i: usize = 0;
    while i < len
        invariant
            len <= 8,
            len <= bytes@.len(),
            bytes@ == vstd::utf8::encode_utf8(str_to_uppercase(symbol_raw@)),
            i <= len,
            forall|j: int| 0 <= j < i ==> out@[j] == bytes@[j],
            forall|j: int| i <= j < 8 ==> out@[j] == 0u8,
        decreases len - i,
    {
        out[i] = bytes[i];
        i = i + 1;
    }
    proof {
        assert(out@ =~= symbol_bytes_spec(symbol_raw@));
    }
    out
}

/// The symbols a feed is subscribed to, in feed form, each once.
pub struct SymbolSubscriptions {
    symbols: Vec<String>,
}

/// `s` contains no string twice.
pub open spec fn no_duplicates(s: Seq<Seq<char>>) -> bool {
    forall|i: int, j: int| 0 <= i < j < s.len() ==> s[i] != s[j]
}

/// Effect of subscribing to `symbol` on the list `l`.
pub open spec fn subscribe_spec(l: Seq<Seq<char>>, symbol: Seq<char>) -> Seq<Seq<char>> {
    let n = feed_symbol(symbol);
    if n.len() == 0 || l.contains(n) {
        l
    } else {
        l.push(n)
    }
}

/// Effect of unsubscribing from `symbol` on the list `l`.
pub open spec fn unsubscribe_spec(l: Seq<Seq<char>>, symbol: Seq<char>) -> Seq<Seq<char>> {
    l.filter(differs_from(feed_symbol(symbol)))
}

impl SymbolSubscriptions {
    /// The subscribed symbols, in subscription order.
    pub closed spec fn view(&self) -> Seq<Seq<char>> {
        self.symbols@.map_values(|s: String| s@)
    }

    /// An empty list.
    pub fn new() -> (s: Self)
        ensures
            s@ == Seq::<Seq<char>>::empty(),
    {
        let s = SymbolSubscriptions { symbols: Vec::new() };
        assert(s@ =~= Seq::<Seq<char>>::empty());
        s
    }

    /// The subscribed symbols.
    pub fn symbols(&self) -> (v: &Vec<String>)
        ensures
            v@.map_values(|x: String| x@) == self@,
    {
        &self.symbols
    }

    fn contains(&self, n: &String) -> (b: bool)
        ensures
            b == self@.contains(n@),
    {
        let len = self.symbols.len();
        let mut i: usize = 0;
        while i < len
            invariant
                len == self.symbols@.len(),
                i <= len,
                forall|j: int| 0 <= j < i ==> self@[j] != n@,
            decreases len - i,
        {
            if self.symbols[i] == *n {
                proof {
                    assert(self@[i as int] == n@);
                }
                return true;
            }
            i = i + 1;
        }
        false
    }

    /// Subscribe to a symbol, given in any case and with or without
    /// separators. A symbol with nothing left after normalisation is
    /// refused with `InvalidSymbol` carrying the input; subscribing twice
    /// has no further effect.
    pub fn subscribe(&mut self, symbol: &str) -> (r: Result<(), CoreError>)
        ensures
            feed_symbol(symbol@).len() == 0 <==> r is Err,
            r matches Err(e) ==> (e matches CoreError::InvalidSymbol(s) && s@ == symbol@),
            final(self)@ == subscribe_spec(old(self)@, symbol@),
            no_duplicates(old(self)@) ==> no_duplicates(final(self)@),
    {
        let normalized = normalize_feed_symbol(symbol);
        if normalized.unicode_len() == 0 {
            return Err(CoreError::InvalidSymbol(to_owned_string(symbol)));
        }
        if !self.contains(&normalized) {
            let ghost before = self@;
            self.symbols.push(normalized);
            proof {
                assert(self@ =~= before.push(feed_symbol(symbol@)));
            }
        }
        Ok(())
    }

    /// Unsubscribe from a symbol (normalised the same way); every entry
    /// equal to it is removed.
    pub fn unsubscribe(&mut self, symbol: &str)
        ensures
            final(self)@ == unsubscribe_spec(old(self)@, symbol@),
    {
        let normalized = normalize_feed_symbol(symbol);
        let ghost n = normalized@;
        let ghost old_view = self@;
        let mut kept: Vec<String> = Vec::new();
        let len = self.symbols.len();
        let mut i: usize = 0;
        while i < len
            invariant
                len == self.symbols@.len(),
                old_view == self@,
                n == normalized@,
                i <= len,
                kept@.map_values(|x: String| x@) == old_view.take(i as int).filter(differs_from(n)),
            decreases len - i,
        {
            let ghost kv = kept@.map_values(|x: String| x@);
            proof {
                assert(old_view.take(i + 1) =~= old_view.take(i as int).push(old_view[i as int]));
                lemma_filter_push(old_view.take(i as int), differs_from(n), old_view[i as int]);
            }
            if self.symbols[i] != normalized {
                let s = self.symbols[i].clone();
                kept.push(s);
                proof {
                    assert(kept@.map_values(|x: String| x@) =~= kv.push(old_view[i as int]));
                }
            }
            i = i + 1;
        }
        proof {
            assert(old_view.take(len as int) =~= old_view);
        }
        self.symbols = kept;
    }
}

/// Subscribing is idempotent.
pub proof fn law_subscribe_idempotent(l: Seq<Seq<char>>, symbol: Seq<char>)
    ensures
        subscribe_spec(subscribe_spec(l, symbol), symbol) == subscribe_spec(l, symbol),
{
    let n = feed_symbol(symbol);
    if n.len() != 0 && !l.contains(n) {
        assert(l.push(n)[l.len() as int] == n);
    }
}

/// After unsubscribing, the symbol is no longer in the list.
pub proof fn law_unsubscribe_removes(l: Seq<Seq<char>>, symbol: Seq<char>)
    ensures
        !unsubscribe_spec(l, symbol).contains(feed_symbol(symbol)),
{
    let r = unsubscribe_spec(l, symbol);
    if r.contains(feed_symbol(symbol)) {
        let k = choose|k: int| 0 <= k < r.len() && r[k] == feed_symbol(symbol);
        l.lemma_filter_pred(differs_from(feed_symbol(symbol)), k);
        assert(r.contains(r[k]));
    }
}

/// Subscribing to a new symbol and unsubscribing from it again restores
/// a duplicate-free list.
pub proof fn law_subscribe_unsubscribe(l: Seq<Seq<char>>, symbol: Seq<char>)
    requires
        !l.contains(feed_symbol(symbol)),
    ensures
        unsubscribe_spec(subscribe_spec(l, symbol), symbol) == l,
{
    let n = feed_symbol(symbol);
    let pred = differs_from(n);
    lemma_filter_all(l, n);
    if n.len() != 0 {
        lemma_filter_push(l, pred, n);
    }
}

proof fn lemma_filter_all(l: Seq<Seq<char>>, n: Seq<char>)
    requires
        !l.contains(n),
    ensures
        l.filter(differs_from(n)) == l,
    decreases l.len(),
{
    let pred = differs_from(n);
    if l.len() > 0 {
        let init = l.drop_last();
        assert(!init.contains(n)) by {
            if init.contains(n) {
                let k = choose|k: int| 0 <= k < init.len() && init[k] == n;
                assert(l[k] == n);
            }
        }
        lemma_filter_all(init, n);
        assert(l =~= init.push(l.last()));
        lemma_filter_push(init, pred, l.last());
        assert(l.last() != n) by {
            assert(l[l.len() - 1] == l.last());
        }
    } else {
        reveal(Seq::filter);
    }
}

/// The combined-stream entries of one symbol: its trade stream and its
/// 20-level book snapshot stream.
pub open spec fn symbol_streams(s: Seq<char>) -> Seq<char> {
    s + "@trade"@ + seq!['/'] + s + "@depth20@100ms"@
}

/// All symbols' stream entries joined with '/'.
pub open spec fn streams_joined(syms: Seq<Seq<char>>) -> Seq<char>
    decreases syms.len(),
{
    if syms.len() == 0 {
        Seq::empty()
    } else if syms.len() == 1 {
        symbol_streams(syms[0])
    } else {
        streams_joined(syms.drop_last()) + seq!['/'] + symbol_streams(syms.last())
    }
}

/// Query part of the combined-stream URL for the given symbols.
pub open spec fn stream_path_spec(syms: Seq<Seq<char>>) -> Seq<char> {
    "?streams="@ + streams_joined(syms)
}

/// Build the combined stream path (`?streams=a@trade/a@depth20@100ms/...`)
/// for the subscribed symbols.
pub fn build_stream_path(symbols: &[String]) -> (path: String)
    ensures
        path@ == stream_path_spec(symbols@.map_values(|s: String| s@)),
{
    let ghost sv = symbols@.map_values(|s: String| s@);
    let mut joined = String::new();
    let n = symbols.len();
    let mut i: usize = 0;
    while i < n
        invariant
            n == symbols@.len(),
            sv == symbols@.map_values(|s: String| s@),
            i <= n,
            joined@ == streams_joined(sv.take(i as int)),
        decreases n - i,
    {
        if i > 0 {
            push_char(&mut joined, '/');
        }
        let sym = symbols[i].as_str();
        push_str(&mut joined, sym);
        push_str(&mut joined, "@trade");
        push_char(&mut joined, '/');
        push_str(&mut joined, sym);
        push_str(&mut joined, "@depth20@100ms");
        proof {
            let t = sv.take(i + 1);
            assert(t.drop_last() =~= sv.take(i as int));
            assert(t.last() == symbols@[i as int]@);
            if i > 0 {
                assert(joined@ =~= streams_joined(t.drop_last()) + seq!['/'] + symbol_streams(t.last()));
            } else {
                assert(joined@ =~= symbol_streams(t[0]));
            }
        }
        i = i + 1;
    }
    proof {
        assert(sv.take(n as int) =~= sv);
    }
    let mut path = to_owned_string("?streams=");
    push_str(&mut path, joined.as_str());
    path
}

/// Base URL of Binance's combined-stream WebSocket endpoint.
pub const BINANCE_WS_URL: &'static str = "wss://stream.binance.com:9443/stream";

/// Full WebSocket URL of the combined stream for the given symbols.
pub fn feed_url(symbols: &[String]) -> (url: String)
    ensures
        url@ == BINANCE_WS_URL@ + stream_path_spec(symbols@.map_values(|s: String| s@)),
{
    let mut url = to_owned_string(BINANCE_WS_URL);
    let path = build_stream_path(symbols);
    push_str(&mut url, path.as_str());
    url
}

/// With no symbol the path lists no stream.
pub proof fn law_stream_path_empty()
    ensures
        stream_path_spec(Seq::<Seq<char>>::empty()) == "?streams="@,
{
}

/// For one symbol `s` the path is exactly
/// `?streams=s@trade/s@depth20@100ms`.
pub proof fn law_stream_path_single(s: Seq<char>)
    ensures
        stream_path_spec(seq![s]) == "?streams="@ + s + "@trade/"@ + s + "@depth20@100ms"@,
{
    assert(seq![s].len() == 1);
    assert("@trade"@ + seq!['/'] =~= "@trade/"@) by {
        reveal_strlit("@trade");
        reveal_strlit("@trade/");
    }
    assert(stream_path_spec(seq![s]) =~= "?streams="@ + s + "@trade/"@ + s + "@depth20@100ms"@);
}

/// Adding a symbol `s` after at least one other appends '/' and then its
/// two entries, `s@trade/s@depth20@100ms`, to the path of the others: every
/// entry, across symbols, is separated by '/'.
pub proof fn law_stream_path_append(syms: Seq<Seq<char>>, s: Seq<char>)
    requires
        syms.len() >= 1,
    ensures
        stream_path_spec(syms.push(s)) == stream_path_spec(syms) + "/"@ + s + "@trade/"@ + s + "@depth20@100ms"@,
{
    let t = syms.push(s);
    assert(t.drop_last() =~= syms);
    assert(t.last() == s);
    assert("@trade"@ + seq!['/'] =~= "@trade/"@) by {
        reveal_strlit("@trade");
        reveal_strlit("@trade/");
    }
    assert(seq!['/'] =~= "/"@) by {
        reveal_strlit("/");
    }
    assert(stream_path_spec(t) =~= stream_path_spec(syms) + "/"@ + s + "@trade/"@ + s + "@depth20@100ms"@);
}

/// For two symbols `a` and `b` the path is exactly
/// `?streams=a@trade/a@depth20@100ms/b@trade/b@depth20@100ms`.
pub proof fn law_stream_path_two(a: Seq<char>, b: Seq<char>)
    ensures
        stream_path_spec(seq![a, b]) == "?streams="@ + a + "@trade/"@ + a + "@depth20@100ms/"@ + b + "@trade/"@ + b
            + "@depth20@100ms"@,
{
    law_stream_path_single(a);
    law_stream_path_append(seq![a], b);
    assert(seq![a].push(b) =~= seq![a, b]);
    assert("@depth20@100ms"@ + "/"@ =~= "@depth20@100ms/"@) by {
        reveal_strlit("@depth20@100ms");
        reveal_strlit("/");
        reveal_strlit("@depth20@100ms/");
    }
    assert(stream_path_spec(seq![a, b]) =~= "?streams="@ + a + "@trade/"@ + a + "@depth20@100ms/"@ + b + "@trade/"@ + b
        + "@depth20@100ms"@);
}

} // verus!
