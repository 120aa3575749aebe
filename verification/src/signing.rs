//! HMAC-SHA256 request signatures rendered as lowercase hex.
use hmac::{Hmac, Mac};
use sha2::Sha256;
use vstd::prelude::*;

verus! {

/// Lowercase hex digit for a nibble.
pub open spec fn hex_digit(d: nat) -> char {
    if d < 10 {
        ((48 + d) as u8) as char
    } else {
        ((87 + d) as u8) as char
    }
}

/// Lowercase hex encoding: two digits per byte, high nibble first.
pub open spec fn hex_lower(bytes: Seq<u8>) -> Seq<char>
    decreases bytes.len(),
{
    if bytes.len() == 0 {
        Seq::empty()
    } else {
        seq![hex_digit((bytes[0] / 16) as nat), hex_digit((bytes[0] % 16) as nat)] + hex_lower(
            bytes.drop_first(),
        )
    }
}

/// HMAC-SHA256 of `msg` under `key`, as the `hmac` and `sha2` crates
/// compute it.
pub uninterp spec fn hmac_sha256(key: Seq<u8>, msg: Seq<u8>) -> Seq<u8>;

/// `hex::encode`: the bytes as a lowercase hex string.
///
/// Claims the result is exactly `hex_lower(bytes)`: the crate maps each
/// byte to the table `0123456789abcdef` at its high then low nibble.
#[verifier::external_body]
fn hex_encode(bytes: &[u8]) -> (s: String)
    ensures
        s@ == hex_lower(bytes@),
{
    hex::encode(bytes)
}

/// `Hmac::<Sha256>::new_from_slice(key)`, `update(msg)`, `finalize()`:
/// the 32-byte authentication tag.
///
/// Claims the tag is `hmac_sha256(key, msg)` (a function of the two byte
/// strings alone) and is 32 bytes long (SHA-256's output size). Key
/// setup accepts keys of any length, so the `expect` never fires.
#[verifier::external_body]
fn hmac_sha256_tag(key: &[u8], msg: &[u8]) -> (tag: Vec<u8>)
    ensures
        tag@ == hmac_sha256(key@, msg@),
        tag@.len() == 32,
{
    let mut mac = <Hmac<Sha256> as Mac>::new_from_slice(key).expect("HMAC accepts any key length");
    mac.update(msg);
    mac.finalize().into_bytes().to_vec()
}

/// The signature of a query: hex of its HMAC-SHA256 under the secret.
pub open spec fn signature_spec(secret: Seq<u8>, query: Seq<char>) -> Seq<char> {
    hex_lower(hmac_sha256(secret, vstd::utf8::encode_utf8(query)))
}

/// Hex encoding doubles the length.
pub proof fn lemma_hex_len(bytes: Seq<u8>)
    ensures
        hex_lower(bytes).len() == 2 * bytes.len(),
    decreases bytes.len(),
{
    if bytes.len() > 0 {
        lemma_hex_len(bytes.drop_first());
    }
}

/// Sign a query string with HMAC-SHA256 and render the tag as hex.
pub fn sign_query(secret: &[u8], query: &str) -> (sig: String)
    ensures
        sig@ == signature_spec(secret@, query@),
        sig@.len() == 64,
        forall|i: int|
            0 <= i < 64 ==> {
                let c = #[trigger] sig@[i];
                ('0' <= c && c <= '9') || ('a' <= c && c <= 'f')
            },
{
    let tag = hmac_sha256_tag(secret, query.as_bytes());
    let sig = hex_encode(tag.as_slice());
    proof {
        lemma_hex_len(tag@);
        lemma_hex_digits(tag@);
    }
    sig
}

/// Every character of a hex encoding is a lowercase hex digit.
pub proof fn lemma_hex_digits(bytes: Seq<u8>)
    ensures
        forall|i: int|
            0 <= i < hex_lower(bytes).len() ==> {
                let c = #[trigger] hex_lower(bytes)[i];
                ('0' <= c && c <= '9') || ('a' <= c && c <= 'f')
            },
    decreases bytes.len(),
{
    if bytes.len() > 0 {
        lemma_hex_digits(bytes.drop_first());
        let hi = (bytes[0] / 16) as nat;
        let lo = (bytes[0] % 16) as nat;
        assert(hi < 16 && lo < 16);
        let head = seq![hex_digit(hi), hex_digit(lo)];
        let tail = hex_lower(bytes.drop_first());
        assert(hex_lower(bytes) == head + tail);
        assert forall|i: int| 0 <= i < hex_lower(bytes).len() implies {
            let c = #[trigger] hex_lower(bytes)[i];
            ('0' <= c && c <= '9') || ('a' <= c && c <= 'f')
        } by {
            if i >= 2 {
                assert(hex_lower(bytes)[i] == tail[i - 2]);
            }
        }
    }
}

} // verus!
