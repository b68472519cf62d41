//! API keys: "cad_" followed by 32 random bytes in lowercase hex.

use vstd::prelude::*;
use rand::RngCore;

use crate::text::push_str;

verus! {

/// The lowercase hex digit for `d < 16`.
pub open spec fn hex_digit(d: u8) -> char {
    if d < 10 { ((48 + d) as u8) as char } else { ((87 + d) as u8) as char }
}

/// Lowercase hex of bytes, two digits per byte, high half first, as
/// `hex::encode` documents it.
pub open spec fn hex_of(bytes: Seq<u8>) -> Seq<char>
    decreases bytes.len(),
{
    if bytes.len() == 0 {
        Seq::empty()
    } else {
        hex_of(bytes.drop_last()) + seq![hex_digit(bytes.last() / 16), hex_digit(bytes.last() % 16)]
    }
}

/// `rand::rngs::OsRng::fill_bytes` on a 32-byte buffer. The bytes are
/// random, so only their number is stated.
#[verifier::external_body]
fn random_key_bytes() -> (r: Vec<u8>)
    ensures
        r.len() == 32,
{
    let mut key = [0_u8; 32];
    rand::rngs::OsRng.fill_bytes(&mut key);
    key.to_vec()
}

/// `hex::encode`: the bytes in lowercase hex, two digits each.
#[verifier::external_body]
fn hex_encode(bytes: &[u8]) -> (r: String)
    ensures
        r@ == hex_of(bytes@),
{
    hex::encode(bytes)
}

/// The text of the API key made from `bytes`.
pub open spec fn api_key_of(bytes: Seq<u8>) -> Seq<char> {
    "cad_"@ + hex_of(bytes)
}

/// A fresh API key: "cad_" and the hex of 32 random bytes.
pub fn generate_api_key() -> (k: String)
    ensures
        exists|b: Seq<u8>| b.len() == 32 && k@ == api_key_of(b),
{
    let bytes = random_key_bytes();
    let hex = hex_encode(bytes.as_slice());
    let mut key = "cad_".to_string();
    push_str(&mut key, hex.as_str());
    proof { assert(key@ == api_key_of(bytes@)); }
    key
}

/// Hex takes two characters per byte.
pub proof fn lemma_hex_len(bytes: Seq<u8>)
    ensures
        hex_of(bytes).len() == 2 * bytes.len(),
    decreases bytes.len(),
{
    if bytes.len() > 0 {
        lemma_hex_len(bytes.drop_last());
    }
}

/// Every key is 68 characters long and starts with "cad_".
pub proof fn lemma_api_key_shape(bytes: Seq<u8>)
    requires
        bytes.len() == 32,
    ensures
        api_key_of(bytes).len() == 68,
        api_key_of(bytes).take(4) == "cad_"@,
{
    reveal_strlit("cad_");
    lemma_hex_len(bytes);
    assert(api_key_of(bytes).take(4) =~= "cad_"@);
}

}
