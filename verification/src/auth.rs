//! The pre-shared key that guards the server: how keys are made and how a
//! presented key is checked.
use vstd::prelude::*;

use base64::Engine;
use rand::RngCore;

use crate::json::{jv_members, lemma_jv_members, Json, JsonV};
use crate::mailbox::opt_view;

verus! {

/// The header that carries the key.
pub const HEADER_NAME: &'static str = "x-stele-key";

/// Whether `c` belongs to the URL-safe base64 alphabet (`A-Z a-z 0-9 - _`).
pub open spec fn is_url_safe_char(c: char) -> bool {
    ('A' <= c && c <= 'Z') || ('a' <= c && c <= 'z') || ('0' <= c && c <= '9') || c == '-' || c == '_'
}

/// The length of the unpadded base64 text of `n` bytes.
pub open spec fn encoded_len_no_pad(n: nat) -> nat {
    4 * (n / 3) + (if n % 3 == 1 { 2nat } else if n % 3 == 2 { 3nat } else { 0nat })
}

/// The unpadded URL-safe base64 text of some bytes.
pub uninterp spec fn base64_url_no_pad(bytes: Seq<u8>) -> Seq<char>;

/// `base64::engine::general_purpose::URL_SAFE_NO_PAD.encode`: the unpadded
/// URL-safe base64 text of the bytes; its length and alphabet are those its
/// documentation gives.
#[verifier::external_body]
fn encode_url_safe_no_pad(bytes: &Vec<u8>) -> (r: String)
    ensures
        r@ == base64_url_no_pad(bytes@),
        r@.len() == encoded_len_no_pad(bytes@.len()),
        forall|i: int| 0 <= i < r@.len() ==> is_url_safe_char(#[trigger] r@[i]),
{
    base64::engine::general_purpose::URL_SAFE_NO_PAD.encode(bytes.as_slice())
}

/// `n` bytes from the operating system's random source (`rand::rngs::OsRng`,
/// `fill_bytes`). Nothing is stated of their values.
#[verifier::external_body]
fn os_random_bytes(n: usize) -> (r: Vec<u8>)
    ensures
        r@.len() == n,
{
    let mut buf = vec![0u8; n];
    rand::rngs::OsRng.fill_bytes(&mut buf);
    buf
}

/// The number of random bytes in a key.
pub const KEY_BYTES: usize = 32;

/// The key made of some bytes: their unpadded URL-safe base64 text, 43
/// characters for the 32 bytes of a key.
pub fn key_from_bytes(bytes: &Vec<u8>) -> (r: String)
    requires
        bytes@.len() == KEY_BYTES,
    ensures
        r@ == base64_url_no_pad(bytes@),
        r@.len() == 43,
        forall|i: int| 0 <= i < r@.len() ==> is_url_safe_char(#[trigger] r@[i]),
{
    encode_url_safe_no_pad(bytes)
}

/// A new key: 32 bytes from the operating system's random source, as
/// unpadded URL-safe base64 (43 characters).
pub fn generate_key() -> (r: String)
    ensures
        exists|b: Seq<u8>| b.len() == KEY_BYTES && r@ == base64_url_no_pad(b),
        r@.len() == 43,
        forall|i: int| 0 <= i < r@.len() ==> is_url_safe_char(#[trigger] r@[i]),
{
    let bytes = os_random_bytes(KEY_BYTES);
    let r = key_from_bytes(&bytes);
    assert(bytes@.len() == KEY_BYTES && r@ == base64_url_no_pad(bytes@));
    r
}

/// Compares two byte strings in time that depends only on their lengths.
pub fn ct_eq(a: &[u8], b: &[u8]) -> (r: bool)
    ensures
        r == (a@ == b@),
{
    if a.len() != b.len() {
        return false;
    }
    let mut diff: u8 = 0;
    let mut i: usize = 0;
    while i < a.len()
        invariant
            i <= a@.len(),
            a@.len() == b@.len(),
            (diff == 0) <==> (forall|j: int| 0 <= j < i ==> a@[j] == b@[j]),
        decreases a@.len() - i,
    {
        let x = a[i];
        let y = b[i];
        let d = diff;
        assert(((d | (x ^ y)) == 0u8) <==> (d == 0u8 && x == y)) by (bit_vector);
        diff = diff | (x ^ y);
        i = i + 1;
    }
    if diff == 0 {
        assert(a@ =~= b@);
        true
    } else {
        false
    }
}

/// Whether a request is let through: always when no key is configured,
/// otherwise when the presented key (empty when absent) equals it.
pub open spec fn authorized(expected: Option<Seq<char>>, presented: Seq<char>) -> bool {
    match expected {
        None => true,
        Some(k) => presented == k,
    }
}

/// Decides whether a request that presented `presented` (the empty string
/// when it sent no key) may pass; the key's bytes are compared in constant time.
pub fn authorize(expected: &Option<String>, presented: &str) -> (r: bool)
    ensures
        r == authorized(opt_view(*expected), presented@),
{
    match expected {
        None => true,
        Some(k) => {
            let ks = k.as_str();
            let same = ct_eq(presented.as_bytes(), ks.as_bytes());
            proof {
                vstd::utf8::encode_utf8_decode_utf8(presented@);
                vstd::utf8::encode_utf8_decode_utf8(ks@);
            }
            same
        },
    }
}

/// The body of the reply to a refused request (status 401): `{"error": "unauthorized"}`.
pub open spec fn unauthorized_body() -> JsonV {
    JsonV::Object(seq![("error"@, JsonV::Str("unauthorized"@))])
}

pub fn unauthorized() -> (r: (u16, Json))
    ensures
        r.0 == 401,
        r.1@ == unauthorized_body(),
{
    let mut m: Vec<(String, Json)> = Vec::new();
    m.push((String::from_str("error"), Json::Str(String::from_str("unauthorized"))));
    proof {
        lemma_jv_members(m@);
    }
    let body = Json::Object(m);
    assert(jv_members(m@) =~= seq![("error"@, JsonV::Str("unauthorized"@))]);
    (401, body)
}

/// A key that is the same as the one configured passes; a different one does not.
pub proof fn lemma_authorize_exact(expected: Seq<char>, presented: Seq<char>)
    ensures
        authorized(Some(expected), presented) <==> presented == expected,
        authorized(None, presented),
{
}

} // verus!
