//! Hex text, SHA-256 digests and HMAC-SHA256 tags, through the `hex`, `sha2` and `hmac`
//! crates.
use hmac::{Hmac, Mac};
use sha2::{Digest, Sha256};
use vstd::prelude::*;
use vstd::string::*;
use vstd::utf8::{encode_utf8, is_ascii_chars, is_ascii_chars_encode_utf8};

verus! {

/// The value of one hex digit (either case), or `None` for any other byte.
pub open spec fn hex_digit_value(b: u8) -> Option<int> {
    if 48 <= b <= 57 {
        Some(b - 48)
    } else if 97 <= b <= 102 {
        Some(b - 87)
    } else if 65 <= b <= 70 {
        Some(b - 55)
    } else {
        None
    }
}

/// The bytes that pairs of hex digits stand for (high digit first); `None` for an odd
/// number of digits or a byte that is no hex digit.
pub open spec fn hex_decoded(s: Seq<u8>) -> Option<Seq<u8>>
    decreases s.len(),
{
    if s.len() == 0 {
        Some(seq![])
    } else if s.len() == 1 {
        None
    } else {
        match (hex_digit_value(s[0]), hex_digit_value(s[1])) {
            (Some(h), Some(l)) => match hex_decoded(s.subrange(2, s.len() as int)) {
                Some(rest) => Some(seq![(h * 16 + l) as u8] + rest),
                None => None,
            },
            _ => None,
        }
    }
}

/// The lower-case hex digit of `n < 16`.
pub open spec fn hex_char(n: int) -> char {
    if n < 10 {
        (n + 48) as char
    } else {
        (n + 87) as char
    }
}

/// Lower-case hex text of `b`, two digits per byte.
pub open spec fn hex_encoded(b: Seq<u8>) -> Seq<char>
    decreases b.len(),
{
    if b.len() == 0 {
        seq![]
    } else {
        seq![hex_char(b[0] as int / 16), hex_char(b[0] as int % 16)] + hex_encoded(b.subrange(1, b.len() as int))
    }
}

/// The text `hex::FromHexError`'s `Display` writes for the error that decoding `s` gives.
pub uninterp spec fn hex_error_text(s: Seq<u8>) -> Seq<char>;

/// The SHA-256 digest of `data`.
pub uninterp spec fn sha256_digest(data: Seq<u8>) -> Seq<u8>;

/// The HMAC-SHA256 tag of `msg` under `key`.
pub uninterp spec fn hmac_sha256_tag(key: Seq<u8>, msg: Seq<u8>) -> Seq<u8>;

proof fn lemma_hex_char(n: int)
    requires
        0 <= n < 16,
    ensures
        (hex_char(n) as int) < 128,
        hex_digit_value(hex_char(n) as u8) == Some(n),
{
    if n < 10 {
        assert(((n + 48) as char) as int == n + 48);
    } else {
        assert(((n + 87) as char) as int == n + 87);
    }
}

proof fn lemma_hex_encoded_shape(b: Seq<u8>)
    ensures
        hex_encoded(b).len() == 2 * b.len(),
        is_ascii_chars(hex_encoded(b)),
    decreases b.len(),
{
    if b.len() > 0 {
        lemma_hex_encoded_shape(b.subrange(1, b.len() as int));
        lemma_hex_char(b[0] as int / 16);
        lemma_hex_char(b[0] as int % 16);
        let e = hex_encoded(b);
        let rest = hex_encoded(b.subrange(1, b.len() as int));
        assert forall|i: int| 0 <= i < e.len() implies (e[i] as int) < 128 by {
            if i >= 2 {
                assert(e[i] == rest[i - 2]);
            }
        }
    }
}

/// The bytes of the ASCII text `c`.
spec fn ascii_bytes(c: Seq<char>) -> Seq<u8> {
    Seq::new(c.len(), |i: int| c[i] as u8)
}

proof fn lemma_hex_round_trip_bytes(b: Seq<u8>)
    ensures
        hex_decoded(ascii_bytes(hex_encoded(b))) == Some(b),
    decreases b.len(),
{
    lemma_hex_encoded_shape(b);
    if b.len() > 0 {
        let tail = b.subrange(1, b.len() as int);
        lemma_hex_round_trip_bytes(tail);
        lemma_hex_encoded_shape(tail);
        let s = ascii_bytes(hex_encoded(b));
        let hi = b[0] as int / 16;
        let lo = b[0] as int % 16;
        lemma_hex_char(hi);
        lemma_hex_char(lo);
        assert(s.subrange(2, s.len() as int) =~= ascii_bytes(hex_encoded(tail)));
        assert(s[0] == hex_char(hi) as u8);
        assert(s[1] == hex_char(lo) as u8);
        assert((hi * 16 + lo) as u8 == b[0]);
        assert(seq![b[0]] + tail =~= b);
    } else {
        assert(ascii_bytes(hex_encoded(b)) =~= seq![]);
    }
}

/// Decoding the UTF-8 bytes of the hex text of `b` gives `b` back.
pub proof fn lemma_hex_round_trip(b: Seq<u8>)
    ensures
        hex_decoded(encode_utf8(hex_encoded(b))) == Some(b),
{
    lemma_hex_encoded_shape(b);
    is_ascii_chars_encode_utf8(hex_encoded(b));
    assert(encode_utf8(hex_encoded(b)) =~= ascii_bytes(hex_encoded(b)));
    lemma_hex_round_trip_bytes(b);
}

/// `hex::decode` of the bytes of `s`, with the error's `Display` text.
#[verifier::external_body]
pub(crate) fn hex_decode(s: &str) -> (r: Result<Vec<u8>, String>)
    ensures
        match r {
            Ok(v) => hex_decoded(s.spec_bytes()) == Some(v@),
            Err(e) => hex_decoded(s.spec_bytes()) is None && e@ == hex_error_text(s.spec_bytes()),
        },
{
    match hex::decode(s) {
        Ok(v) => Ok(v),
        Err(e) => Err(e.to_string()),
    }
}

/// `hex::encode`: lower-case hex text.
#[verifier::external_body]
pub(crate) fn hex_encode(data: &[u8]) -> (r: String)
    ensures
        r@ == hex_encoded(data@),
{
    hex::encode(data)
}

/// `Sha256::digest`: 32 bytes.
#[verifier::external_body]
pub(crate) fn sha256(data: &[u8]) -> (r: Vec<u8>)
    ensures
        r@ == sha256_digest(data@),
        r@.len() == 32,
{
    Sha256::digest(data).to_vec()
}

/// The lower-case hex SHA-256 digest of the UTF-8 text `text`.
pub fn sha256_hex(text: &str) -> (r: String)
    ensures
        r@ == hex_encoded(sha256_digest(encode_utf8(text@))),
        r@.len() == 64,
{
    let d = sha256(text.as_bytes());
    proof {
        lemma_hex_encoded_shape(d@);
    }
    hex_encode(d.as_slice())
}

/// `Hmac::<Sha256>` keyed by `key` over `msg`: the 32-byte tag. HMAC takes a key of any
/// length (`new_from_slice` always succeeds for it).
#[verifier::external_body]
pub(crate) fn hmac_sha256(key: &[u8], msg: &[u8]) -> (r: Vec<u8>)
    ensures
        r@ == hmac_sha256_tag(key@, msg@),
        r@.len() == 32,
{
    match <Hmac<Sha256> as Mac>::new_from_slice(key) {
        Ok(mut mac) => {
            Mac::update(&mut mac, msg);
            Mac::finalize(mac).into_bytes().to_vec()
        },
        Err(_) => Vec::new(),
    }
}

/// The lower-case hex HMAC-SHA256 signature of the UTF-8 text `params` under the UTF-8
/// text `secret`, as an exchange request is signed.
pub fn sign_request(secret: &str, params: &str) -> (r: String)
    ensures
        r@ == hex_encoded(hmac_sha256_tag(encode_utf8(secret@), encode_utf8(params@))),
{
    let tag = hmac_sha256(secret.as_bytes(), params.as_bytes());
    hex_encode(tag.as_slice())
}

} // verus!
