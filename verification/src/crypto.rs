use vstd::prelude::*;

use crate::text::{join, join_spec, str_equal, views};
use sha2::Digest;
use hmac::Mac;
use vstd::string::StringExecFns;
use vstd::string::StringSliceAdditionalSpecFns;

verus! {

/// The SHA-256 digest of `data`.
pub uninterp spec fn sha256_digest(data: Seq<u8>) -> Seq<u8>;

/// The HMAC-SHA-256 tag of `message` under `key`.
pub uninterp spec fn hmac_sha256_tag(key: Seq<u8>, message: Seq<u8>) -> Seq<u8>;

/// The SHA-256 digest of `data`.
///
/// Trusted: `sha2::Sha256` fed with `data` and finalized; the result is
/// named `sha256_digest(data)`.
#[verifier::external_body]
fn sha256(data: &[u8]) -> (r: Vec<u8>)
    ensures
        r@ == sha256_digest(data@),
{
    let mut hasher = sha2::Sha256::new();
    hasher.update(data);
    hasher.finalize().to_vec()
}

/// The HMAC-SHA-256 tag of `message` under `key`.
///
/// Trusted: `hmac::Hmac::<sha2::Sha256>::new_from_slice`, updated with
/// `message` and finalized. The tag is named `hmac_sha256_tag(key, message)`;
/// `new_from_slice` of `hmac` 0.12 accepts keys of every length, so the
/// call always succeeds.
#[verifier::external_body]
fn hmac_sha256(key: &[u8], message: &[u8]) -> (r: Result<Vec<u8>, ()>)
    ensures
        r is Ok,
        r is Ok ==> r->Ok_0@ == hmac_sha256_tag(key@, message@),
{
    match hmac::Hmac::<sha2::Sha256>::new_from_slice(key) {
        Ok(mut mac) => {
            mac.update(message);
            Ok(mac.finalize().into_bytes().to_vec())
        },
        Err(_) => Err(()),
    }
}

/// The lower-case hexadecimal digit for `d`.
pub open spec fn hex_digit(d: int) -> char {
    if d < 10 {
        (('0' as int) + d) as char
    } else {
        (('a' as int) + d - 10) as char
    }
}

/// Each byte as two lower-case hexadecimal digits, high half first.
pub open spec fn hex_spec(data: Seq<u8>) -> Seq<char>
    decreases data.len(),
{
    if data.len() == 0 {
        Seq::empty()
    } else {
        hex_spec(data.drop_last()).push(hex_digit(data.last() as int / 16)).push(
            hex_digit(data.last() as int % 16),
        )
    }
}

/// The bytes as lower-case hexadecimal text.
///
/// Trusted: `hex::encode`, which maps each byte to two characters of
/// `0123456789abcdef`, high half first.
#[verifier::external_body]
fn hex_encode(data: &[u8]) -> (r: String)
    ensures
        r@ == hex_spec(data@),
{
    hex::encode(data)
}

/// The decimal digit for `d`.
pub open spec fn decimal_digit(d: int) -> char {
    (('0' as int) + d) as char
}

/// The decimal text of `n`.
pub open spec fn decimal_spec(n: nat) -> Seq<char>
    decreases n,
{
    if n < 10 {
        seq![decimal_digit(n as int)]
    } else {
        decimal_spec(n / 10).push(decimal_digit((n % 10) as int))
    }
}

fn digit_char(d: u8) -> (c: char)
    requires
        d < 10,
    ensures
        c == decimal_digit(d as int),
{
    let c = (48u8 + d) as char;
    assert(c == decimal_digit(d as int)) by {
        assert('0' as int == 48);
    }
    c
}

/// The decimal text of a byte.
pub fn decimal_u8(b: u8) -> (r: String)
    ensures
        r@ == decimal_spec(b as nat),
{
    let mut r = String::new();
    if b >= 100 {
        crate::text::push_char(&mut r, digit_char(b / 100));
    }
    if b >= 10 {
        crate::text::push_char(&mut r, digit_char((b / 10) % 10));
    }
    crate::text::push_char(&mut r, digit_char(b % 10));
    proof {
        let n = b as nat;
        if n >= 100 {
            assert(decimal_spec(n / 10) == decimal_spec(n / 100).push(decimal_digit((n / 10 % 10) as int)));
            assert(decimal_spec(n / 100) == seq![decimal_digit((n / 100) as int)]);
            assert(r@ =~= decimal_spec(n));
        } else if n >= 10 {
            assert(decimal_spec(n / 10) == seq![decimal_digit((n / 10) as int)]);
            assert(r@ =~= decimal_spec(n));
        } else {
            assert(r@ =~= decimal_spec(n));
        }
    }
    r
}

/// The bytes as a list, the way a digest is printed for debugging:
/// `[b0, b1, ...]` in decimal.
pub open spec fn byte_list_spec(data: Seq<u8>) -> Seq<char> {
    "["@ + join_spec(data.map_values(|b: u8| decimal_spec(b as nat)), ", "@) + "]"@
}

/// The bytes of a digest as they are shown: `[b0, b1, ...]` in decimal.
pub fn format_digest(data: &Vec<u8>) -> (r: String)
    ensures
        r@ == byte_list_spec(data@),
{
    let mut pieces: Vec<String> = Vec::new();
    let mut i: usize = 0;
    while i < data.len()
        invariant
            i <= data.len(),
            pieces.len() == i,
            forall|j: int| 0 <= j < i ==> pieces@[j]@ == decimal_spec(data@[j] as nat),
        decreases data.len() - i,
    {
        pieces.push(decimal_u8(data[i]));
        i += 1;
    }
    assert(views(pieces@) =~= data@.map_values(|b: u8| decimal_spec(b as nat)));
    let mut r = String::from_str("[");
    let body = join(&pieces, ", ");
    r.append(body.as_str());
    r.append("]");
    r
}

/// The digest of `data` with the algorithm `algo`; only `sha256` is known.
pub fn crypto_hash(data: &str, algo: &str) -> (r: Result<String, String>)
    ensures
        algo@ == "sha256"@ ==> (r matches Ok(s) && s@ == byte_list_spec(
            sha256_digest(data.spec_bytes()),
        )),
        algo@ != "sha256"@ ==> (r matches Err(e) && e@ == "Unsupported hash algorithm"@),
{
    if !str_equal(algo, "sha256") {
        return Err(String::from_str("Unsupported hash algorithm"));
    }
    let digest = sha256(data.as_bytes());
    Ok(format_digest(&digest))
}

/// The HMAC of `message` under `key` with the algorithm `algo`, in
/// lower-case hexadecimal; only `sha256` is known.
pub fn crypto_hmac(key: &str, message: &str, algo: &str) -> (r: Result<String, String>)
    ensures
        algo@ == "sha256"@ ==> (r matches Ok(s) && s@ == hex_spec(
            hmac_sha256_tag(key.spec_bytes(), message.spec_bytes()),
        )),
        algo@ != "sha256"@ ==> (r matches Err(e) && e@ == "Unsupported HMAC algorithm"@),
{
    if !str_equal(algo, "sha256") {
        return Err(String::from_str("Unsupported HMAC algorithm"));
    }
    match hmac_sha256(key.as_bytes(), message.as_bytes()) {
        Ok(tag) => Ok(hex_encode(tag.as_slice())),
        Err(_) => Err(String::from_str("Invalid HMAC key")),
    }
}

} // verus!
