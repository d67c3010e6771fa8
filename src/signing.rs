use hmac::{Hmac, Mac};
use sha2::Sha256;
use vstd::prelude::*;
use vstd::string::{StringExecFns, StringSliceAdditionalSpecFns};

verus! {

/// HMAC-SHA256 of `message` under `key`.
pub uninterp spec fn hmac_sha256(key: Seq<u8>, message: Seq<u8>) -> Seq<u8>;

/// Relies on hmac's `Hmac<Sha256>` (`new_from_slice`, `update`, `finalize`): the
/// MAC depends on the key and message bytes alone, and `new_from_slice` accepts keys
/// of any length.
#[verifier::external_body]
fn mac_bytes(key: &[u8], message: &[u8]) -> (r: Vec<u8>)
    ensures
        r@ == hmac_sha256(key@, message@),
{
    let mut mac = Hmac::<Sha256>::new_from_slice(key).expect("HMAC accepts keys of any length");
    mac.update(message);
    mac.finalize().into_bytes().to_vec()
}

/// Lowercase hexadecimal digit of a nibble.
pub open spec fn hex_digit(n: int) -> char {
    seq!['0', '1', '2', '3', '4', '5', '6', '7', '8', '9', 'a', 'b', 'c', 'd', 'e', 'f'][n]
}

/// Two lowercase hexadecimal digits per byte, high nibble first.
pub open spec fn hex_lower(b: Seq<u8>) -> Seq<char>
    decreases b.len(),
{
    if b.len() == 0 {
        Seq::empty()
    } else {
        hex_lower(b.drop_last()) + seq![hex_digit(b.last() as int / 16), hex_digit(b.last() as int % 16)]
    }
}

/// Relies on hex::encode: two lowercase digits per byte, high nibble first.
#[verifier::external_body]
fn to_hex(b: &Vec<u8>) -> (r: String)
    ensures
        r@ == hex_lower(b@),
{
    hex::encode(b)
}

/// Hex-encoded HMAC-SHA256 of a query string under the account's secret key.
pub fn sign_query_str(secret_key: &str, query_str: &str) -> (r: String)
    ensures
        r@ == hex_lower(hmac_sha256(secret_key.spec_bytes(), query_str.spec_bytes())),
{
    let mac = mac_bytes(secret_key.as_bytes(), query_str.as_bytes());
    to_hex(&mac)
}

/// `key=value` pairs joined by `&`, in order.
pub open spec fn query_of(pairs: Seq<(String, String)>) -> Seq<char>
    decreases pairs.len(),
{
    if pairs.len() == 0 {
        Seq::empty()
    } else {
        let p = pairs.last();
        let head = query_of(pairs.drop_last());
        let sep = if pairs.len() == 1 { Seq::<char>::empty() } else { seq!['&'] };
        head + sep + p.0@ + seq!['='] + p.1@
    }
}

/// Builds a query string from `key=value` pairs.
pub fn build_query(pairs: &Vec<(String, String)>) -> (r: String)
    ensures
        r@ == query_of(pairs@),
{
    let mut r = String::new();
    let mut i: usize = 0;
    while i < pairs.len()
        invariant
            i <= pairs.len(),
            r@ == query_of(pairs@.take(i as int)),
        decreases pairs.len() - i,
    {
        proof {
            assert(pairs@.take(i + 1).drop_last() =~= pairs@.take(i as int));
            assert(pairs@.take(i + 1).last() == pairs@[i as int]);
        }
        let ghost before = r@;
        if i > 0 {
            r.append("&");
        }
        r.append(pairs[i].0.as_str());
        r.append("=");
        r.append(pairs[i].1.as_str());
        proof {
            reveal_strlit("&");
            reveal_strlit("=");
            let sep = if i == 0 { Seq::<char>::empty() } else { seq!['&'] };
            assert(r@ =~= before + sep + pairs@[i as int].0@ + seq!['='] + pairs@[i as int].1@);
        }
        i = i + 1;
    }
    assert(pairs@.take(pairs@.len() as int) =~= pairs@);
    r
}

/// Appends the signature parameter to a query string.
pub fn append_signature(query_str: &str, signature: &str) -> (r: String)
    ensures
        r@ == query_str@ + "&signature="@ + signature@,
{
    let mut r = query_str.to_string();
    r.append("&signature=");
    r.append(signature);
    r
}

/// A query string followed by its signature under the account's secret key.
pub fn signed_query(secret_key: &str, query_str: &str) -> (r: String)
    ensures
        r@ == query_str@ + "&signature="@ + hex_lower(hmac_sha256(secret_key.spec_bytes(), query_str.spec_bytes())),
{
    let signature = sign_query_str(secret_key, query_str);
    append_signature(query_str, signature.as_str())
}

} // verus!
