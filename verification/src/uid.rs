//! Stable calendar identifiers: a version-5 UUID over the DNS namespace,
//! named by the decimal rendering of the upstream event id.

use vstd::prelude::*;

verus! {

/// The decimal digits of `n`, as ASCII bytes, most significant first.
pub open spec fn dec_digits(n: nat) -> Seq<u8>
    decreases n,
{
    if n < 10 {
        seq![(48 + n) as u8]
    } else {
        dec_digits(n / 10).push((48 + n % 10) as u8)
    }
}

/// Render `n` in decimal as ASCII bytes.
pub fn u64_dec_bytes(n: u64) -> (r: Vec<u8>)
    ensures
        r@ == dec_digits(n as nat),
    decreases n,
{
    if n < 10 {
        let mut v: Vec<u8> = Vec::new();
        v.push((48 + n) as u8);
        proof {
            assert(v@ =~= dec_digits(n as nat));
        }
        v
    } else {
        let mut v = u64_dec_bytes(n / 10);
        v.push((48 + n % 10) as u8);
        proof {
            assert(v@ =~= dec_digits(n as nat));
        }
        v
    }
}

/// The character set of a hyphenated lowercase UUID rendering.
pub open spec fn uuid_text_char(c: char) -> bool {
    c == '-' || ('0' <= c && c <= '9') || ('a' <= c && c <= 'f')
}

/// The hyphenated text of the version-5 UUID over the DNS namespace for the
/// given name bytes. The hash makes the text a function of the name alone.
pub uninterp spec fn uuid_v5_dns_of(name: Seq<u8>) -> Seq<char>;

/// Relies on `uuid::Uuid::new_v5`, which hashes `Uuid::NAMESPACE_DNS` and the
/// name bytes and nothing else, and on the hyphenated `Display` rendering:
/// 36 characters of lowercase hexadecimal digits and hyphens.
#[verifier::external_body]
fn uuid_v5_dns_string(name: &[u8]) -> (r: String)
    ensures
        r@ == uuid_v5_dns_of(name@),
        r@.len() == 36,
        forall|i: int| 0 <= i < r@.len() ==> uuid_text_char(#[trigger] r@[i]),
{
    uuid::Uuid::new_v5(&uuid::Uuid::NAMESPACE_DNS, name).to_string()
}

/// The UID text derived from an upstream event id.
pub open spec fn event_uid_spec(id: u64) -> Seq<char> {
    uuid_v5_dns_of(dec_digits(id as nat))
}

/// Derive the calendar UID for an upstream event id.
pub fn event_uid(id: u64) -> (r: String)
    ensures
        r@ == event_uid_spec(id),
        r@.len() == 36,
        forall|i: int| 0 <= i < r@.len() ==> uuid_text_char(#[trigger] r@[i]),
{
    let bytes = u64_dec_bytes(id);
    uuid_v5_dns_string(bytes.as_slice())
}

} // verus!
