//! Entity GUIDs: parsing and printing through the `uuid` crate.

use vstd::prelude::*;

verus! {

/// The 128-bit value (`Uuid::as_u128`) of the UUID that `uuid::Uuid::parse_str` reads from
/// the given text, or `None` where it reports an error.
pub uninterp spec fn uuid_parse_str(s: Seq<char>) -> Option<u128>;

/// The lower-case hex digit of `d` (below sixteen).
pub open spec fn hex_digit(d: int) -> char {
    if d < 10 {
        ((d + ('0' as int)) as u32) as char
    } else {
        ((d - 10 + ('a' as int)) as u32) as char
    }
}

/// The last `n` hex digits of `v`, most significant first.
pub open spec fn hex_digits(v: nat, n: nat) -> Seq<char>
    decreases n,
{
    if n == 0 {
        Seq::empty()
    } else {
        hex_digits(v / 16, (n - 1) as nat).push(hex_digit((v % 16) as int))
    }
}

/// The text that `uuid::Uuid`'s `Display` impl writes for the UUID with this 128-bit value:
/// its 32 lower-case hex digits, most significant first, grouped 8-4-4-4-12 by hyphens.
pub open spec fn uuid_display(v: u128) -> Seq<char> {
    let h = hex_digits(v as nat, 32);
    h.subrange(0, 8) + "-"@ + h.subrange(8, 12) + "-"@ + h.subrange(12, 16) + "-"@ + h.subrange(16, 20) + "-"@
        + h.subrange(20, 32)
}

/// Parses a UUID with `uuid::Uuid::parse_str`.
/// Trusted: the result is `uuid_parse_str` of the input; nothing more is claimed of it.
#[verifier::external_body]
pub(crate) fn parse_uuid(s: &str) -> (r: Option<u128>)
    ensures
        r == uuid_parse_str(s@),
{
    match uuid::Uuid::parse_str(s) {
        Ok(u) => Some(u.as_u128()),
        Err(_) => None,
    }
}

/// Prints a UUID with `uuid::Uuid::from_u128(v).to_string()`.
/// Trusted: the result is the hyphenated lower-case hex form `uuid_display` of the value, which
/// is what the crate's `Display` impl writes (through `LowerHex` and `as_hyphenated`).
#[verifier::external_body]
pub(crate) fn uuid_to_string(v: u128) -> (r: String)
    ensures
        r@ == uuid_display(v),
{
    uuid::Uuid::from_u128(v).to_string()
}

/// The GUID of an entity id: what the runtime-sync parser found, else the id read as a bare UUID.
pub open spec fn entity_id_guid_spec(raw: Seq<char>, runtime_sync_guid: Option<u128>) -> Option<u128> {
    match runtime_sync_guid {
        Some(g) => Some(g),
        None => uuid_parse_str(raw),
    }
}

/// Resolves the GUID of an entity id. `runtime_sync_guid` is what the runtime-sync id parser
/// returned for `raw`; when it found none, `raw` is parsed as a bare UUID.
pub fn parse_entity_id_guid(raw: &str, runtime_sync_guid: Option<u128>) -> (r: Option<u128>)
    ensures
        r == entity_id_guid_spec(raw@, runtime_sync_guid),
{
    match runtime_sync_guid {
        Some(g) => Some(g),
        None => parse_uuid(raw),
    }
}

} // verus!
