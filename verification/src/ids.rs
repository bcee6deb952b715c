//! Subscription tokens and name-based identifiers, through the uuid crate.
//! A UUID is held as the `u128` whose big-endian bytes are its bytes.
use vstd::prelude::*;

verus! {

/// The value `16^e`.
pub open spec fn pow16(e: nat) -> int
    decreases e,
{
    if e == 0 {
        1
    } else {
        16 * pow16((e - 1) as nat)
    }
}

/// Hex digit number `i` (0 is the most significant) of the 32 digits of `u`.
pub open spec fn uuid_nibble(u: u128, i: int) -> int {
    (u as int / pow16((31 - i) as nat)) % 16
}

/// The lower-case character of a hex digit.
pub open spec fn hex_char(d: int) -> char {
    if d < 10 {
        (d + 48) as char
    } else {
        (d + 87) as char
    }
}

/// Which of the 32 hex digits stands at position `j` of the hyphenated form.
pub open spec fn hyphenated_digit_index(j: int) -> int {
    if j < 8 {
        j
    } else if j < 13 {
        j - 1
    } else if j < 18 {
        j - 2
    } else if j < 23 {
        j - 3
    } else {
        j - 4
    }
}

/// The hyphenated lower-case form of a UUID: 32 hex digits in groups of
/// 8, 4, 4, 4 and 12, joined by `-`.
pub open spec fn uuid_text(u: u128) -> Seq<char> {
    Seq::new(
        36,
        |j: int|
            if j == 8 || j == 13 || j == 18 || j == 23 {
                '-'
            } else {
                hex_char(uuid_nibble(u, hyphenated_digit_index(j)))
            },
    )
}

/// The version field of a UUID (bits 76 to 79).
pub open spec fn uuid_version(u: u128) -> int {
    (u as int / pow16(19)) % 16
}

/// Whether a UUID has the RFC 4122 variant: the two top bits of its ninth
/// byte (the top of hex digit 15, counted from 0 at the right) are `10`.
pub open spec fn rfc4122_variant(u: u128) -> bool {
    8 <= (u as int / pow16(15)) % 16 <= 11
}

/// The UUID of version 5 that the uuid crate derives from `name` (its
/// UTF-8 bytes) in the URL namespace.
pub uninterp spec fn url_namespace_uuid(name: Seq<char>) -> u128;

/// The UUID the uuid crate reads from `text`, if it reads one.
pub uninterp spec fn parsed_uuid(text: Seq<char>) -> Option<u128>;

/// A fresh random token for a subscription.
///
/// Calls `Uuid::new_v4` of the uuid crate. Its source takes 128 random bits
/// and sets the version field to 4 and the variant to RFC 4122; the
/// contract states only that, as the other bits are random.
#[verifier::external_body]
pub(crate) fn new_token() -> (r: u128)
    ensures
        uuid_version(r) == 4,
        rfc4122_variant(r),
{
    uuid::Uuid::new_v4().as_u128()
}

/// The name-based UUID of `name` in the URL namespace.
///
/// Calls `Uuid::new_v5(&Uuid::NAMESPACE_URL, name.as_bytes())` of the uuid
/// crate (a SHA-1 digest of the namespace and the name, with the version
/// field set to 5 and the variant to RFC 4122). The contract names the
/// result, which depends on `name` alone, and states those two fields.
#[verifier::external_body]
pub(crate) fn url_uuid(name: &str) -> (r: u128)
    ensures
        r == url_namespace_uuid(name@),
        uuid_version(r) == 5,
        rfc4122_variant(r),
{
    uuid::Uuid::new_v5(&uuid::Uuid::NAMESPACE_URL, name.as_bytes()).as_u128()
}

/// The hyphenated lower-case text of a UUID.
///
/// Calls the `Display` of the uuid crate's `Uuid`, which renders the
/// hyphenated lower-case form.
#[verifier::external_body]
pub(crate) fn uuid_to_string(u: u128) -> (r: String)
    ensures
        r@ == uuid_text(u),
{
    uuid::Uuid::from_u128(u).to_string()
}

/// Reads a UUID from text.
///
/// Calls `Uuid::parse_str` of the uuid crate, which accepts the simple,
/// hyphenated, braced and URN forms. The contract names the result, and
/// states that the hyphenated lower-case form of a UUID reads back as that
/// UUID.
#[verifier::external_body]
pub(crate) fn parse_uuid(text: &str) -> (r: Option<u128>)
    ensures
        r == parsed_uuid(text@),
        forall|u: u128| text@ == uuid_text(u) ==> r == Some(u),
{
    match uuid::Uuid::parse_str(text) {
        Ok(u) => Some(u.as_u128()),
        Err(_) => None,
    }
}

} // verus!
