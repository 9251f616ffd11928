//! Identifiers of jobs, threads and messages: UUIDs, held as the numbers they spell.

use vstd::prelude::*;
use vstd::arithmetic::power::pow;

verus! {

/// The error with which the `uuid` crate refuses a text.
#[verifier::external_type_specification]
#[verifier::external_body]
pub struct ExUuidError(uuid::Error);

/// The number that a text spells as a UUID, or nothing where it spells none.
pub uninterp spec fn uuid_parse(text: Seq<char>) -> Option<u128>;

/// The hexadecimal digit `k` of an identifier, counted from the most significant one.
pub open spec fn hex_digit(id: u128, k: int) -> int {
    (id as int / pow(16, (31 - k) as nat)) % 16
}

/// A hexadecimal digit in lower case.
pub open spec fn hex_char(n: int) -> char {
    if n < 10 {
        (48 + n) as char
    } else {
        (87 + n) as char
    }
}

/// How an identifier is written: its 32 hexadecimal digits in lower case, in groups of
/// eight, four, four, four and twelve with hyphens between them.
pub open spec fn uuid_text(id: u128) -> Seq<char> {
    Seq::new(
        36,
        |i: int|
            if i == 8 || i == 13 || i == 18 || i == 23 {
                '-'
            } else if i < 8 {
                hex_char(hex_digit(id, i))
            } else if i < 13 {
                hex_char(hex_digit(id, i - 1))
            } else if i < 18 {
                hex_char(hex_digit(id, i - 2))
            } else if i < 23 {
                hex_char(hex_digit(id, i - 3))
            } else {
                hex_char(hex_digit(id, i - 4))
            },
    )
}

/// `uuid::Uuid::parse_str` reads an identifier. What it makes of a text depends on the
/// text alone. It refuses every text that has not 32, 36, 38 or 45 characters, and it
/// reads back what `uuid_text` describes.
#[verifier::external_body]
fn parse_uuid(text: &str) -> (r: Result<u128, uuid::Error>)
    ensures
        match r {
            Ok(id) => uuid_parse(text@) == Some(id),
            Err(_) => uuid_parse(text@) is None,
        },
        r is Ok ==> (text@.len() == 32 || text@.len() == 36 || text@.len() == 38 || text@.len()
            == 45),
        forall|id: u128| text@ == #[trigger] uuid_text(id) ==> r is Ok && r->Ok_0 == id,
{
    uuid::Uuid::parse_str(text).map(|id| id.as_u128())
}

/// `uuid::Uuid` as a text: lower case, with hyphens.
#[verifier::external_body]
fn format_uuid(id: u128) -> (r: String)
    ensures
        r@ == uuid_text(id),
{
    uuid::Uuid::from_u128(id).to_string()
}

/// `uuid::Uuid::new_v4` makes an identifier out of random bits. Nothing is said of those:
/// only the digit that holds the version and the one that holds the variant are fixed.
#[verifier::external_body]
fn random_uuid() -> (r: u128)
    ensures
        is_random_id(r),
{
    uuid::Uuid::new_v4().as_u128()
}

/// Whether an identifier is marked as a random one: version 4, the RFC 9562 variant.
pub open spec fn is_random_id(id: u128) -> bool {
    hex_digit(id, 12) == 4 && 8 <= hex_digit(id, 16) < 12
}

/// The identifier that a text spells, if it spells one.
pub fn parse_id(text: &str) -> (r: Option<u128>)
    ensures
        r == uuid_parse(text@),
        r is Some ==> (text@.len() == 32 || text@.len() == 36 || text@.len() == 38 || text@.len()
            == 45),
        forall|id: u128| text@ == #[trigger] uuid_text(id) ==> r == Some(id),
{
    match parse_uuid(text) {
        Ok(id) => Some(id),
        Err(_) => None,
    }
}

/// How an identifier is written. What is written is read back.
pub fn id_text(id: u128) -> (r: String)
    ensures
        r@ == uuid_text(id),
{
    format_uuid(id)
}

/// A new identifier.
pub fn new_id() -> (r: u128)
    ensures
        is_random_id(r),
{
    random_uuid()
}

} // verus!
