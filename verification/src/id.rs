//! Bullet IDs: one lowercase ASCII letter followed by one ASCII digit.

use crate::error::{Error, ErrorView};
use crate::text::{chars_of, push_char};
use rand::Rng;
use vstd::prelude::*;

verus! {

pub open spec fn is_ascii_lower(c: char) -> bool {
    'a' <= c && c <= 'z'
}

pub open spec fn is_ascii_digit(c: char) -> bool {
    '0' <= c && c <= '9'
}

/// The format of a bullet ID: one lowercase ASCII letter and one ASCII digit.
pub open spec fn is_valid_id(id: Seq<char>) -> bool {
    id.len() == 2 && is_ascii_lower(id[0]) && is_ascii_digit(id[1])
}

/// The `n`-th ID in the order a0, a1, ..., a9, b0, ..., z9.
pub open spec fn id_at(n: int) -> Seq<char> {
    seq![(('a' as int) + n / 10) as char, (('0' as int) + n % 10) as char]
}

/// How many distinct IDs there are.
pub const ID_SPACE: u32 = 260;

pub proof fn lemma_id_at(n: int)
    requires
        0 <= n < 260,
    ensures
        is_valid_id(id_at(n)),
{
}

/// The position of an ID in the order a0, a1, ..., z9.
pub open spec fn id_index(id: Seq<char>) -> int {
    (id[0] as int - 'a' as int) * 10 + (id[1] as int - '0' as int)
}

/// Every ID is at some position.
pub proof fn lemma_id_at_onto(id: Seq<char>)
    requires
        is_valid_id(id),
    ensures
        0 <= id_index(id) < 260,
        id_at(id_index(id)) == id,
{
    let n = id_index(id);
    assert(n / 10 == id[0] as int - 'a' as int);
    assert(n % 10 == id[1] as int - '0' as int);
    assert(id_at(n) =~= id);
}

/// Validate that a string is a well-formed bullet ID.
pub fn validate_id(id: &str) -> (r: Result<(), Error>)
    ensures
        r is Ok <==> is_valid_id(id@),
        r matches Err(e) ==> e@ == (ErrorView::InvalidIdFormat { id: id@ }),
{
    let v = chars_of(id);
    if v.len() == 2 && 'a' <= v[0] && v[0] <= 'z' && '0' <= v[1] && v[1] <= '9' {
        Ok(())
    } else {
        Err(Error::InvalidIdFormat { id: String::from_str(id) })
    }
}

/// The ID at position `n` of the order a0 ... z9.
pub fn id_from_index(n: u32) -> (r: String)
    requires
        n < 260,
    ensures
        r@ == id_at(n as int),
{
    let letter = (97u8 + (n / 10) as u8) as char;
    let digit = (48u8 + (n % 10) as u8) as char;
    let mut s = String::new();
    push_char(&mut s, letter);
    push_char(&mut s, digit);
    assert(s@ =~= id_at(n as int));
    s
}

/// Calls `rand::rng().random_range(0..n)`. The result is random: the
/// contract claims only that it lies below `n`.
#[verifier::external_body]
fn random_below(n: u32) -> (r: u32)
    requires
        n > 0,
    ensures
        r < n,
{
    rand::rng().random_range(0..n)
}

/// Generate a random short ID: one lowercase letter + one digit (e.g. "a3", "k7").
///
/// Note: This does not guarantee uniqueness on its own. Callers must check
/// the generated ID against existing IDs in the target file and retry if
/// a collision is detected (see `Error::DuplicateId`).
pub fn generate_id() -> (r: String)
    ensures
        is_valid_id(r@),
{
    let letter = random_below(26);
    let digit = random_below(10);
    id_from_index(letter * 10 + digit)
}

} // verus!
