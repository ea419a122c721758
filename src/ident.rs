//! Job identifiers and bearer tokens: fresh values from the system's randomness, and the
//! textual forms that paths and messages carry.
use vstd::prelude::*;

verus! {

/// The lowercase hexadecimal digit of `n` (below 16).
pub open spec fn hex_digit(n: nat) -> char {
    if n < 10 {
        crate::text::digit_char(n)
    } else if n == 10 { 'a' } else if n == 11 { 'b' } else if n == 12 { 'c' } else if n == 13 { 'd' }
    else if n == 14 { 'e' } else { 'f' }
}

/// Lowercase hexadecimal text of bytes: two digits per byte, high half first.
pub open spec fn hex_text(b: Seq<u8>) -> Seq<char> {
    Seq::new(2 * b.len(), |i: int| if i % 2 == 0 { hex_digit((b[i / 2] / 16) as nat) } else { hex_digit((b[i / 2] % 16) as nat) })
}

/// Sixteen to the power `k`.
pub open spec fn pow16(k: nat) -> nat
    decreases k,
{
    if k == 0 { 1 } else { 16 * pow16((k - 1) as nat) }
}

/// The `i`-th hexadecimal digit of `id`, counting from the most significant.
pub open spec fn nibble(id: u128, i: int) -> nat {
    ((id as nat) / pow16((31 - i) as nat)) % 16
}

/// The hyphenated lowercase text of an identifier: 32 digits, most significant first, in
/// groups of 8, 4, 4, 4 and 12.
pub open spec fn uuid_text(id: u128) -> Seq<char> {
    Seq::new(36, |k: int|
        if k == 8 || k == 13 || k == 18 || k == 23 {
            '-'
        } else {
            hex_digit(nibble(id, k - (if k < 8 { 0int } else if k < 13 { 1 } else if k < 18 { 2 } else if k < 23 { 3 } else { 4 })))
        })
}

/// What the identifier parser makes of a text: the identifier it denotes, if any.
pub uninterp spec fn parsed_id(s: Seq<char>) -> Option<u128>;

/// Relies on `uuid::Uuid::new_v4`: a random identifier, of which nothing is promised.
#[verifier::external_body]
pub fn new_job_id() -> (r: u128) {
    uuid::Uuid::new_v4().as_u128()
}

/// Relies on `uuid::Uuid::from_u128` and its `Display`: the hyphenated lowercase form.
#[verifier::external_body]
pub fn id_text(id: u128) -> (r: String)
    ensures
        r@ == uuid_text(id),
{
    uuid::Uuid::from_u128(id).to_string()
}

/// Relies on `uuid::Uuid::parse_str`: the identifier a text denotes, in any of the forms
/// the parser accepts, the hyphenated lowercase form among them.
#[verifier::external_body]
pub fn parse_id(s: &str) -> (r: Option<u128>)
    ensures
        r == parsed_id(s@),
        forall|k: u128| s@ == uuid_text(k) ==> r == Some(k),
{
    match uuid::Uuid::parse_str(s) {
        Ok(u) => Some(u.as_u128()),
        Err(_) => None,
    }
}

/// Relies on `rand::random`: 32 random bytes, of which only their number is promised.
#[verifier::external_body]
fn random_bytes() -> (r: Vec<u8>)
    ensures
        r@.len() == 32,
{
    rand::random::<[u8; 32]>().to_vec()
}

/// Relies on `hex::encode`: two lowercase hexadecimal digits per byte, high half first.
#[verifier::external_body]
fn hex_encode(b: &Vec<u8>) -> (r: String)
    ensures
        r@ == hex_text(b@),
{
    hex::encode(b)
}

/// The length of a bearer token, in characters.
pub const TOKEN_LEN: usize = 128;

/// The bearer token made of the given bytes: their lowercase hexadecimal text.
pub fn token_from_bytes(bytes: &Vec<u8>) -> (r: String)
    ensures
        r@ == hex_text(bytes@),
        r@.len() == 2 * bytes@.len(),
{
    hex_encode(bytes)
}

/// A fresh bearer token: 64 random bytes in lowercase hexadecimal.
pub fn mint_token() -> (r: String)
    ensures
        r@.len() == TOKEN_LEN,
        exists|b: Seq<u8>| b.len() == 64 && r@ == hex_text(b),
{
    let mut bytes = random_bytes();
    let mut more = random_bytes();
    bytes.append(&mut more);
    token_from_bytes(&bytes)
}

} // verus!
