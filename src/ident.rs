//! Item identifiers: 128-bit values, written in the canonical hyphenated form.
use vstd::prelude::*;

verus! {

/// The sixteen lower-case hexadecimal digits.
pub open spec fn hex_digits() -> Seq<char> {
    seq!['0', '1', '2', '3', '4', '5', '6', '7', '8', '9', 'a', 'b', 'c', 'd', 'e', 'f']
}

/// The `k`-th hexadecimal digit of `u`, counting from the most significant one.
pub open spec fn nibble(u: u128, k: int) -> int {
    ((u >> ((124 - 4 * k) as u128)) & 15u128) as int
}

/// Number of hyphens that precede position `i` of the hyphenated form.
pub open spec fn hyphens_before(i: int) -> int {
    if i < 8 {
        0
    } else if i < 13 {
        1
    } else if i < 18 {
        2
    } else if i < 23 {
        3
    } else {
        4
    }
}

/// Character `i` of the hyphenated form of `u`.
pub open spec fn hyphenated_char(u: u128, i: int) -> char {
    if i == 8 || i == 13 || i == 18 || i == 23 {
        '-'
    } else {
        hex_digits()[nibble(u, i - hyphens_before(i))]
    }
}

/// The canonical text of an identifier: 32 lower-case hexadecimal digits, most
/// significant first, in groups of 8-4-4-4-12 joined by hyphens.
pub open spec fn hyphenated(u: u128) -> Seq<char> {
    Seq::new(36, |i: int| hyphenated_char(u, i))
}

/// The upper-case form of a hexadecimal letter; other characters are kept.
pub open spec fn upper(c: char) -> char {
    if c == 'a' {
        'A'
    } else if c == 'b' {
        'B'
    } else if c == 'c' {
        'C'
    } else if c == 'd' {
        'D'
    } else if c == 'e' {
        'E'
    } else if c == 'f' {
        'F'
    } else {
        c
    }
}

/// `s` spells `u` in the hyphenated form, each digit in either case.
pub open spec fn spells(s: Seq<char>, u: u128) -> bool {
    &&& s.len() == 36
    &&& forall|i: int|
        0 <= i < 36 ==> #[trigger] s[i] == hyphenated(u)[i] || s[i] == upper(hyphenated(u)[i])
}

/// The lengths of the texts an identifier may be read from: plain digits,
/// hyphenated, braced and URN forms.
pub open spec fn readable_length(n: nat) -> bool {
    n == 32 || n == 36 || n == 38 || n == 45
}

/// The version field of an identifier (bits 76 to 79).
pub open spec fn version_of(u: u128) -> u128 {
    (u >> 76u128) & 15u128
}

/// The variant field of an identifier (bits 62 and 63).
pub open spec fn variant_of(u: u128) -> u128 {
    (u >> 62u128) & 3u128
}

/// The name-based identifier that the OID namespace gives to `name`.
pub uninterp spec fn oid_identifier(name: Seq<char>) -> u128;

/// Relies on `uuid::Uuid::new_v5` in the OID namespace: the identifier is a
/// function of the name's bytes alone, and carries version 5 and the RFC 4122
/// variant.
#[verifier::external_body]
fn name_based_id(name: &str) -> (r: u128)
    ensures
        r == oid_identifier(name@),
        version_of(r) == 5,
        variant_of(r) == 2,
{
    uuid::Uuid::new_v5(&uuid::Uuid::NAMESPACE_OID, name.as_bytes()).as_u128()
}

/// Relies on `uuid::Uuid::new_v4`: a random identifier with version 4 and the
/// RFC 4122 variant.
#[verifier::external_body]
fn random_id() -> (r: u128)
    ensures
        version_of(r) == 4,
        variant_of(r) == 2,
{
    uuid::Uuid::new_v4().as_u128()
}

/// Relies on the `Display` of `uuid::fmt::Hyphenated`: lower-case digits,
/// hyphenated in groups of 8-4-4-4-12.
#[verifier::external_body]
fn hyphenated_text(u: u128) -> (r: String)
    ensures
        r@ == hyphenated(u),
{
    uuid::Uuid::from_u128(u).hyphenated().to_string()
}

/// Relies on `uuid::Uuid::parse_str`: it reads back the hyphenated form of
/// every identifier, with digits in either case, and refuses every text whose
/// length is not that of one of its four forms.
#[verifier::external_body]
fn parse_text(s: &str) -> (r: Option<u128>)
    ensures
        forall|u: u128| spells(s@, u) ==> r == Some(u),
        r is Some ==> readable_length(s@.len()),
{
    match uuid::Uuid::parse_str(s) {
        Ok(u) => Some(u.as_u128()),
        Err(_) => None,
    }
}

/// The stable identifier of a source string (a resolved URL): the same string
/// always gives the same identifier.
pub fn identifier(source: &str) -> (r: u128)
    ensures
        r == oid_identifier(source@),
        version_of(r) == 5,
{
    name_based_id(source)
}

/// A fresh random identifier (version 4), as used for newly created folders.
pub fn fresh_identifier() -> (r: u128)
    ensures
        version_of(r) == 4,
        r != 0,
{
    let r = random_id();
    assert(version_of(r) == 4 ==> r != 0) by (bit_vector);
    r
}

/// The canonical text of an identifier.
pub fn identifier_text(u: u128) -> (r: String)
    ensures
        r@ == hyphenated(u),
        r@.len() == 36,
{
    hyphenated_text(u)
}

/// Reads an identifier back from text; `None` when the text is not one.
pub fn parse_identifier(s: &str) -> (r: Option<u128>)
    ensures
        forall|u: u128| spells(s@, u) ==> r == Some(u),
        r is Some ==> readable_length(s@.len()),
{
    parse_text(s)
}

/// The canonical text spells its identifier.
pub proof fn lemma_text_spells(u: u128)
    ensures
        spells(hyphenated(u), u),
{
}

/// Two calls on equal sources give equal identifiers.
pub proof fn lemma_identifier_deterministic(s1: Seq<char>, s2: Seq<char>)
    requires
        s1 == s2,
    ensures
        oid_identifier(s1) == oid_identifier(s2),
{
}

proof fn lemma_nibbles_determine(a: u128, b: u128)
    requires
        (a >> 124u128) & 15u128 == (b >> 124u128) & 15u128,
        (a >> 120u128) & 15u128 == (b >> 120u128) & 15u128,
        (a >> 116u128) & 15u128 == (b >> 116u128) & 15u128,
        (a >> 112u128) & 15u128 == (b >> 112u128) & 15u128,
        (a >> 108u128) & 15u128 == (b >> 108u128) & 15u128,
        (a >> 104u128) & 15u128 == (b >> 104u128) & 15u128,
        (a >> 100u128) & 15u128 == (b >> 100u128) & 15u128,
        (a >> 96u128) & 15u128 == (b >> 96u128) & 15u128,
        (a >> 92u128) & 15u128 == (b >> 92u128) & 15u128,
        (a >> 88u128) & 15u128 == (b >> 88u128) & 15u128,
        (a >> 84u128) & 15u128 == (b >> 84u128) & 15u128,
        (a >> 80u128) & 15u128 == (b >> 80u128) & 15u128,
        (a >> 76u128) & 15u128 == (b >> 76u128) & 15u128,
        (a >> 72u128) & 15u128 == (b >> 72u128) & 15u128,
        (a >> 68u128) & 15u128 == (b >> 68u128) & 15u128,
        (a >> 64u128) & 15u128 == (b >> 64u128) & 15u128,
        (a >> 60u128) & 15u128 == (b >> 60u128) & 15u128,
        (a >> 56u128) & 15u128 == (b >> 56u128) & 15u128,
        (a >> 52u128) & 15u128 == (b >> 52u128) & 15u128,
        (a >> 48u128) & 15u128 == (b >> 48u128) & 15u128,
        (a >> 44u128) & 15u128 == (b >> 44u128) & 15u128,
        (a >> 40u128) & 15u128 == (b >> 40u128) & 15u128,
        (a >> 36u128) & 15u128 == (b >> 36u128) & 15u128,
        (a >> 32u128) & 15u128 == (b >> 32u128) & 15u128,
        (a >> 28u128) & 15u128 == (b >> 28u128) & 15u128,
        (a >> 24u128) & 15u128 == (b >> 24u128) & 15u128,
        (a >> 20u128) & 15u128 == (b >> 20u128) & 15u128,
        (a >> 16u128) & 15u128 == (b >> 16u128) & 15u128,
        (a >> 12u128) & 15u128 == (b >> 12u128) & 15u128,
        (a >> 8u128) & 15u128 == (b >> 8u128) & 15u128,
        (a >> 4u128) & 15u128 == (b >> 4u128) & 15u128,
        (a >> 0u128) & 15u128 == (b >> 0u128) & 15u128,
    ensures
        a == b,
{
    assert(a == b) by (bit_vector)
        requires
            (a >> 124u128) & 15u128 == (b >> 124u128) & 15u128,
        (a >> 120u128) & 15u128 == (b >> 120u128) & 15u128,
        (a >> 116u128) & 15u128 == (b >> 116u128) & 15u128,
        (a >> 112u128) & 15u128 == (b >> 112u128) & 15u128,
        (a >> 108u128) & 15u128 == (b >> 108u128) & 15u128,
        (a >> 104u128) & 15u128 == (b >> 104u128) & 15u128,
        (a >> 100u128) & 15u128 == (b >> 100u128) & 15u128,
        (a >> 96u128) & 15u128 == (b >> 96u128) & 15u128,
        (a >> 92u128) & 15u128 == (b >> 92u128) & 15u128,
        (a >> 88u128) & 15u128 == (b >> 88u128) & 15u128,
        (a >> 84u128) & 15u128 == (b >> 84u128) & 15u128,
        (a >> 80u128) & 15u128 == (b >> 80u128) & 15u128,
        (a >> 76u128) & 15u128 == (b >> 76u128) & 15u128,
        (a >> 72u128) & 15u128 == (b >> 72u128) & 15u128,
        (a >> 68u128) & 15u128 == (b >> 68u128) & 15u128,
        (a >> 64u128) & 15u128 == (b >> 64u128) & 15u128,
        (a >> 60u128) & 15u128 == (b >> 60u128) & 15u128,
        (a >> 56u128) & 15u128 == (b >> 56u128) & 15u128,
        (a >> 52u128) & 15u128 == (b >> 52u128) & 15u128,
        (a >> 48u128) & 15u128 == (b >> 48u128) & 15u128,
        (a >> 44u128) & 15u128 == (b >> 44u128) & 15u128,
        (a >> 40u128) & 15u128 == (b >> 40u128) & 15u128,
        (a >> 36u128) & 15u128 == (b >> 36u128) & 15u128,
        (a >> 32u128) & 15u128 == (b >> 32u128) & 15u128,
        (a >> 28u128) & 15u128 == (b >> 28u128) & 15u128,
        (a >> 24u128) & 15u128 == (b >> 24u128) & 15u128,
        (a >> 20u128) & 15u128 == (b >> 20u128) & 15u128,
        (a >> 16u128) & 15u128 == (b >> 16u128) & 15u128,
        (a >> 12u128) & 15u128 == (b >> 12u128) & 15u128,
        (a >> 8u128) & 15u128 == (b >> 8u128) & 15u128,
        (a >> 4u128) & 15u128 == (b >> 4u128) & 15u128,
        (a >> 0u128) & 15u128 == (b >> 0u128) & 15u128,
    ;
}

proof fn lemma_nibble_range(u: u128, k: int)
    requires
        0 <= k < 32,
    ensures
        0 <= nibble(u, k) < 16,
{
    let s = (124 - 4 * k) as u128;
    assert((u >> s) & 15u128 < 16u128) by (bit_vector);
}

proof fn lemma_digit_at(a: u128, b: u128, i: int, k: int)
    requires
        hyphenated(a) == hyphenated(b),
        0 <= i < 36,
        0 <= k < 32,
        i != 8 && i != 13 && i != 18 && i != 23,
        k == i - hyphens_before(i),
    ensures
        nibble(a, k) == nibble(b, k),
{
    assert(hyphenated(a)[i] == hyphenated(b)[i]);
    assert(hyphenated(a)[i] == hyphenated_char(a, i));
    assert(hyphenated(b)[i] == hyphenated_char(b, i));
    assert(hyphenated_char(a, i) == hex_digits()[nibble(a, k)]);
    assert(hyphenated_char(b, i) == hex_digits()[nibble(b, k)]);
    lemma_nibble_range(a, k);
    lemma_nibble_range(b, k);
    let da = nibble(a, k);
    let db = nibble(b, k);
    assert(hex_digits()[da] == hex_digits()[db]);
    assert(da == db);
}

/// Distinct identifiers have distinct texts.
pub proof fn lemma_hyphenated_injective(a: u128, b: u128)
    requires
        hyphenated(a) == hyphenated(b),
    ensures
        a == b,
{
    lemma_digit_at(a, b, 0, 0);
    lemma_digit_at(a, b, 1, 1);
    lemma_digit_at(a, b, 2, 2);
    lemma_digit_at(a, b, 3, 3);
    lemma_digit_at(a, b, 4, 4);
    lemma_digit_at(a, b, 5, 5);
    lemma_digit_at(a, b, 6, 6);
    lemma_digit_at(a, b, 7, 7);
    lemma_digit_at(a, b, 9, 8);
    lemma_digit_at(a, b, 10, 9);
    lemma_digit_at(a, b, 11, 10);
    lemma_digit_at(a, b, 12, 11);
    lemma_digit_at(a, b, 14, 12);
    lemma_digit_at(a, b, 15, 13);
    lemma_digit_at(a, b, 16, 14);
    lemma_digit_at(a, b, 17, 15);
    lemma_digit_at(a, b, 19, 16);
    lemma_digit_at(a, b, 20, 17);
    lemma_digit_at(a, b, 21, 18);
    lemma_digit_at(a, b, 22, 19);
    lemma_digit_at(a, b, 24, 20);
    lemma_digit_at(a, b, 25, 21);
    lemma_digit_at(a, b, 26, 22);
    lemma_digit_at(a, b, 27, 23);
    lemma_digit_at(a, b, 28, 24);
    lemma_digit_at(a, b, 29, 25);
    lemma_digit_at(a, b, 30, 26);
    lemma_digit_at(a, b, 31, 27);
    lemma_digit_at(a, b, 32, 28);
    lemma_digit_at(a, b, 33, 29);
    lemma_digit_at(a, b, 34, 30);
    lemma_digit_at(a, b, 35, 31);
    lemma_nibbles_determine(a, b);
}

} // verus!
