//! Identifier derivation: a 32-byte resource identifier becomes a legal
//! textual identifier through lowercase hex encoding.  Every backend
//! derives the same hex payload, so references to one interface are
//! textually traceable across targets.

use vstd::prelude::*;

verus! {

/// The lowercase hex character for one value below 16.
pub open spec fn hex_digit(n: u8) -> char
    recommends
        n < 16,
{
    if n == 0 {
        '0'
    } else if n == 1 {
        '1'
    } else if n == 2 {
        '2'
    } else if n == 3 {
        '3'
    } else if n == 4 {
        '4'
    } else if n == 5 {
        '5'
    } else if n == 6 {
        '6'
    } else if n == 7 {
        '7'
    } else if n == 8 {
        '8'
    } else if n == 9 {
        '9'
    } else if n == 10 {
        'a'
    } else if n == 11 {
        'b'
    } else if n == 12 {
        'c'
    } else if n == 13 {
        'd'
    } else if n == 14 {
        'e'
    } else {
        'f'
    }
}

/// Lowercase hex encoding: two digits per byte, high nibble first.
pub open spec fn hex_of(b: Seq<u8>) -> Seq<char>
    decreases b.len(),
{
    if b.len() == 0 {
        Seq::empty()
    } else {
        hex_of(b.drop_last()) + seq![hex_digit(b.last() / 16), hex_digit(b.last() % 16)]
    }
}

pub proof fn lemma_hex_of_len(b: Seq<u8>)
    ensures
        hex_of(b).len() == 2 * b.len(),
    decreases b.len(),
{
    if b.len() > 0 {
        lemma_hex_of_len(b.drop_last());
    }
}

/// The value of one lowercase hex character; characters outside the
/// alphabet are read as 15, which the round-trip law never relies on.
pub open spec fn unhex_digit(c: char) -> u8 {
    if c == '0' {
        0
    } else if c == '1' {
        1
    } else if c == '2' {
        2
    } else if c == '3' {
        3
    } else if c == '4' {
        4
    } else if c == '5' {
        5
    } else if c == '6' {
        6
    } else if c == '7' {
        7
    } else if c == '8' {
        8
    } else if c == '9' {
        9
    } else if c == 'a' {
        10
    } else if c == 'b' {
        11
    } else if c == 'c' {
        12
    } else if c == 'd' {
        13
    } else if c == 'e' {
        14
    } else {
        15
    }
}

/// Decodes a hex text two characters at a time; a trailing odd
/// character is ignored.
pub open spec fn unhex(s: Seq<char>) -> Seq<u8>
    decreases s.len(),
{
    if s.len() < 2 {
        Seq::empty()
    } else {
        unhex(s.take(s.len() - 2)) + seq![
            (16 * unhex_digit(s[s.len() - 2]) + unhex_digit(s[s.len() - 1])) as u8,
        ]
    }
}

proof fn lemma_unhex_hex_digit(n: u8)
    requires
        n < 16,
    ensures
        unhex_digit(hex_digit(n)) == n,
{
}

/// Round trip: decoding the hex encoding of any byte sequence gives the
/// bytes back.  Hex-decoding the identifier text embedded in a
/// generated declaration therefore reproduces the resource identifier.
pub proof fn lemma_hex_round_trip(b: Seq<u8>)
    ensures
        unhex(hex_of(b)) == b,
    decreases b.len(),
{
    if b.len() > 0 {
        lemma_hex_round_trip(b.drop_last());
        lemma_hex_of_len(b.drop_last());
        let s = hex_of(b);
        lemma_hex_of_len(b);
        assert(s.take(s.len() - 2) =~= hex_of(b.drop_last()));
        let hi = b.last() / 16;
        let lo = b.last() % 16;
        lemma_unhex_hex_digit(hi);
        lemma_unhex_hex_digit(lo);
        assert(s[s.len() - 2] == hex_digit(hi));
        assert(s[s.len() - 1] == hex_digit(lo));
        assert((16 * hi + lo) as u8 == b.last());
        assert(unhex(s) =~= b);
    }
}

/// Distinct identifiers have distinct hex encodings.
pub proof fn lemma_hex_injective(a: Seq<u8>, b: Seq<u8>)
    requires
        hex_of(a) == hex_of(b),
    ensures
        a == b,
{
    lemma_hex_round_trip(a);
    lemma_hex_round_trip(b);
}

/// Relies on `hex::encode`: lowercase hex, two digits per byte, high
/// nibble first, in the order of the bytes.
#[verifier::external_body]
pub fn encode_hex(b: &[u8; 32]) -> (r: String)
    ensures
        r@ == hex_of(b@),
{
    hex::encode(b)
}

} // verus!
