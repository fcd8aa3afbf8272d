//! Hexadecimal text as the wire form of keys and identifiers.
use vstd::prelude::*;

verus! {

/// The lowercase digit for a value below 16.
pub open spec fn hex_digit(n: int) -> char {
    seq!['0', '1', '2', '3', '4', '5', '6', '7', '8', '9', 'a', 'b', 'c', 'd', 'e', 'f'][n]
}

/// The value of one hexadecimal digit, in either case.
pub open spec fn digit_value(c: char) -> Option<int> {
    if '0' <= c && c <= '9' {
        Some(c as int - '0' as int)
    } else if 'a' <= c && c <= 'f' {
        Some(c as int - 'a' as int + 10)
    } else if 'A' <= c && c <= 'F' {
        Some(c as int - 'A' as int + 10)
    } else {
        None
    }
}

/// Lowercase hexadecimal text of a byte string, high nibble first.
pub open spec fn hex_of(b: Seq<u8>) -> Seq<char>
    decreases b.len(),
{
    if b.len() == 0 {
        Seq::empty()
    } else {
        hex_of(b.drop_last()) + seq![hex_digit(b.last() as int / 16), hex_digit(b.last() as int % 16)]
    }
}

/// The bytes that hexadecimal text stands for: two digits to a byte, or
/// `None` for an odd length or a character that is not a digit.
pub open spec fn hex_decoded(s: Seq<char>) -> Option<Seq<u8>>
    decreases s.len(),
{
    if s.len() == 0 {
        Some(Seq::empty())
    } else if s.len() == 1 {
        None
    } else {
        match (hex_decoded(s.drop_last().drop_last()), digit_value(s[s.len() - 2]), digit_value(s.last())) {
            (Some(front), Some(hi), Some(lo)) => Some(front.push((hi * 16 + lo) as u8)),
            _ => None,
        }
    }
}

proof fn lemma_digit_value(n: int)
    requires
        0 <= n < 16,
    ensures
        digit_value(hex_digit(n)) == Some(n),
{
    let d = seq!['0', '1', '2', '3', '4', '5', '6', '7', '8', '9', 'a', 'b', 'c', 'd', 'e', 'f'];
    assert(hex_digit(n) == d[n]);
    if n == 0 { assert(d[n] == '0'); } else if n == 1 { assert(d[n] == '1'); } else if n == 2 { assert(d[n] == '2'); }
    else if n == 3 { assert(d[n] == '3'); } else if n == 4 { assert(d[n] == '4'); } else if n == 5 { assert(d[n] == '5'); }
    else if n == 6 { assert(d[n] == '6'); } else if n == 7 { assert(d[n] == '7'); } else if n == 8 { assert(d[n] == '8'); }
    else if n == 9 { assert(d[n] == '9'); } else if n == 10 { assert(d[n] == 'a'); } else if n == 11 { assert(d[n] == 'b'); }
    else if n == 12 { assert(d[n] == 'c'); } else if n == 13 { assert(d[n] == 'd'); } else if n == 14 { assert(d[n] == 'e'); }
    else { assert(d[n] == 'f'); }
}

/// Reading the hexadecimal text of a byte string gives the bytes back.
pub proof fn lemma_hex_round_trip(b: Seq<u8>)
    ensures
        hex_decoded(hex_of(b)) == Some(b),
    decreases b.len(),
{
    if b.len() > 0 {
        let front = b.drop_last();
        let x = b.last();
        let hi = x as int / 16;
        let lo = x as int % 16;
        lemma_hex_round_trip(front);
        lemma_digit_value(hi);
        lemma_digit_value(lo);
        let s = hex_of(b);
        assert(s == hex_of(front) + seq![hex_digit(hi), hex_digit(lo)]);
        assert(s.drop_last().drop_last() =~= hex_of(front));
        assert(s[s.len() - 2] == hex_digit(hi));
        assert(s.last() == hex_digit(lo));
        assert((hi * 16 + lo) as u8 == x);
        assert(front.push(x) =~= b);
    }
}

} // verus!
