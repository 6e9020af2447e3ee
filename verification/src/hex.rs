//! Hex codec: byte sequences to space-separated uppercase hex pairs, and back.
//!
//! Encoding renders each byte as two uppercase hex digits and joins the pairs
//! with single spaces. Decoding first drops every space, carriage return and
//! line feed, then requires an even number of remaining characters and parses
//! them pairwise, accepting both uppercase and lowercase digits.

use vstd::prelude::*;

verus! {

/// Decoding error: the cleaned text had an odd number of characters, or a
/// two-character group was not a valid hex pair (the group is carried along).
#[derive(Debug, Clone, PartialEq, Eq)]
pub enum HexError {
    OddLength,
    InvalidDigit(String),
}

/// Characters that decoding ignores: space, carriage return, line feed.
pub open spec fn is_skippable(c: char) -> bool {
    c == ' ' || c == '\r' || c == '\n'
}

/// The input with every skippable character removed, order kept.
pub open spec fn cleaned(s: Seq<char>) -> Seq<char>
    decreases s.len(),
{
    if s.len() == 0 {
        Seq::empty()
    } else {
        let rest = cleaned(s.drop_last());
        if is_skippable(s.last()) {
            rest
        } else {
            rest.push(s.last())
        }
    }
}

/// The uppercase hex digit for a value below sixteen.
pub open spec fn hex_char_of_nibble(v: int) -> char
    recommends
        0 <= v < 16,
{
    if v == 0 { '0' } else if v == 1 { '1' } else if v == 2 { '2' } else if v == 3 { '3' }
    else if v == 4 { '4' } else if v == 5 { '5' } else if v == 6 { '6' } else if v == 7 { '7' }
    else if v == 8 { '8' } else if v == 9 { '9' } else if v == 10 { 'A' } else if v == 11 { 'B' }
    else if v == 12 { 'C' } else if v == 13 { 'D' } else if v == 14 { 'E' } else { 'F' }
}

/// The value of a hex digit, uppercase or lowercase, or `None`.
pub open spec fn hex_digit_value(c: char) -> Option<u8> {
    let u = c as u32;
    if '0' as u32 <= u && u <= '9' as u32 {
        Some((u - '0' as u32) as u8)
    } else if 'A' as u32 <= u && u <= 'F' as u32 {
        Some((u - 'A' as u32 + 10) as u8)
    } else if 'a' as u32 <= u && u <= 'f' as u32 {
        Some((u - 'a' as u32 + 10) as u8)
    } else {
        None
    }
}

/// The two hex digits of one byte, high nibble first.
pub open spec fn hex_pair_of_byte(b: u8) -> Seq<char> {
    seq![hex_char_of_nibble(b as int / 16), hex_char_of_nibble(b as int % 16)]
}

/// The full encoding: pairs of digits joined by single spaces, empty for no bytes.
pub open spec fn hex_encoding(bytes: Seq<u8>) -> Seq<char>
    decreases bytes.len(),
{
    if bytes.len() == 0 {
        Seq::empty()
    } else if bytes.len() == 1 {
        hex_pair_of_byte(bytes[0])
    } else {
        hex_pair_of_byte(bytes[0]) + seq![' '] + hex_encoding(bytes.skip(1))
    }
}

/// Whether every character of a cleaned text is a hex digit.
pub open spec fn all_hex_digits(s: Seq<char>) -> bool {
    forall|i: int| 0 <= i < s.len() ==> hex_digit_value(#[trigger] s[i]) is Some
}

/// The bytes a cleaned, even-length, all-digit text decodes to.
pub open spec fn decoded_bytes(s: Seq<char>) -> Seq<u8>
    recommends
        s.len() % 2 == 0,
        all_hex_digits(s),
{
    Seq::new((s.len() / 2) as nat, |i: int|
        (hex_digit_value(s[2 * i]).unwrap() * 16 + hex_digit_value(s[2 * i + 1]).unwrap()) as u8)
}

/// The pair at index `k` is the first one holding a non-digit character.
pub open spec fn first_bad_pair(s: Seq<char>, k: int) -> bool {
    &&& 0 <= k
    &&& 2 * k + 1 < s.len()
    &&& (hex_digit_value(s[2 * k]) is None || hex_digit_value(s[2 * k + 1]) is None)
    &&& forall|j: int| 0 <= j < k ==> hex_digit_value(#[trigger] s[2 * j]) is Some
        && hex_digit_value(s[2 * j + 1]) is Some
}

/// Whether decoding succeeds on this input.
pub open spec fn decodes_ok(s: Seq<char>) -> bool {
    cleaned(s).len() % 2 == 0 && all_hex_digits(cleaned(s))
}

/// Whether this error is the one decoding reports for this input.
pub open spec fn decode_error_matches(s: Seq<char>, e: HexError) -> bool {
    match e {
        HexError::OddLength => cleaned(s).len() % 2 == 1,
        HexError::InvalidDigit(g) => cleaned(s).len() % 2 == 0 && exists|k: int| first_bad_pair(
            cleaned(s),
            k,
        ) && g@ =~= seq![cleaned(s)[2 * k], cleaned(s)[2 * k + 1]],
    }
}

/// Exec mirror of `hex_digit_value`.
fn hex_digit_of(c: char) -> (r: Option<u8>)
    ensures
        r == hex_digit_value(c),
{
    let u = c as u32;
    if 48 <= u && u <= 57 {
        Some((u - 48) as u8)
    } else if 65 <= u && u <= 70 {
        Some((u - 65 + 10) as u8)
    } else if 97 <= u && u <= 102 {
        Some((u - 97 + 10) as u8)
    } else {
        None
    }
}

/// One uppercase hex digit as a string slice.
pub(crate) fn hex_nibble_str(v: u8) -> (r: &'static str)
    requires
        v < 16,
    ensures
        r@ =~= seq![hex_char_of_nibble(v as int)],
{
    proof {
        reveal_strlit("0"); reveal_strlit("1"); reveal_strlit("2"); reveal_strlit("3");
        reveal_strlit("4"); reveal_strlit("5"); reveal_strlit("6"); reveal_strlit("7");
        reveal_strlit("8"); reveal_strlit("9"); reveal_strlit("A"); reveal_strlit("B");
        reveal_strlit("C"); reveal_strlit("D"); reveal_strlit("E"); reveal_strlit("F");
    }
    match v {
        0 => "0", 1 => "1", 2 => "2", 3 => "3",
        4 => "4", 5 => "5", 6 => "6", 7 => "7",
        8 => "8", 9 => "9", 10 => "A", 11 => "B",
        12 => "C", 13 => "D", 14 => "E", _ => "F",
    }
}

proof fn lemma_hex_encoding_push(bytes: Seq<u8>, b: u8)
    ensures
        bytes.len() == 0 ==> hex_encoding(bytes.push(b)) =~= hex_pair_of_byte(b),
        bytes.len() > 0 ==> hex_encoding(bytes.push(b)) =~= hex_encoding(bytes) + seq![' ']
            + hex_pair_of_byte(b),
    decreases bytes.len(),
{
    if bytes.len() == 0 {
        assert(bytes.push(b).len() == 1);
        assert(bytes.push(b)[0] == b);
    } else if bytes.len() == 1 {
        assert(bytes.push(b).skip(1) =~= seq![b]);
        assert(hex_encoding(seq![b]) =~= hex_pair_of_byte(b));
    } else {
        assert(bytes.push(b).skip(1) =~= bytes.skip(1).push(b));
        lemma_hex_encoding_push(bytes.skip(1), b);
    }
}

/// Encode bytes as uppercase hex pairs joined by single spaces.
pub fn bytes_to_hex_string(bytes: &[u8]) -> (r: String)
    ensures
        r@ == hex_encoding(bytes@),
{
    let mut out = String::new();
    let mut i: usize = 0;
    while i < bytes.len()
        invariant
            i <= bytes@.len(),
            out@ == hex_encoding(bytes@.take(i as int)),
        decreases bytes@.len() - i,
    {
        let b = bytes[i];
        proof {
            assert(bytes@.take(i as int).push(bytes@[i as int]) =~= bytes@.take(i + 1 as int));
            lemma_hex_encoding_push(bytes@.take(i as int), b);
        }
        if i > 0 {
            out.append(" ");
            proof {
                reveal_strlit(" ");
                assert(" "@ =~= seq![' ']);
            }
        }
        out.append(hex_nibble_str(b / 16));
        out.append(hex_nibble_str(b % 16));
        i = i + 1;
    }
    proof {
        assert(bytes@.take(bytes@.len() as int) =~= bytes@);
    }
    out
}

/// Decode hex text: drop spaces, carriage returns and line feeds, then parse
/// the remaining characters pairwise. Reports `OddLength` when an odd count of
/// characters remains, and `InvalidDigit` naming the first two-character group
/// that is not a valid hex pair.
pub fn parse_hex_string(s: &str) -> (r: Result<Vec<u8>, HexError>)
    ensures
        r matches Err(HexError::OddLength) <==> cleaned(s@).len() % 2 == 1,
        r is Ok <==> cleaned(s@).len() % 2 == 0 && all_hex_digits(cleaned(s@)),
        r matches Ok(v) ==> v@ == decoded_bytes(cleaned(s@)),
        r matches Err(HexError::InvalidDigit(g)) ==> cleaned(s@).len() % 2 == 0
            && exists|k: int| first_bad_pair(cleaned(s@), k) && g@ =~= seq![
                cleaned(s@)[2 * k], cleaned(s@)[2 * k + 1]],
        r is Ok <==> decodes_ok(s@),
        r matches Err(e) ==> decode_error_matches(s@, e),
{
    let n = s.unicode_len();
    let mut cs: Vec<char> = Vec::new();
    let mut i: usize = 0;
    while i < n
        invariant
            n == s@.len(),
            i <= n,
            cs@ == cleaned(s@.take(i as int)),
        decreases n - i,
    {
        let c = s.get_char(i);
        proof {
            assert(s@.take(i + 1 as int).drop_last() =~= s@.take(i as int));
            assert(s@.take(i + 1 as int).last() == s@[i as int]);
        }
        if !(c == ' ' || c == '\r' || c == '\n') {
            cs.push(c);
        }
        i = i + 1;
    }
    proof {
        assert(s@.take(n as int) =~= s@);
    }
    if cs.len() % 2 != 0 {
        return Err(HexError::OddLength);
    }
    let mut out: Vec<u8> = Vec::new();
    let mut j: usize = 0;
    while j < cs.len()
        invariant
            cs@ == cleaned(s@),
            cs@.len() % 2 == 0,
            j % 2 == 0,
            j <= cs@.len(),
            out@.len() == j / 2,
            forall|p: int| 0 <= p < j / 2 ==> hex_digit_value(#[trigger] cs@[2 * p]) is Some
                && hex_digit_value(cs@[2 * p + 1]) is Some,
            forall|p: int| 0 <= p < j / 2 ==> out@[p] == (hex_digit_value(cs@[2 * p]).unwrap() * 16
                + hex_digit_value(#[trigger] cs@[2 * p + 1]).unwrap()) as u8,
        decreases cs@.len() - j,
    {
        let c1 = cs[j];
        let c2 = cs[j + 1];
        let v1 = hex_digit_of(c1);
        let v2 = hex_digit_of(c2);
        match (v1, v2) {
            (Some(hi), Some(lo)) => {
                out.push(hi * 16 + lo);
            }
            _ => {
                let group = crate::text::chars_to_string(&vec![c1, c2]);
                proof {
                    assert(first_bad_pair(cs@, j as int / 2));
                }
                return Err(HexError::InvalidDigit(group));
            }
        }
        j = j + 2;
    }
    proof {
        assert forall|i: int| 0 <= i < cs@.len() implies hex_digit_value(#[trigger] cs@[i]) is Some by {
            let p = i / 2;
            assert(0 <= p < cs@.len() / 2);
            if i % 2 == 0 {
                assert(i == 2 * p);
            } else {
                assert(i == 2 * p + 1);
            }
        }
        assert(out@ =~= decoded_bytes(cleaned(s@)));
    }
    Ok(out)
}

proof fn lemma_cleaned_append(a: Seq<char>, b: Seq<char>)
    ensures
        cleaned(a + b) =~= cleaned(a) + cleaned(b),
    decreases b.len(),
{
    if b.len() == 0 {
        assert(a + b =~= a);
    } else {
        assert((a + b).drop_last() =~= a + b.drop_last());
        assert((a + b).last() == b.last());
        lemma_cleaned_append(a, b.drop_last());
    }
}

proof fn lemma_nibble_char(v: int)
    requires
        0 <= v < 16,
    ensures
        !is_skippable(hex_char_of_nibble(v)),
        hex_digit_value(hex_char_of_nibble(v)) == Some(v as u8),
{
}

proof fn lemma_cleaned_pair(b: u8)
    ensures
        cleaned(hex_pair_of_byte(b)) =~= hex_pair_of_byte(b),
{
    reveal_with_fuel(cleaned, 4);
    lemma_nibble_char(b as int / 16);
    lemma_nibble_char(b as int % 16);
    let p = hex_pair_of_byte(b);
    assert(p.drop_last() =~= seq![p[0]]);
    assert(seq![p[0]].drop_last() =~= Seq::<char>::empty());
    assert(cleaned(seq![p[0]]) =~= seq![p[0]]);
}

/// Round trip: decoding the encoding of any byte sequence gives it back.
/// After cleaning, the encoding has exactly two digit characters per byte,
/// all valid, and they decode pairwise to the original bytes.
pub proof fn lemma_hex_round_trip(bytes: Seq<u8>)
    ensures
        cleaned(hex_encoding(bytes)).len() == 2 * bytes.len(),
        all_hex_digits(cleaned(hex_encoding(bytes))),
        decoded_bytes(cleaned(hex_encoding(bytes))) =~= bytes,
    decreases bytes.len(),
{
    let co = cleaned(hex_encoding(bytes));
    if bytes.len() == 0 {
        assert(decoded_bytes(co) =~= bytes);
    } else if bytes.len() == 1 {
        let b = bytes[0];
        lemma_cleaned_pair(b);
        lemma_nibble_char(b as int / 16);
        lemma_nibble_char(b as int % 16);
        assert(co =~= hex_pair_of_byte(b));
        assert(decoded_bytes(co)[0] == ((b as int / 16) * 16 + (b as int % 16)) as u8);
        assert(decoded_bytes(co) =~= bytes);
    } else {
        let b = bytes[0];
        let rest = bytes.skip(1);
        lemma_hex_round_trip(rest);
        let tail = cleaned(hex_encoding(rest));
        lemma_cleaned_append(hex_pair_of_byte(b) + seq![' '], hex_encoding(rest));
        lemma_cleaned_append(hex_pair_of_byte(b), seq![' ']);
        lemma_cleaned_pair(b);
        lemma_nibble_char(b as int / 16);
        lemma_nibble_char(b as int % 16);
        assert(cleaned(seq![' ']) =~= Seq::<char>::empty()) by {
            reveal_with_fuel(cleaned, 3);
            assert(seq![' '].drop_last() =~= Seq::<char>::empty());
        }
        assert(hex_encoding(bytes) =~= (hex_pair_of_byte(b) + seq![' ']) + hex_encoding(rest));
        assert(co =~= hex_pair_of_byte(b) + tail);
        assert forall|i: int| 0 <= i < co.len() implies hex_digit_value(#[trigger] co[i]) is Some by {
            if i >= 2 {
                assert(co[i] == tail[i - 2]);
            }
        }
        assert forall|i: int| 0 <= i < bytes.len() implies decoded_bytes(co)[i] == bytes[i] by {
            if i == 0 {
                assert(decoded_bytes(co)[0] == ((b as int / 16) * 16 + (b as int % 16)) as u8);
            } else {
                assert(co[2 * i] == tail[2 * (i - 1)]);
                assert(co[2 * i + 1] == tail[2 * (i - 1) + 1]);
                assert(decoded_bytes(tail)[i - 1] == rest[i - 1]);
            }
        }
        assert(decoded_bytes(co) =~= bytes);
    }
}

/// Shape of the encoding: no characters for no bytes; otherwise three
/// positions per byte less the missing final space, with a hex digit at every
/// position except each third one, which holds the single separating space —
/// so no space stands at either end and the digit count is even.
pub proof fn lemma_hex_encoding_shape(bytes: Seq<u8>)
    ensures
        bytes.len() == 0 ==> hex_encoding(bytes).len() == 0,
        bytes.len() > 0 ==> hex_encoding(bytes).len() == 3 * bytes.len() - 1,
        forall|i: int| 0 <= i < hex_encoding(bytes).len() ==> ((#[trigger] hex_encoding(
            bytes,
        )[i] == ' ') <==> (i % 3 == 2)),
        forall|i: int| 0 <= i < hex_encoding(bytes).len() && i % 3 != 2 ==> hex_digit_value(
            #[trigger] hex_encoding(bytes)[i],
        ) is Some,
    decreases bytes.len(),
{
    let e = hex_encoding(bytes);
    if bytes.len() == 0 {
    } else if bytes.len() == 1 {
        let b = bytes[0];
        lemma_nibble_char(b as int / 16);
        lemma_nibble_char(b as int % 16);
        assert(e =~= hex_pair_of_byte(b));
    } else {
        let b = bytes[0];
        let rest = bytes.skip(1);
        lemma_hex_encoding_shape(rest);
        lemma_nibble_char(b as int / 16);
        lemma_nibble_char(b as int % 16);
        let tail = hex_encoding(rest);
        assert(e =~= (hex_pair_of_byte(b) + seq![' ']) + tail);
        assert forall|i: int| 0 <= i < e.len() implies ((#[trigger] e[i] == ' ') <==> (i % 3
            == 2)) by {
            if i >= 3 {
                assert(e[i] == tail[i - 3]);
                assert((i - 3) % 3 == i % 3);
            }
        }
        assert forall|i: int| 0 <= i < e.len() && i % 3 != 2 implies hex_digit_value(
            #[trigger] e[i],
        ) is Some by {
            if i >= 3 {
                assert(e[i] == tail[i - 3]);
                assert((i - 3) % 3 == i % 3);
            }
        }
    }
}

} // verus!
