//! Small text utilities: whitespace tokenizing, ASCII case-insensitive
//! comparison, and decimal rendering and parsing of numbers.

use vstd::prelude::*;
use crate::hex::hex_char_of_nibble;

verus! {

/// Whitespace for tokenizing: space, tab, carriage return, line feed.
pub open spec fn is_space(c: char) -> bool {
    c == ' ' || c == '\t' || c == '\r' || c == '\n'
}

/// The whitespace-separated words of a line, in order, each non-empty.
pub open spec fn split_tokens(s: Seq<char>) -> Seq<Seq<char>>
    decreases s.len(),
{
    if s.len() == 0 {
        Seq::empty()
    } else {
        let pre = split_tokens(s.drop_last());
        let c = s.last();
        if is_space(c) {
            pre
        } else if s.len() >= 2 && !is_space(s[s.len() - 2]) {
            pre.update(pre.len() - 1, pre.last().push(c))
        } else {
            pre.push(seq![c])
        }
    }
}

/// Relies on `String::from_iter` over `Vec<char>`: the result holds exactly
/// the vector's characters in order.
#[verifier::external_body]
pub(crate) fn chars_to_string(v: &Vec<char>) -> (r: String)
    ensures
        r@ =~= v@,
{
    v.iter().collect()
}

/// Split a line into its whitespace-separated words.
pub fn tokenize(s: &str) -> (r: Vec<String>)
    ensures
        r.deep_view() == split_tokens(s@),
{
    let n = s.unicode_len();
    let mut toks: Vec<String> = Vec::new();
    let mut cur: Vec<char> = Vec::new();
    let mut i: usize = 0;
    while i < n
        invariant
            n == s@.len(),
            i <= n,
            cur@.len() == 0 ==> (i == 0 || is_space(s@[i - 1])) && toks.deep_view()
                == split_tokens(s@.take(i as int)),
            cur@.len() > 0 ==> i > 0 && !is_space(s@[i - 1]) && toks.deep_view().push(cur@)
                == split_tokens(s@.take(i as int)),
        decreases n - i,
    {
        let c = s.get_char(i);
        proof {
            assert(s@.take(i + 1 as int).drop_last() =~= s@.take(i as int));
            assert(s@.take(i + 1 as int).last() == s@[i as int]);
        }
        if c == ' ' || c == '\t' || c == '\r' || c == '\n' {
            if cur.len() > 0 {
                let word = chars_to_string(&cur);
                toks.push(word);
                cur = Vec::new();
                proof {
                    assert(toks.deep_view() =~= split_tokens(s@.take(i + 1 as int)));
                }
            }
        } else {
            if cur.len() == 0 {
                cur.push(c);
                proof {
                    assert(cur@ =~= seq![c]);
                    assert(toks.deep_view().push(cur@) =~= split_tokens(s@.take(i + 1 as int)));
                }
            } else {
                let ghost old_toks = toks.deep_view();
                let ghost old_cur = cur@;
                cur.push(c);
                proof {
                    let sp = split_tokens(s@.take(i + 1 as int));
                    let pre = split_tokens(s@.take(i as int));
                    assert(pre == old_toks.push(old_cur));
                    assert(pre.last() == old_cur);
                    assert(sp =~= pre.update(pre.len() - 1, old_cur.push(c)));
                    assert(toks.deep_view().push(cur@) =~= sp);
                }
            }
        }
        i = i + 1;
    }
    proof {
        assert(s@.take(n as int) =~= s@);
    }
    if cur.len() > 0 {
        let word = chars_to_string(&cur);
        toks.push(word);
    }
    proof {
        assert(toks.deep_view() =~= split_tokens(s@));
    }
    toks
}

/// ASCII lowercase of one character; others unchanged.
pub open spec fn lower_char(c: char) -> char {
    if 'A' as u32 <= c as u32 && c as u32 <= 'Z' as u32 {
        ((c as u32) + 32) as char
    } else {
        c
    }
}

/// ASCII lowercase of a character sequence.
pub open spec fn lower_seq(s: Seq<char>) -> Seq<char> {
    s.map_values(|c: char| lower_char(c))
}

fn chars_eq_nocase(x: char, y: char) -> (r: bool)
    ensures
        r == (lower_char(x) == lower_char(y)),
{
    let xu = x as u32;
    let yu = y as u32;
    let xl: u32 = if 65 <= xu && xu <= 90 { xu + 32 } else { xu };
    let yl: u32 = if 65 <= yu && yu <= 90 { yu + 32 } else { yu };
    xl == yl
}

/// ASCII case-insensitive equality of two strings.
pub fn eq_ignore_case(a: &str, b: &str) -> (r: bool)
    ensures
        r == (lower_seq(a@) == lower_seq(b@)),
{
    let na = a.unicode_len();
    let nb = b.unicode_len();
    if na != nb {
        proof {
            assert(lower_seq(a@).len() != lower_seq(b@).len());
        }
        return false;
    }
    let mut i: usize = 0;
    while i < na
        invariant
            na == a@.len(),
            na == b@.len(),
            i <= na,
            forall|j: int| 0 <= j < i ==> lower_char(#[trigger] a@[j]) == lower_char(b@[j]),
        decreases na - i,
    {
        if !chars_eq_nocase(a.get_char(i), b.get_char(i)) {
            proof {
                assert(lower_seq(a@)[i as int] != lower_seq(b@)[i as int]);
            }
            return false;
        }
        i = i + 1;
    }
    proof {
        assert(lower_seq(a@) =~= lower_seq(b@));
    }
    true
}

/// The decimal digits of a non-negative number, most significant first.
pub open spec fn dec_digits(n: int) -> Seq<char>
    recommends
        n >= 0,
    decreases n,
{
    if n < 10 {
        seq![hex_char_of_nibble(n)]
    } else {
        dec_digits(n / 10).push(hex_char_of_nibble(n % 10))
    }
}

pub(crate) fn append_decimal(out: &mut String, n: u64)
    ensures
        final(out)@ == old(out)@ + dec_digits(n as int),
    decreases n,
{
    if n < 10 {
        out.append(crate::hex::hex_nibble_str(n as u8));
        proof {
            assert(old(out)@ + seq![hex_char_of_nibble(n as int)] =~= final(out)@);
        }
    } else {
        append_decimal(out, n / 10);
        out.append(crate::hex::hex_nibble_str((n % 10) as u8));
        proof {
            assert(old(out)@ + dec_digits(n as int) =~= final(out)@);
        }
    }
}

/// Render a number in decimal.
pub fn u32_to_string(n: u32) -> (r: String)
    ensures
        r@ == dec_digits(n as int),
{
    let mut out = String::new();
    append_decimal(&mut out, n as u64);
    proof {
        assert(Seq::<char>::empty() + dec_digits(n as int) =~= dec_digits(n as int));
    }
    out
}

/// Whether every character is a decimal digit.
pub open spec fn all_dec_digits(s: Seq<char>) -> bool {
    forall|i: int| 0 <= i < s.len() ==> '0' as u32 <= (#[trigger] s[i]) as u32 && s[i] as u32
        <= '9' as u32
}

/// The value of a digit string, read most significant first.
pub open spec fn dec_value(s: Seq<char>) -> int
    decreases s.len(),
{
    if s.len() == 0 {
        0
    } else {
        dec_value(s.drop_last()) * 10 + (s.last() as u32 - '0' as u32)
    }
}

proof fn lemma_dec_value_nonneg(s: Seq<char>)
    requires
        all_dec_digits(s),
    ensures
        dec_value(s) >= 0,
    decreases s.len(),
{
    if s.len() > 0 {
        assert(all_dec_digits(s.drop_last()));
        lemma_dec_value_nonneg(s.drop_last());
    }
}

proof fn lemma_dec_value_prefix(s: Seq<char>, k: int)
    requires
        all_dec_digits(s),
        0 <= k <= s.len(),
    ensures
        dec_value(s) >= dec_value(s.take(k)),
    decreases s.len() - k,
{
    lemma_dec_value_nonneg(s.take(k));
    if k < s.len() {
        lemma_dec_value_prefix(s, k + 1);
        assert(s.take(k + 1).drop_last() =~= s.take(k));
        assert(s.take(k + 1).last() == s[k]);
        assert('0' as u32 <= s[k] as u32 && s[k] as u32 <= '9' as u32);
        assert(dec_value(s.take(k + 1)) == dec_value(s.take(k)) * 10 + (s[k] as u32 - '0' as u32));
        assert(dec_value(s.take(k + 1)) >= dec_value(s.take(k)));
    } else {
        assert(s.take(k) =~= s);
    }
}

/// The default baud rate used when a numeric argument cannot be read.
pub open spec fn default_baud() -> u32 {
    115200
}

/// The baud rate a textual argument selects: its decimal value when it is a
/// non-empty digit string that fits, otherwise the default.
pub open spec fn parse_baud_spec(s: Seq<char>) -> u32 {
    if s.len() > 0 && all_dec_digits(s) && dec_value(s) <= u32::MAX {
        dec_value(s) as u32
    } else {
        default_baud()
    }
}

/// Read a baud-rate argument, falling back to the default on anything that is
/// not a plain decimal number in range.
pub fn parse_baud(s: &str) -> (r: u32)
    ensures
        r == parse_baud_spec(s@),
{
    let n = s.unicode_len();
    if n == 0 {
        return 115200;
    }
    let mut acc: u64 = 0;
    let mut i: usize = 0;
    while i < n
        invariant
            n == s@.len(),
            0 < n,
            i <= n,
            all_dec_digits(s@.take(i as int)),
            acc == dec_value(s@.take(i as int)),
            acc <= u32::MAX,
        decreases n - i,
    {
        let c = s.get_char(i);
        let u = c as u32;
        proof {
            assert(s@.take(i + 1 as int).drop_last() =~= s@.take(i as int));
            assert(s@.take(i + 1 as int).last() == s@[i as int]);
        }
        if !(48 <= u && u <= 57) {
            return 115200;
        }
        let d = (u - 48) as u64;
        let next = acc * 10 + d;
        if next > 0xffff_ffff {
            proof {
                if all_dec_digits(s@) {
                    lemma_dec_value_prefix(s@, i + 1 as int);
                }
            }
            return 115200;
        }
        acc = next;
        i = i + 1;
    }
    proof {
        assert(s@.take(n as int) =~= s@);
    }
    acc as u32
}

} // verus!
