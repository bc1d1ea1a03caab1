//! Reading a magnitude from the text that the ledger sends: a decimal number,
//! possibly wrapped in double quotes.

use vstd::prelude::*;
use vstd::string::*;

verus! {

/// Whether `c` is a decimal digit.
pub open spec fn is_digit(c: char) -> bool {
    '0' <= c && c <= '9'
}

/// The value of a decimal digit; zero for any other character.
pub open spec fn digit_value(c: char) -> nat {
    if is_digit(c) {
        (c as u32 - 48) as nat
    } else {
        0
    }
}

/// Whether every character of `s` is a decimal digit.
pub open spec fn all_digits(s: Seq<char>) -> bool {
    forall|i: int| 0 <= i < s.len() ==> is_digit(#[trigger] s[i])
}

/// The number that the digits of `s` spell in base ten.
pub open spec fn digits_value(s: Seq<char>) -> nat
    decreases s.len(),
{
    if s.len() == 0 {
        0
    } else {
        digits_value(s.drop_last()) * 10 + digit_value(s.last())
    }
}

/// `s` without the double quotes at its start.
pub open spec fn trim_start_quotes(s: Seq<char>) -> Seq<char>
    decreases s.len(),
{
    if s.len() > 0 && s[0] == '"' {
        trim_start_quotes(s.drop_first())
    } else {
        s
    }
}

/// `s` without the double quotes at its end.
pub open spec fn trim_end_quotes(s: Seq<char>) -> Seq<char>
    decreases s.len(),
{
    if s.len() > 0 && s.last() == '"' {
        trim_end_quotes(s.drop_last())
    } else {
        s
    }
}

/// `s` without the double quotes at either end.
pub open spec fn trim_quotes(s: Seq<char>) -> Seq<char> {
    trim_end_quotes(trim_start_quotes(s))
}

/// `s` without one leading plus sign, if it has one.
pub open spec fn without_plus(s: Seq<char>) -> Seq<char> {
    if s.len() > 0 && s[0] == '+' {
        s.drop_first()
    } else {
        s
    }
}

/// The unsigned 128-bit number that `s` spells: an optional plus sign, then
/// one or more decimal digits whose value fits. Nothing for any other text.
pub open spec fn unsigned_of(s: Seq<char>) -> Option<u128> {
    let digits = without_plus(s);
    if digits.len() > 0 && all_digits(digits) && digits_value(digits) <= u128::MAX {
        Some(digits_value(digits) as u128)
    } else {
        None
    }
}

/// The magnitude that `s` holds once the quotes around it are taken off.
pub open spec fn amount_of(s: Seq<char>) -> Option<u128> {
    unsigned_of(trim_quotes(s))
}

/// The magnitude that `bytes` hold, read as UTF-8 text.
pub open spec fn amount_of_bytes(bytes: Seq<u8>) -> Option<u128> {
    if vstd::utf8::valid_utf8(bytes) {
        amount_of(vstd::utf8::decode_utf8(bytes))
    } else {
        None
    }
}

/// The value of a prefix of `s` is at most the value of `s`.
proof fn lemma_prefix_value(s: Seq<char>, k: int)
    requires
        0 <= k <= s.len(),
    ensures
        digits_value(s.subrange(0, k)) <= digits_value(s),
    decreases s.len() - k,
{
    if k == s.len() {
        assert(s.subrange(0, k) =~= s);
    } else {
        lemma_prefix_value(s.drop_last(), k);
        assert(s.drop_last().subrange(0, k) =~= s.subrange(0, k));
    }
}

/// Reads the magnitude that `text` holds.
pub fn parse_amount(text: &str) -> (r: Option<u128>)
    ensures
        r == amount_of(text@),
{
    let n: usize = text.unicode_len();
    let mut i: usize = 0;
    assert(text@.subrange(0, n as int) =~= text@);
    while i < n && text.get_char(i) == '"'
        invariant
            i <= n,
            n == text@.len(),
            trim_start_quotes(text@.subrange(i as int, n as int)) == trim_start_quotes(text@),
        decreases n - i,
    {
        proof {
            let rest = text@.subrange(i as int, n as int);
            assert(rest[0] == '"');
            assert(rest.drop_first() =~= text@.subrange(i + 1, n as int));
        }
        i += 1;
    }
    let ghost front = text@.subrange(i as int, n as int);
    assert(trim_start_quotes(text@) == front) by {
        if i < n {
            assert(front[0] != '"');
        }
    }
    let mut j: usize = n;
    while j > i && text.get_char(j - 1) == '"'
        invariant
            i <= j <= n,
            n == text@.len(),
            front == text@.subrange(i as int, n as int),
            trim_end_quotes(text@.subrange(i as int, j as int)) == trim_end_quotes(front),
        decreases j - i,
    {
        proof {
            let rest = text@.subrange(i as int, j as int);
            assert(rest.last() == '"');
            assert(rest.drop_last() =~= text@.subrange(i as int, j - 1));
        }
        j -= 1;
    }
    let ghost body = text@.subrange(i as int, j as int);
    assert(trim_quotes(text@) == body) by {
        if j > i {
            assert(body.last() != '"');
        }
    }
    let mut k: usize = i;
    if k < j && text.get_char(k) == '+' {
        k += 1;
    }
    let ghost digits = text@.subrange(k as int, j as int);
    assert(without_plus(body) =~= digits) by {
        if k < j {
            assert(body[k - i] == text@[k as int]);
        }
    }
    if k == j {
        return None;
    }
    let start: usize = k;
    let mut value: u128 = 0;
    assert(digits.subrange(0, 0) =~= Seq::<char>::empty());
    while k < j
        invariant
            start <= k <= j <= n,
            start < j,
            amount_of(text@) == unsigned_of(body),
            without_plus(body) == digits,
            n == text@.len(),
            digits == text@.subrange(start as int, j as int),
            all_digits(digits.subrange(0, k - start)),
            value == digits_value(digits.subrange(0, k - start)),
        decreases j - k,
    {
        let c: char = text.get_char(k);
        let ghost seen = digits.subrange(0, k - start);
        let ghost next = digits.subrange(0, k + 1 - start);
        proof {
            assert(next.drop_last() =~= seen);
            assert(next.last() == c);
            assert(digits[k - start] == c);
        }
        if !(c >= '0' && c <= '9') {
            assert(!is_digit(digits[k - start]));
            return None;
        }
        let d: u128 = (c as u32 - 48) as u128;
        proof {
            assert(digits_value(next) == value * 10 + d);
            lemma_prefix_value(digits, k + 1 - start);
        }
        if value > (u128::MAX - d) / 10 {
            assert(value * 10 + d > u128::MAX);
            return None;
        }
        value = value * 10 + d;
        proof {
            assert forall|m: int| 0 <= m < next.len() implies is_digit(#[trigger] next[m]) by {
                if m < k - start {
                    assert(next[m] == seen[m]);
                }
            }
        }
        k += 1;
    }
    assert(digits.subrange(0, k - start) =~= digits);
    Some(value)
}

/// `core::str::from_utf8`: the text that `bytes` encode, where they are
/// well-formed UTF-8, and nothing where they are not. The text is read off
/// the same bytes, so it is their decoding.
#[verifier::external_body]
fn text_of_bytes(bytes: &[u8]) -> (r: Option<&str>)
    ensures
        r is Some <==> vstd::utf8::valid_utf8(bytes@),
        r matches Some(text) ==> text@ == vstd::utf8::decode_utf8(bytes@),
{
    core::str::from_utf8(bytes).ok()
}

/// Reads the magnitude that `bytes` hold as UTF-8 text.
pub fn parse_amount_bytes(bytes: &[u8]) -> (r: Option<u128>)
    ensures
        r == amount_of_bytes(bytes@),
{
    match text_of_bytes(bytes) {
        Some(text) => parse_amount(text),
        None => None,
    }
}

} // verus!
