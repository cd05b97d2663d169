//! Text: equality, decimal integers read and written, and the `true`
//! token.
use vstd::prelude::*;
use vstd::string::*;
use vstd::utf8::{encode_utf8, encode_utf8_decode_utf8, is_ascii_chars, is_ascii_chars_encode_utf8};

verus! {

/// Whether `c` is one of the ten ASCII decimal digits.
pub open spec fn is_digit(c: char) -> bool {
    '0' <= c && c <= '9'
}

/// The number that a run of decimal digits denotes, most significant digit
/// first. The empty run denotes zero.
pub open spec fn digits_value(s: Seq<char>) -> int
    decreases s.len(),
{
    if s.len() == 0 {
        0
    } else {
        digits_value(s.drop_last()) * 10 + (s.last() as int - '0' as int)
    }
}

/// Whether `s` starts with a sign character.
pub open spec fn has_sign(s: Seq<char>) -> bool {
    s.len() > 0 && (s[0] == '+' || s[0] == '-')
}

/// What is left of `s` once one leading sign, if there is one, is taken off.
pub open spec fn unsigned_part(s: Seq<char>) -> Seq<char> {
    if has_sign(s) {
        s.subrange(1, s.len() as int)
    } else {
        s
    }
}

/// The integer written in `s`, if `s` is an optional `+` or `-` followed by
/// one or more decimal digits and nothing else. No bound on its size.
pub open spec fn decimal_int(s: Seq<char>) -> Option<int> {
    let digits = unsigned_part(s);
    if digits.len() == 0 || exists|i: int| 0 <= i < digits.len() && !is_digit(#[trigger] digits[i]) {
        None
    } else if s[0] == '-' {
        Some(-digits_value(digits))
    } else {
        Some(digits_value(digits))
    }
}

/// The 32-bit signed integer written in `s` in base ten: `decimal_int`,
/// except that a number outside the range of `i32` is no value at all.
pub open spec fn decimal_i32(s: Seq<char>) -> Option<i32> {
    match decimal_int(s) {
        Some(n) if i32::MIN <= n <= i32::MAX => Some(n as i32),
        _ => None,
    }
}

/// Whether `s` is the word `true`, each letter in either case.
pub open spec fn is_true_token(s: Seq<char>) -> bool {
    &&& s.len() == 4
    &&& (s[0] == 't' || s[0] == 'T')
    &&& (s[1] == 'r' || s[1] == 'R')
    &&& (s[2] == 'u' || s[2] == 'U')
    &&& (s[3] == 'e' || s[3] == 'E')
}

/// `c` in lower case if it is an ASCII capital letter, else `c` itself.
pub open spec fn ascii_lower(c: char) -> char {
    if 'A' <= c && c <= 'Z' {
        ((c as u8) + 32) as char
    } else {
        c
    }
}

/// `s` with each ASCII capital letter in lower case.
pub open spec fn ascii_lowered(s: Seq<char>) -> Seq<char> {
    s.map_values(|c: char| ascii_lower(c))
}

/// The `true` token is what reads `true` once its ASCII capitals are in
/// lower case, and nothing else.
pub proof fn lemma_true_token_ignores_case(s: Seq<char>)
    ensures
        is_true_token(s) <==> ascii_lowered(s) == "true"@,
{
    reveal_strlit("true");
    let lowered = ascii_lowered(s);
    let word = "true"@;
    if is_true_token(s) {
        assert(lowered =~= word);
    }
    if lowered == word {
        assert(lowered.len() == 4);
        assert(lowered[0] == 't' && lowered[1] == 'r' && lowered[2] == 'u' && lowered[3] == 'e');
    }
}

/// The character for a single decimal digit.
pub open spec fn digit_char(d: nat) -> char {
    if d == 0 {
        '0'
    } else if d == 1 {
        '1'
    } else if d == 2 {
        '2'
    } else if d == 3 {
        '3'
    } else if d == 4 {
        '4'
    } else if d == 5 {
        '5'
    } else if d == 6 {
        '6'
    } else if d == 7 {
        '7'
    } else if d == 8 {
        '8'
    } else {
        '9'
    }
}

/// `n` written in base ten, without leading zeros.
pub open spec fn decimal_digits(n: nat) -> Seq<char>
    decreases n,
{
    if n < 10 {
        seq![digit_char(n)]
    } else {
        decimal_digits(n / 10).push(digit_char(n % 10))
    }
}

/// Tells whether two string slices hold the same characters.
pub fn same_text(a: &str, b: &str) -> (same: bool)
    ensures
        same == (a@ == b@),
{
    let left = a.as_bytes();
    let right = b.as_bytes();
    proof {
        encode_utf8_decode_utf8(a@);
        encode_utf8_decode_utf8(b@);
    }
    if left.len() != right.len() {
        return false;
    }
    let mut i: usize = 0;
    while i < left.len()
        invariant
            i <= left.len(),
            left.len() == right.len(),
            left@ == encode_utf8(a@),
            right@ == encode_utf8(b@),
            forall|j: int| 0 <= j < i ==> left@[j] == right@[j],
        decreases left.len() - i,
    {
        if left[i] != right[i] {
            return false;
        }
        i += 1;
    }
    assert(left@ =~= right@);
    true
}

/// A value with a character outside ASCII is no decimal integer.
proof fn lemma_number_is_ascii(s: Seq<char>)
    requires
        !is_ascii_chars(s),
    ensures
        decimal_int(s) is None,
{
    let i = choose|i: int| 0 <= i < s.len() && !('\0' <= #[trigger] s[i] <= '\u{7f}');
    let digits = unsigned_part(s);
    if has_sign(s) {
        assert(!is_digit(digits[i - 1]));
    } else {
        assert(!is_digit(digits[i]));
    }
}

/// Reads `val` as a 32-bit signed integer in base ten: an optional `+` or
/// `-`, then one or more digits, and nothing else.
pub fn parse_i32(val: &str) -> (parsed: Option<i32>)
    ensures
        parsed == decimal_i32(val@),
{
    if !val.is_ascii() {
        proof {
            lemma_number_is_ascii(val@);
        }
        return None;
    }
    let bytes = val.as_bytes();
    proof {
        is_ascii_chars_encode_utf8(val@);
    }
    let n = bytes.len();
    if n == 0 {
        return None;
    }
    let negative = bytes[0] == 45;
    let start: usize = if bytes[0] == 45 || bytes[0] == 43 {
        1
    } else {
        0
    };
    let ghost digits = unsigned_part(val@);
    assert(digits =~= val@.subrange(start as int, n as int));
    if start == n {
        return None;
    }
    let mut magnitude: i64 = 0;
    let mut too_big = false;
    let mut i: usize = start;
    while i < n
        invariant
            start <= i <= n,
            n == val@.len(),
            n == bytes@.len(),
            is_ascii_chars(val@),
            forall|j: int| 0 <= j < n ==> val@[j] as u8 == #[trigger] bytes@[j],
            digits == val@.subrange(start as int, n as int),
            digits == unsigned_part(val@),
            forall|j: int| 0 <= j < i - start ==> is_digit(#[trigger] digits[j]),
            0 <= magnitude <= 2147483648,
            !too_big ==> magnitude == digits_value(digits.take(i - start)),
            too_big ==> digits_value(digits.take(i - start)) > 2147483648,
        decreases n - i,
    {
        let b = bytes[i];
        let ghost c = val@[i as int];
        assert(c == digits[i - start]);
        assert('\0' <= c <= '\u{7f}');
        if b < 48 || b > 57 {
            assert(!is_digit(digits[i - start]));
            return None;
        }
        assert(is_digit(c));
        assert(c as int - '0' as int == b - 48);
        assert(digits.take(i - start + 1).drop_last() =~= digits.take(i - start));
        if !too_big {
            let next: i64 = magnitude * 10 + (b - 48) as i64;
            if next > 2147483648 {
                too_big = true;
            } else {
                magnitude = next;
            }
        }
        i += 1;
    }
    assert(digits.take(n - start) =~= digits);
    if too_big {
        None
    } else if negative {
        Some((-magnitude) as i32)
    } else if magnitude > 2147483647 {
        None
    } else {
        Some(magnitude as i32)
    }
}

/// Tells whether `val` spells `true`, ignoring the case of each letter.
pub fn reads_true(val: &str) -> (yes: bool)
    ensures
        yes == is_true_token(val@),
{
    if val.unicode_len() != 4 {
        return false;
    }
    let c0 = val.get_char(0);
    let c1 = val.get_char(1);
    let c2 = val.get_char(2);
    let c3 = val.get_char(3);
    (c0 == 't' || c0 == 'T') && (c1 == 'r' || c1 == 'R') && (c2 == 'u' || c2 == 'U') && (c3 == 'e'
        || c3 == 'E')
}

/// The text of a single decimal digit.
fn digit_text(d: usize) -> (text: &'static str)
    requires
        d < 10,
    ensures
        text@ == seq![digit_char(d as nat)],
{
    proof {
        reveal_strlit("0");
        reveal_strlit("1");
        reveal_strlit("2");
        reveal_strlit("3");
        reveal_strlit("4");
        reveal_strlit("5");
        reveal_strlit("6");
        reveal_strlit("7");
        reveal_strlit("8");
        reveal_strlit("9");
    }
    let text = if d == 0 {
        "0"
    } else if d == 1 {
        "1"
    } else if d == 2 {
        "2"
    } else if d == 3 {
        "3"
    } else if d == 4 {
        "4"
    } else if d == 5 {
        "5"
    } else if d == 6 {
        "6"
    } else if d == 7 {
        "7"
    } else if d == 8 {
        "8"
    } else {
        "9"
    };
    assert(text@ =~= seq![digit_char(d as nat)]);
    text
}

/// Writes `n` in base ten.
pub fn decimal_text(n: usize) -> (text: String)
    ensures
        text@ == decimal_digits(n as nat),
    decreases n,
{
    if n < 10 {
        digit_text(n).to_owned()
    } else {
        let mut text = decimal_text(n / 10);
        let last = digit_text(n % 10);
        text.append(last);
        assert(text@ =~= decimal_digits(n as nat / 10).push(digit_char(n as nat % 10)));
        text
    }
}

} // verus!
