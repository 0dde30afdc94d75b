//! Decimal text for 32-bit integers.
//!
//! `dec_digits` and `int_text` say what the decimal rendering of a value is;
//! `parse_i32_spec` says which character sequences signed 32-bit parsing
//! accepts (an optional sign, one or more digits, a value within the i32
//! range) and what value they denote.  The executable `i32_text` and
//! `parse_i32` are proved against those definitions, and
//! `lemma_parse_int_text` shows that parsing inverts printing.

use vstd::prelude::*;
use vstd::string::StrSliceExecFns;
use vstd::string::StringExecFns;

verus! {

/// The character for one decimal digit value.
pub open spec fn digit_char(d: nat) -> char {
    if d == 0 {
        '0'
    } else if d == 1 {
        '1'
    } else if d == 2 {
        '2'
    } else if d == 3 {
        '3'
    } else if d == 4 {
        '4'
    } else if d == 5 {
        '5'
    } else if d == 6 {
        '6'
    } else if d == 7 {
        '7'
    } else if d == 8 {
        '8'
    } else {
        '9'
    }
}

/// The value of a digit character; 10 marks a character that is no digit.
pub open spec fn digit_of(c: char) -> nat {
    if c == '0' {
        0
    } else if c == '1' {
        1
    } else if c == '2' {
        2
    } else if c == '3' {
        3
    } else if c == '4' {
        4
    } else if c == '5' {
        5
    } else if c == '6' {
        6
    } else if c == '7' {
        7
    } else if c == '8' {
        8
    } else if c == '9' {
        9
    } else {
        10
    }
}

pub open spec fn is_digit(c: char) -> bool {
    digit_of(c) < 10
}

/// Decimal digits of a value, most significant first, without sign and
/// without leading zeros (the value 0 is the single digit "0").
pub open spec fn dec_digits(n: nat) -> Seq<char>
    decreases n,
{
    if n < 10 {
        seq![digit_char(n)]
    } else {
        dec_digits(n / 10).push(digit_char(n % 10))
    }
}

/// Decimal text of a signed value: a '-' before the digits when negative.
pub open spec fn int_text(n: int) -> Seq<char> {
    if n < 0 {
        seq!['-'] + dec_digits((-n) as nat)
    } else {
        dec_digits(n as nat)
    }
}

/// The value of a digit sequence read most significant first.
pub open spec fn digits_val(s: Seq<char>) -> nat
    decreases s.len(),
{
    if s.len() == 0 {
        0
    } else {
        digits_val(s.drop_last()) * 10 + digit_of(s.last())
    }
}

pub open spec fn all_digits(s: Seq<char>) -> bool {
    forall|i: int| 0 <= i < s.len() ==> is_digit(#[trigger] s[i])
}

/// Length of the optional leading sign.
pub open spec fn sign_len(s: Seq<char>) -> int {
    if s.len() > 0 && (s[0] == '+' || s[0] == '-') {
        1
    } else {
        0
    }
}

/// What stands after the optional sign.
pub open spec fn digits_part(s: Seq<char>) -> Seq<char> {
    s.subrange(sign_len(s), s.len() as int)
}

pub open spec fn is_negative(s: Seq<char>) -> bool {
    s.len() > 0 && s[0] == '-'
}

/// The signed value a well-formed input denotes.
pub open spec fn denoted_val(s: Seq<char>) -> int {
    if is_negative(s) {
        -(digits_val(digits_part(s)) as int)
    } else {
        digits_val(digits_part(s)) as int
    }
}

/// What signed 32-bit parsing accepts: an optional leading '+' or '-', then
/// one or more digits, denoting a value within the i32 range.  Anything else,
/// including an out-of-range value, fails.
pub open spec fn parse_i32_spec(s: Seq<char>) -> Option<i32> {
    let digits = digits_part(s);
    if digits.len() > 0 && all_digits(digits) && i32::MIN <= denoted_val(s) <= i32::MAX {
        Some(denoted_val(s) as i32)
    } else {
        None
    }
}

/// The one-character string for a digit value.
fn digit_str(d: u32) -> (r: &'static str)
    requires
        d < 10,
    ensures
        r@ == seq![digit_char(d as nat)],
{
    if d == 0 {
        proof {
            reveal_strlit("0");
            assert("0"@ =~= seq![digit_char(d as nat)]);
        }
        "0"
    } else if d == 1 {
        proof {
            reveal_strlit("1");
            assert("1"@ =~= seq![digit_char(d as nat)]);
        }
        "1"
    } else if d == 2 {
        proof {
            reveal_strlit("2");
            assert("2"@ =~= seq![digit_char(d as nat)]);
        }
        "2"
    } else if d == 3 {
        proof {
            reveal_strlit("3");
            assert("3"@ =~= seq![digit_char(d as nat)]);
        }
        "3"
    } else if d == 4 {
        proof {
            reveal_strlit("4");
            assert("4"@ =~= seq![digit_char(d as nat)]);
        }
        "4"
    } else if d == 5 {
        proof {
            reveal_strlit("5");
            assert("5"@ =~= seq![digit_char(d as nat)]);
        }
        "5"
    } else if d == 6 {
        proof {
            reveal_strlit("6");
            assert("6"@ =~= seq![digit_char(d as nat)]);
        }
        "6"
    } else if d == 7 {
        proof {
            reveal_strlit("7");
            assert("7"@ =~= seq![digit_char(d as nat)]);
        }
        "7"
    } else if d == 8 {
        proof {
            reveal_strlit("8");
            assert("8"@ =~= seq![digit_char(d as nat)]);
        }
        "8"
    } else {
        proof {
            reveal_strlit("9");
            assert("9"@ =~= seq![digit_char(d as nat)]);
        }
        "9"
    }
}

/// The value of a digit character, 10 for a character that is no digit.
fn digit_val(c: char) -> (d: u32)
    ensures
        d == digit_of(c),
{
    if c == '0' {
        0
    } else if c == '1' {
        1
    } else if c == '2' {
        2
    } else if c == '3' {
        3
    } else if c == '4' {
        4
    } else if c == '5' {
        5
    } else if c == '6' {
        6
    } else if c == '7' {
        7
    } else if c == '8' {
        8
    } else if c == '9' {
        9
    } else {
        10
    }
}

/// Decimal text of an unsigned 32-bit value.
pub fn u32_text(n: u32) -> (s: String)
    ensures
        s@ == dec_digits(n as nat),
    decreases n,
{
    if n < 10 {
        let s = String::from_str(digit_str(n));
        proof {
            assert(s@ =~= dec_digits(n as nat));
        }
        s
    } else {
        let mut s = u32_text(n / 10);
        s.append(digit_str(n % 10));
        proof {
            assert(s@ =~= dec_digits(n as nat));
        }
        s
    }
}

/// Decimal text of a signed 32-bit value.
pub fn i32_text(n: i32) -> (s: String)
    ensures
        s@ == int_text(n as int),
{
    if n >= 0 {
        u32_text(n as u32)
    } else {
        let mut s = String::from_str("-");
        let magnitude: u32 = (-(n as i64)) as u32;
        let digits = u32_text(magnitude);
        s.append(digits.as_str());
        proof {
            reveal_strlit("-");
            assert(s@ =~= int_text(n as int));
        }
        s
    }
}

/// A prefix of a digit run never denotes more than the whole run.
proof fn lemma_digits_val_prefix(s: Seq<char>, k: int)
    requires
        0 <= k <= s.len(),
    ensures
        digits_val(s.subrange(0, k)) <= digits_val(s),
    decreases s.len() - k,
{
    if k == s.len() {
        assert(s.subrange(0, k) =~= s);
    } else {
        lemma_digits_val_prefix(s, k + 1);
        let t = s.subrange(0, k + 1);
        assert(t.drop_last() =~= s.subrange(0, k));
        assert(digits_val(t) == digits_val(s.subrange(0, k)) * 10 + digit_of(s[k]));
        assert(digits_val(s.subrange(0, k)) * 10 >= digits_val(s.subrange(0, k)));
    }
}

/// Signed 32-bit parsing of a string, accepting exactly what
/// `parse_i32_spec` accepts.
pub fn parse_i32(s: &str) -> (r: Option<i32>)
    ensures
        r == parse_i32_spec(s@),
{
    let n = s.unicode_len();
    let mut from: usize = 0;
    let mut negative = false;
    if n > 0 {
        let c0 = s.get_char(0);
        if c0 == '-' {
            negative = true;
            from = 1;
        } else if c0 == '+' {
            from = 1;
        }
    }
    let ghost digits: Seq<char> = s@.subrange(from as int, s@.len() as int);
    proof {
        assert(from == sign_len(s@));
        assert(digits == digits_part(s@));
    }
    if from == n {
        // empty input, or a sign with nothing after it
        return None;
    }
    let mut acc: u64 = 0;
    let mut j: usize = from;
    while j < n
        invariant
            from <= j <= n,
            n == s@.len(),
            from == sign_len(s@),
            negative == is_negative(s@),
            digits == digits_part(s@),
            digits == s@.subrange(from as int, n as int),
            forall|k: int| from <= k < j ==> is_digit(#[trigger] s@[k]),
            acc == digits_val(s@.subrange(from as int, j as int)),
            acc <= 2147483648,
        decreases n - j,
    {
        let c = s.get_char(j);
        let d = digit_val(c);
        if d >= 10 {
            // a non-digit makes the whole input fail
            assert(!is_digit(digits[j - from]));
            return None;
        }
        proof {
            assert(s@.subrange(from as int, j + 1).drop_last() =~= s@.subrange(
                from as int,
                j as int,
            ));
        }
        acc = acc * 10 + d as u64;
        if acc > 2147483648 {
            // the digits read so far already put the value outside i32
            proof {
                if all_digits(digits) {
                    assert(digits.subrange(0, j + 1 - from) =~= s@.subrange(from as int, j + 1));
                    lemma_digits_val_prefix(digits, j + 1 - from);
                    assert(s@.subrange(from as int, j + 1).last() == s@[j as int]);
                    assert(digits_val(s@.subrange(from as int, j + 1)) == digits_val(
                        s@.subrange(from as int, j as int),
                    ) * 10 + digit_of(s@[j as int]));
                    assert(digits_val(digits) >= acc);
                    assert(parse_i32_spec(s@) is None);
                } else {
                    assert(parse_i32_spec(s@) is None);
                }
            }
            return None;
        }
        j += 1;
    }
    proof {
        assert(digits =~= s@.subrange(from as int, n as int));
        assert forall|i: int| 0 <= i < digits.len() implies is_digit(#[trigger] digits[i]) by {
            assert(digits[i] == s@[from + i]);
        }
        assert(all_digits(digits));
    }
    if negative {
        let v = -(acc as i64);
        Some(v as i32)
    } else {
        if acc > 2147483647 {
            return None;
        }
        Some(acc as i32)
    }
}

/// The decimal digits of a value parse back to that value; they are digits
/// only, at least one of them, and start with no sign character.
pub proof fn lemma_dec_digits_val(n: nat)
    ensures
        digits_val(dec_digits(n)) == n,
        all_digits(dec_digits(n)),
        dec_digits(n).len() >= 1,
        dec_digits(n)[0] != '-' && dec_digits(n)[0] != '+',
    decreases n,
{
    if n < 10 {
        let s = dec_digits(n);
        assert(s.drop_last() =~= Seq::<char>::empty());
        assert(digits_val(Seq::<char>::empty()) == 0);
        assert(s.last() == digit_char(n));
        assert(digits_val(s) == digit_of(digit_char(n)));
    } else {
        lemma_dec_digits_val(n / 10);
        let s = dec_digits(n);
        assert(s.drop_last() =~= dec_digits(n / 10));
        assert(digits_val(s) == digits_val(dec_digits(n / 10)) * 10 + digit_of(
            digit_char(n % 10),
        ));
        assert(n == (n / 10) * 10 + n % 10) by (nonlinear_arith);
        assert forall|i: int| 0 <= i < s.len() implies is_digit(#[trigger] s[i]) by {
            if i < s.len() - 1 {
                assert(s[i] == dec_digits(n / 10)[i]);
            }
        }
    }
}

/// Parsing inverts printing: the decimal text of any 32-bit value is
/// accepted and denotes that value.
pub proof fn lemma_parse_int_text(n: i32)
    ensures
        parse_i32_spec(int_text(n as int)) == Some(n),
{
    if n >= 0 {
        lemma_dec_digits_val(n as nat);
        let s = int_text(n as int);
        assert(digits_part(s) =~= s);
        assert(denoted_val(s) == n as int);
    } else {
        let m = (-(n as int)) as nat;
        lemma_dec_digits_val(m);
        let s = int_text(n as int);
        assert(s[0] == '-');
        assert(s.subrange(1, s.len() as int) =~= dec_digits(m));
    }
}

} // verus!
