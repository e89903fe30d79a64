//! Whole numbers in decimal notation.

use vstd::prelude::*;
use crate::text::{is_white_space, to_chars};

verus! {

/// The character of a decimal digit.
pub open spec fn digit(d: int) -> char {
    ('0' as int + d) as char
}

/// `c` is an ASCII digit.
pub open spec fn is_digit(c: char) -> bool {
    '0' <= c <= '9'
}

/// The decimal notation of `n`, without leading zeros.
pub open spec fn decimal(n: nat) -> Seq<char>
    decreases n,
{
    if n < 10 {
        seq![digit(n as int)]
    } else {
        decimal(n / 10).push(digit((n % 10) as int))
    }
}

/// The decimal notation of an integer, with a minus sign where it is negative.
pub open spec fn signed_decimal(n: int) -> Seq<char> {
    if n < 0 {
        seq!['-'] + decimal((-n) as nat)
    } else {
        decimal(n as nat)
    }
}

/// All characters are digits.
pub open spec fn all_digits(s: Seq<char>) -> bool {
    forall|i: int| 0 <= i < s.len() ==> is_digit(#[trigger] s[i])
}

/// The value of a row of digits.
pub open spec fn digits_value(s: Seq<char>) -> nat
    decreases s.len(),
{
    if s.len() == 0 {
        0
    } else {
        10 * digits_value(s.drop_last()) + (s.last() as int - '0' as int) as nat
    }
}

/// The row of digits behind an optional sign.
pub open spec fn unsigned_part(s: Seq<char>) -> Seq<char> {
    if s.len() > 0 && (s[0] == '+' || s[0] == '-') {
        s.drop_first()
    } else {
        s
    }
}

/// The integer that a sign and a row of digits stand for.
pub open spec fn signed_value(s: Seq<char>) -> int {
    let v = digits_value(unsigned_part(s)) as int;
    if s.len() > 0 && s[0] == '-' {
        -v
    } else {
        v
    }
}

/// What a text reads as: an optional sign and at least one digit, of an
/// integer that an `i32` holds.
pub open spec fn read_i32(s: Seq<char>) -> Option<i32> {
    if unsigned_part(s).len() > 0 && all_digits(unsigned_part(s)) && i32::MIN <= signed_value(s)
        <= i32::MAX {
        Some(signed_value(s) as i32)
    } else {
        None
    }
}

/// Appends the decimal notation of `n`.
fn push_decimal(out: &mut String, n: u32)
    ensures
        final(out)@ == old(out)@ + decimal(n as nat),
    decreases n,
{
    let ghost before = out@;
    if n >= 10 {
        push_decimal(out, n / 10);
    }
    let d: u8 = (n % 10) as u8;
    let c: char = (48 + d) as char;
    assert(c == digit((n % 10) as int));
    out.push(c);
    assert(out@ == before + decimal(n as nat));
}

/// The decimal notation of a `u32`.
pub fn u32_text(n: u32) -> (r: String)
    ensures
        r@ == decimal(n as nat),
{
    let mut out: String = String::new();
    push_decimal(&mut out, n);
    assert(out@ == decimal(n as nat));
    out
}

/// The decimal notation of an `i32`.
pub fn i32_text(n: i32) -> (r: String)
    ensures
        r@ == signed_decimal(n as int),
{
    let mut out: String = String::new();
    if n < 0 {
        out.push('-');
        let m: u32 = (-(n as i64)) as u32;
        push_decimal(&mut out, m);
        assert(out@ == seq!['-'] + decimal(m as nat));
    } else {
        push_decimal(&mut out, n as u32);
        assert(out@ == decimal(n as nat));
    }
    out
}

proof fn lemma_value_grows(s: Seq<char>, i: int)
    requires
        0 <= i <= s.len(),
    ensures
        digits_value(s.take(i)) <= digits_value(s),
    decreases s.len(),
{
    if i == s.len() {
        assert(s.take(i) == s);
    } else {
        lemma_value_grows(s.drop_last(), i);
        assert(s.drop_last().take(i) == s.take(i));
    }
}

/// Reads an `i32`: an optional sign and at least one digit.
pub fn parse_i32(s: &str) -> (r: Option<i32>)
    ensures
        r == read_i32(s@),
{
    let v: Vec<char> = to_chars(s);
    let negative: bool = v.len() > 0 && v[0] == '-';
    let start: usize = if v.len() > 0 && (v[0] == '+' || v[0] == '-') {
        1
    } else {
        0
    };
    let ghost body = unsigned_part(s@);
    assert(body == v@.skip(start as int));
    if start == v.len() {
        return None;
    }
    let mut acc: i64 = 0;
    let mut i: usize = start;
    assert(body.take(0).len() == 0);
    while i < v.len()
        invariant
            start <= i <= v.len(),
            start <= 1,
            v@ == s@,
            body == v@.skip(start as int),
            body == unsigned_part(s@),
            forall|j: int| 0 <= j < i - start ==> is_digit(#[trigger] body[j]),
            acc == digits_value(body.take(i - start)),
            0 <= acc <= 0x8000_0000,
        decreases v.len() - i,
    {
        let c: char = v[i];
        assert(c == body[i - start]);
        if !('0' <= c && c <= '9') {
            assert(!is_digit(body[i - start]));
            return None;
        }
        let d: u32 = c as u32 - 48;
        assert(body.take(i - start + 1).drop_last() == body.take(i - start));
        acc = acc * 10 + d as i64;
        i += 1;
        if acc > 0x8000_0000 {
            proof {
                lemma_value_grows(body, i - start);
            }
            return None;
        }
    }
    assert(body.take(i - start) == body);
    if negative {
        Some((-acc) as i32)
    } else if acc <= 0x7fff_ffff {
        Some(acc as i32)
    } else {
        None
    }
}

/// The decimal notation of a number is a row of digits with that value.
pub proof fn lemma_decimal(n: nat)
    ensures
        decimal(n).len() > 0,
        all_digits(decimal(n)),
        digits_value(decimal(n)) == n,
    decreases n,
{
    if n < 10 {
        reveal_with_fuel(digits_value, 2);
    } else {
        lemma_decimal(n / 10);
        assert(decimal(n).drop_last() == decimal(n / 10));
    }
}

/// The decimal notation of an `i32` reads back as that `i32`.
pub proof fn law_i32_reads_back(n: i32)
    ensures
        read_i32(signed_decimal(n as int)) == Some(n),
{
    let s = signed_decimal(n as int);
    if n < 0 {
        lemma_decimal((-n) as nat);
        assert(unsigned_part(s) == decimal((-n) as nat));
    } else {
        lemma_decimal(n as nat);
        assert(is_digit(s[0]));
    }
}

/// Decimal notation holds neither white space nor a line feed.
pub proof fn lemma_decimal_plain(n: int, i: int)
    requires
        0 <= i < signed_decimal(n).len(),
    ensures
        !is_white_space(signed_decimal(n)[i]),
        signed_decimal(n)[i] != '\n',
{
    let s = signed_decimal(n);
    if n < 0 {
        lemma_decimal((-n) as nat);
        if i > 0 {
            assert(s[i] == decimal((-n) as nat)[i - 1]);
        }
    } else {
        lemma_decimal(n as nat);
    }
}

/// Decimal notation: the ten digits for the numbers below ten; beyond them no
/// leading zero, and the last digit tells the number modulo ten.
pub proof fn law_decimal_notation(n: nat)
    ensures
        n < 10 ==> decimal(n) == seq![
            seq!['0', '1', '2', '3', '4', '5', '6', '7', '8', '9'][n as int],
        ],
        n >= 10 ==> decimal(n).len() > 1 && decimal(n)[0] != '0',
        n >= 10 ==> decimal(n) == decimal(n / 10) + decimal(n % 10),
    decreases n,
{
    if n >= 10 {
        law_decimal_notation(n / 10);
        lemma_decimal(n / 10);
        assert(decimal(n)[0] == decimal(n / 10)[0]);
        assert(decimal(n) == decimal(n / 10) + decimal(n % 10));
    }
}

/// Different numbers have different notations, and a negative one begins with
/// a minus sign.
pub proof fn law_notations_differ(a: int, b: int)
    ensures
        a != b ==> signed_decimal(a) != signed_decimal(b),
        signed_decimal(a)[0] == '-' <==> a < 0,
        a < 0 ==> signed_decimal(a) == seq!['-'] + signed_decimal(-a),
{
    let x = signed_decimal(a);
    let y = signed_decimal(b);
    lemma_decimal(if a < 0 {
        (-a) as nat
    } else {
        a as nat
    });
    lemma_decimal(if b < 0 {
        (-b) as nat
    } else {
        b as nat
    });
    if a >= 0 {
        assert(is_digit(x[0]));
    } else {
        assert(x.drop_first() == decimal((-a) as nat));
    }
    if b >= 0 {
        assert(is_digit(y[0]));
    } else {
        assert(y.drop_first() == decimal((-b) as nat));
    }
}

/// What reads as an integer: a row of digits, with one sign before it or none.
/// A minus sign turns the integer round, a plus sign does not.
pub proof fn law_read_signs(n: int)
    requires
        0 <= n <= i32::MAX,
    ensures
        read_i32(decimal(n as nat)) == Some(n as i32),
        read_i32(seq!['+'] + decimal(n as nat)) == Some(n as i32),
        read_i32(seq!['-'] + decimal(n as nat)) == Some((-n) as i32),
        read_i32(seq!['-', '-'] + decimal(n as nat)) is None,
        read_i32(Seq::empty()) is None,
        read_i32(seq!['-']) is None,
        read_i32(seq!['+']) is None,
{
    let d = decimal(n as nat);
    lemma_decimal(n as nat);
    assert(is_digit(d[0]));
    assert((seq!['+'] + d).drop_first() == d);
    assert((seq!['-'] + d).drop_first() == d);
    let twice = seq!['-', '-'] + d;
    assert(twice.drop_first()[0] == '-');
    assert(!is_digit(twice.drop_first()[0]));
    assert(seq!['-'].drop_first().len() == 0);
    assert(seq!['+'].drop_first().len() == 0);
}

/// A character that is neither a digit nor a sign at the front keeps a text
/// from reading as an integer.
pub proof fn law_read_needs_digits(s: Seq<char>, i: int)
    requires
        0 <= i < s.len(),
        !('0' <= s[i] <= '9'),
        i > 0 || (s[i] != '+' && s[i] != '-'),
    ensures
        read_i32(s) is None,
{
    let body = unsigned_part(s);
    if s[0] == '+' || s[0] == '-' {
        assert(body[i - 1] == s[i]);
    } else {
        assert(body[i] == s[i]);
    }
}

} // verus!
