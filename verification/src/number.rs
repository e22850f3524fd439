//! Numbers as text: how they are written, and which texts are read as one.

use vstd::prelude::*;

use crate::text::toChars;

verus! {

/// The character of a decimal digit.
pub open spec fn digit_char(d: nat) -> char {
    (48 + d) as char
}

/// Whether `c` is a decimal digit.
pub open spec fn is_digit(c: char) -> bool {
    '0' <= c <= '9'
}

/// The number that a run of digits stands for.
pub open spec fn digits_value(s: Seq<char>) -> nat
    decreases s.len(),
{
    if s.len() == 0 {
        0
    } else {
        digits_value(s.drop_last()) * 10 + (s.last() as nat - 48) as nat
    }
}

/// A number in decimal digits, without leading zeros.
pub open spec fn digits(n: nat) -> Seq<char>
    decreases n,
{
    if n < 10 {
        seq![digit_char(n)]
    } else {
        digits(n / 10).push(digit_char(n % 10))
    }
}

/// A whole number in decimal digits, a minus sign before it where it is negative.
pub open spec fn signed_digits(n: int) -> Seq<char> {
    if n < 0 {
        seq!['-'] + digits((-n) as nat)
    } else {
        digits(n as nat)
    }
}

/// Whether a text is a run of at least one digit.
pub open spec fn is_digits(s: Seq<char>) -> bool {
    s.len() > 0 && forall|i: int| 0 <= i < s.len() ==> is_digit(#[trigger] s[i])
}

/// A text without the sign `sign` at its front.
pub open spec fn unsigned_part(s: Seq<char>, sign: char) -> Seq<char> {
    if s.len() > 0 && s[0] == sign {
        s.drop_first()
    } else {
        s
    }
}

/// The number up to `max` that a text is read as: digits, perhaps behind a plus sign.
pub open spec fn read_nat(s: Seq<char>, max: nat) -> Option<nat> {
    let rest = unsigned_part(s, '+');
    if is_digits(rest) && digits_value(rest) <= max {
        Some(digits_value(rest))
    } else {
        None
    }
}

/// The 32-bit number that a text is read as: digits, perhaps behind a sign.
pub open spec fn read_i32(s: Seq<char>) -> Option<int> {
    if s.len() > 0 && s[0] == '-' {
        match read_digits(s.drop_first(), 0x8000_0000) {
            Some(n) => Some(-(n as int)),
            None => None,
        }
    } else {
        match read_digits(unsigned_part(s, '+'), 0x7fff_ffff) {
            Some(n) => Some(n as int),
            None => None,
        }
    }
}

/// The number up to `max` that a run of digits stands for.
pub open spec fn read_digits(s: Seq<char>, max: nat) -> Option<nat> {
    if is_digits(s) && digits_value(s) <= max {
        Some(digits_value(s))
    } else {
        None
    }
}

fn digitChar(d: u64) -> (c: char)
    requires
        d < 10,
    ensures
        c == digit_char(d as nat),
{
    match d {
        0 => '0',
        1 => '1',
        2 => '2',
        3 => '3',
        4 => '4',
        5 => '5',
        6 => '6',
        7 => '7',
        8 => '8',
        _ => '9',
    }
}

/// `n` in decimal digits.
pub fn decimal(n: u64) -> (r: String)
    ensures
        r@ == digits(n as nat),
    decreases n,
{
    if n < 10 {
        let mut text = String::new();
        text.push(digitChar(n));
        assert(text@ == digits(n as nat));
        text
    } else {
        let mut text = decimal(n / 10);
        text.push(digitChar(n % 10));
        text
    }
}

/// `n` in decimal digits, a minus sign before it where it is negative.
pub fn decimalSigned(n: i32) -> (r: String)
    ensures
        r@ == signed_digits(n as int),
{
    if n < 0 {
        let size: u64 = (-(n as i64)) as u64;
        let mut text = String::new();
        text.push('-');
        let rest = decimal(size);
        text.append(rest.as_str());
        assert(text@ == signed_digits(n as int));
        text
    } else {
        decimal(n as u64)
    }
}

proof fn lemma_digits_value_grows(s: Seq<char>, i: int)
    requires
        0 <= i <= s.len(),
        is_digits(s),
    ensures
        digits_value(s.take(i)) <= digits_value(s),
    decreases s.len() - i,
{
    if i < s.len() {
        lemma_digits_value_grows(s, i + 1);
        assert(s.take(i + 1).drop_last() == s.take(i));
    } else {
        assert(s.take(i) == s);
    }
}

fn readDigits(chars: &Vec<char>, from: usize, max: u64) -> (r: Option<u64>)
    requires
        from <= chars@.len(),
    ensures
        match r {
            Some(n) => read_digits(chars@.skip(from as int), max as nat) == Some(n as nat),
            None => read_digits(chars@.skip(from as int), max as nat) is None,
        },
{
    let ghost s = chars@.skip(from as int);
    if from == chars.len() {
        return None;
    }
    let mut n: u64 = 0;
    let mut i: usize = from;
    while i < chars.len()
        invariant
            from <= i <= chars@.len(),
            from < chars@.len(),
            s == chars@.skip(from as int),
            n == digits_value(s.take(i - from)),
            n <= max,
            forall|j: int| 0 <= j < i - from ==> is_digit(#[trigger] s[j]),
        decreases chars@.len() - i,
    {
        let c = chars[i];
        assert(s[i - from] == c);
        if c < '0' || c > '9' {
            assert(!is_digit(s[i - from]));
            return None;
        }
        let d: u64 = (c as u32 - 48) as u64;
        assert(s.take(i - from + 1).drop_last() == s.take(i - from));
        let next: u128 = n as u128 * 10 + d as u128;
        if next > max as u128 {
            proof {
                if is_digits(s) {
                    lemma_digits_value_grows(s, i - from + 1);
                }
            }
            return None;
        }
        n = next as u64;
        i += 1;
    }
    assert(s.take(s.len() as int) == s);
    Some(n)
}

/// Reads a number up to `max` from `s`.
pub fn readNat(s: &str, max: u64) -> (r: Option<u64>)
    ensures
        match r {
            Some(n) => read_nat(s@, max as nat) == Some(n as nat),
            None => read_nat(s@, max as nat) is None,
        },
{
    let chars = toChars(s);
    let from: usize = if chars.len() > 0 && chars[0] == '+' { 1 } else { 0 };
    assert(s@.skip(1) == s@.drop_first() || s@.len() == 0);
    assert(s@.skip(0) == s@);
    readDigits(&chars, from, max)
}

/// Reads a 32-bit number from `s`.
pub fn readI32(s: &str) -> (r: Option<i32>)
    ensures
        match r {
            Some(n) => read_i32(s@) == Some(n as int),
            None => read_i32(s@) is None,
        },
{
    let chars = toChars(s);
    assert(s@.skip(1) == s@.drop_first() || s@.len() == 0);
    assert(s@.skip(0) == s@);
    if chars.len() > 0 && chars[0] == '-' {
        match readDigits(&chars, 1, 0x8000_0000) {
            Some(n) => Some((-(n as i64)) as i32),
            None => None,
        }
    } else {
        let from: usize = if chars.len() > 0 && chars[0] == '+' { 1 } else { 0 };
        match readDigits(&chars, from, 0x7fff_ffff) {
            Some(n) => Some(n as i32),
            None => None,
        }
    }
}

proof fn lemma_digits(n: nat)
    ensures
        is_digits(digits(n)),
        digits_value(digits(n)) == n,
    decreases n,
{
    if n < 10 {
        reveal_with_fuel(digits_value, 2);
        assert(digits(n).drop_last() == Seq::<char>::empty());
        assert(digits(n).last() == digit_char(n));
    } else {
        lemma_digits(n / 10);
        assert(digits(n).drop_last() == digits(n / 10));
        assert(digits(n).last() == digit_char(n % 10));
    }
}

/// A number that was written is read back as itself.
pub proof fn law_read_back(n: nat, max: nat)
    requires
        n <= max,
    ensures
        read_nat(digits(n), max) == Some(n),
{
    lemma_digits(n);
    assert(is_digit(digits(n)[0]));
}

/// A 32-bit number that was written is read back as itself.
pub proof fn law_read_back_signed(n: int)
    requires
        i32::MIN <= n <= i32::MAX,
    ensures
        read_i32(signed_digits(n)) == Some(n),
{
    if n < 0 {
        lemma_digits((-n) as nat);
        assert(signed_digits(n).drop_first() == digits((-n) as nat));
    } else {
        lemma_digits(n as nat);
        assert(is_digit(digits(n as nat)[0]));
    }
}

/// Numbers that are written alike are equal.
pub proof fn law_digits_injective(a: nat, b: nat)
    requires
        digits(a) == digits(b),
    ensures
        a == b,
{
    lemma_digits(a);
    lemma_digits(b);
}

/// What is read as a number is a run of digits, behind a plus sign or not, and it is not above what
/// is allowed; a number that is too large is not read at all.
pub proof fn law_read_nat(s: Seq<char>, max: nat)
    ensures
        read_nat(s, max) matches Some(n) ==> n <= max,
        read_nat(s, max) is Some ==> s.len() > 0 && (s[0] == '+' || is_digit(s[0])) && forall|i: int|
            1 <= i < s.len() ==> is_digit(#[trigger] s[i]),
        s.len() == 0 ==> read_nat(s, max) is None,
{
    if read_nat(s, max) is Some {
        let rest = unsigned_part(s, '+');
        if s[0] == '+' {
            assert forall|i: int| 1 <= i < s.len() implies is_digit(#[trigger] s[i]) by {
                assert(rest[i - 1] == s[i]);
            }
        }
    }
}

/// A number that was written is read behind a plus sign too; one that is above what is allowed is
/// not.
pub proof fn law_read_signs(n: nat, max: nat)
    ensures
        n <= max ==> read_nat(seq!['+'] + digits(n), max) == Some(n),
        n > max ==> read_nat(digits(n), max) is None,
{
    lemma_digits(n);
    assert(is_digit(digits(n)[0]));
    assert((seq!['+'] + digits(n)).drop_first() == digits(n));
}

} // verus!
