//! Numbers as text: decimal and hexadecimal, both ways.
use crate::text::{
    all_white, chars_of, is_digit, is_white, law_trimmed_padded, trimmed, trimmed_end,
};
use vstd::prelude::*;

verus! {

// ---------------------------------------------------------------------------
// Decimal to number
// ---------------------------------------------------------------------------

pub open spec fn all_digits(s: Seq<char>) -> bool {
    forall|i: int| 0 <= i < s.len() ==> is_digit(#[trigger] s[i])
}

/// The number that a row of decimal digits stands for.
pub open spec fn digits_value(s: Seq<char>) -> nat
    decreases s.len(),
{
    if s.len() == 0 {
        0
    } else {
        digits_value(s.drop_last()) * 10 + ((s.last() as nat - '0' as nat) as nat)
    }
}

/// The number that a text stands for: decimal digits, at least one, behind a
/// plus sign or none.
pub open spec fn number_of(s: Seq<char>) -> Option<nat> {
    let d = if s.len() > 0 && s[0] == '+' {
        s.skip(1)
    } else {
        s
    };
    if d.len() > 0 && all_digits(d) {
        Some(digits_value(d))
    } else {
        None
    }
}

/// The number of a text if it is at most `max`.
pub open spec fn number_up_to(s: Seq<char>, max: nat) -> Option<nat> {
    match number_of(s) {
        Some(n) => if n <= max {
            Some(n)
        } else {
            None
        },
        None => None,
    }
}

/// The `u32` of a text.
pub open spec fn u32_of(s: Seq<char>) -> Option<u32> {
    match number_up_to(s, u32::MAX as nat) {
        Some(n) => Some(n as u32),
        None => None,
    }
}

/// The `u8` of a text.
pub open spec fn u8_of(s: Seq<char>) -> Option<u8> {
    match number_up_to(s, u8::MAX as nat) {
        Some(n) => Some(n as u8),
        None => None,
    }
}

/// The `u16` of a text.
pub open spec fn u16_of(s: Seq<char>) -> Option<u16> {
    match number_up_to(s, u16::MAX as nat) {
        Some(n) => Some(n as u16),
        None => None,
    }
}

/// The `i64` of a text: as for an unsigned number, or a minus sign and digits.
pub open spec fn i64_of(s: Seq<char>) -> Option<i64> {
    if s.len() > 0 && s[0] == '-' {
        let d = s.skip(1);
        if d.len() > 0 && all_digits(d) && digits_value(d) <= 0x8000_0000_0000_0000 {
            Some((0 - digits_value(d)) as i64)
        } else {
            None
        }
    } else {
        match number_up_to(s, i64::MAX as nat) {
            Some(n) => Some(n as i64),
            None => None,
        }
    }
}

/// The `i32` of a text: as for an unsigned number, or a minus sign and digits.
pub open spec fn i32_of(s: Seq<char>) -> Option<i32> {
    if s.len() > 0 && s[0] == '-' {
        let d = s.skip(1);
        if d.len() > 0 && all_digits(d) && digits_value(d) <= 0x8000_0000 {
            Some((0 - digits_value(d)) as i32)
        } else {
            None
        }
    } else {
        match number_up_to(s, i32::MAX as nat) {
            Some(n) => Some(n as i32),
            None => None,
        }
    }
}

/// The value of the digits `v[from..]`, if they are digits, at least one, and
/// their value is at most `max`.
fn digits_up_to(v: &Vec<char>, from: usize, max: u64) -> (r: Option<u64>)
    requires
        from <= v@.len(),
    ensures
        ({
            let d = v@.skip(from as int);
            match r {
                Some(n) => d.len() > 0 && all_digits(d) && digits_value(d) == n && n <= max,
                None => d.len() == 0 || !all_digits(d) || digits_value(d) > max,
            }
        }),
{
    let ghost d = v@.skip(from as int);
    if from == v.len() {
        return None;
    }
    let mut value: u64 = 0;
    let mut over: bool = false;
    let mut i: usize = from;
    assert(d.take(0) =~= Seq::<char>::empty());
    while i < v.len()
        invariant
            from <= i <= v@.len(),
            d == v@.skip(from as int),
            forall|j: int| 0 <= j < i - from ==> is_digit(#[trigger] d[j]),
            !over ==> value == digits_value(d.take(i - from)) && value <= max,
            over ==> digits_value(d.take(i - from)) > max,
        decreases v@.len() - i,
    {
        let c: char = v[i];
        assert(d[i - from] == c);
        if !(c >= '0' && c <= '9') {
            assert(!is_digit(d[i - from]));
            return None;
        }
        let digit: u64 = (c as u32 - '0' as u32) as u64;
        assert(d.take(i - from + 1).drop_last() =~= d.take(i - from));
        assert(d.take(i - from + 1).last() == c);
        assert(digits_value(d.take(i - from + 1)) == digits_value(d.take(i - from)) * 10 + digit);
        if !over {
            let next: u128 = value as u128 * 10 + digit as u128;
            if next > max as u128 {
                over = true;
            } else {
                value = next as u64;
            }
        }
        i = i + 1;
    }
    assert(d.take(d.len() as int) =~= d);
    if over {
        None
    } else {
        Some(value)
    }
}

/// The number of `s`, if it is at most `max`.
pub fn parse_up_to(s: &str, max: u64) -> (r: Option<u64>)
    ensures
        match r {
            Some(n) => number_up_to(s@, max as nat) == Some(n as nat),
            None => number_up_to(s@, max as nat) is None,
        },
{
    let v: Vec<char> = chars_of(s);
    if v.len() > 0 && v[0] == '+' {
        digits_up_to(&v, 1, max)
    } else {
        assert(v@.skip(0) =~= v@);
        digits_up_to(&v, 0, max)
    }
}

pub fn parse_u32(s: &str) -> (r: Option<u32>)
    ensures
        r == u32_of(s@),
{
    match parse_up_to(s, u32::MAX as u64) {
        Some(n) => Some(n as u32),
        None => None,
    }
}

pub fn parse_u8(s: &str) -> (r: Option<u8>)
    ensures
        r == u8_of(s@),
{
    match parse_up_to(s, u8::MAX as u64) {
        Some(n) => Some(n as u8),
        None => None,
    }
}

pub fn parse_u16(s: &str) -> (r: Option<u16>)
    ensures
        r == u16_of(s@),
{
    match parse_up_to(s, u16::MAX as u64) {
        Some(n) => Some(n as u16),
        None => None,
    }
}

pub fn parse_i32(s: &str) -> (r: Option<i32>)
    ensures
        r == i32_of(s@),
{
    let v: Vec<char> = chars_of(s);
    if v.len() > 0 && v[0] == '-' {
        match digits_up_to(&v, 1, 0x8000_0000) {
            Some(n) => Some((0 - n as i64) as i32),
            None => None,
        }
    } else {
        match parse_up_to(s, i32::MAX as u64) {
            Some(n) => Some(n as i32),
            None => None,
        }
    }
}

// ---------------------------------------------------------------------------
// Number to decimal
// ---------------------------------------------------------------------------

pub open spec fn digit_char(n: nat) -> char {
    ('0' as nat + n) as char
}

/// The decimal digits of a number, without leading zeros.
pub open spec fn decimal(n: nat) -> Seq<char>
    decreases n,
{
    if n < 10 {
        seq![digit_char(n)]
    } else {
        decimal(n / 10).push(digit_char(n % 10))
    }
}

/// Reading the decimal digits of a number gives the number.
pub proof fn lemma_decimal(n: nat)
    ensures
        decimal(n).len() > 0,
        all_digits(decimal(n)),
        digits_value(decimal(n)) == n,
        number_of(decimal(n)) == Some(n),
    decreases n,
{
    if n < 10 {
        assert(decimal(n).drop_last() =~= Seq::<char>::empty());
        assert(decimal(n).last() == digit_char(n));
        assert(digits_value(Seq::<char>::empty()) == 0);
    } else {
        lemma_decimal(n / 10);
        let d = decimal(n / 10);
        assert(decimal(n) == d.push(digit_char(n % 10)));
        assert(decimal(n).drop_last() =~= d);
        assert(decimal(n).last() == digit_char(n % 10));
        assert(digits_value(decimal(n)) == (n / 10) * 10 + n % 10);
        assert forall|i: int| 0 <= i < decimal(n).len() implies is_digit(
            #[trigger] decimal(n)[i],
        ) by {
            if i < d.len() {
                assert(is_digit(d[i]));
            }
        }
    }
    assert(is_digit(decimal(n)[0]));
}

/// Appends the decimal digits of `n`.
fn push_decimal(out: &mut String, n: u64)
    ensures
        final(out)@ == old(out)@ + decimal(n as nat),
    decreases n,
{
    if n < 10 {
        out.push((48 + n as u8) as char);
    } else {
        push_decimal(out, n / 10);
        out.push((48 + (n % 10) as u8) as char);
    }
}

/// The decimal digits of `n`.
pub fn to_decimal(n: u64) -> (r: String)
    ensures
        r@ == decimal(n as nat),
{
    let mut s: String = String::new();
    push_decimal(&mut s, n);
    s
}

/// The decimal text of a signed number.
pub open spec fn signed_decimal(n: int) -> Seq<char> {
    if n < 0 {
        seq!['-'] + decimal((0 - n) as nat)
    } else {
        decimal(n as nat)
    }
}

/// The decimal text of `n`.
pub fn to_signed_decimal(n: i64) -> (r: String)
    ensures
        r@ == signed_decimal(n as int),
{
    let mut s: String = String::new();
    if n < 0 {
        s.push('-');
        let m: u64 = (0 - n as i128) as u64;
        push_decimal(&mut s, m);
        assert(s@ =~= seq!['-'] + decimal((0 - n) as nat));
    } else {
        push_decimal(&mut s, n as u64);
    }
    s
}

// ---------------------------------------------------------------------------
// Hexadecimal
// ---------------------------------------------------------------------------

pub open spec fn hex_char(n: nat) -> char {
    if n < 10 {
        ('0' as nat + n) as char
    } else {
        ('a' as nat + n - 10) as char
    }
}

/// The lower case hexadecimal digits of a number, without leading zeros.
pub open spec fn hexadecimal(n: nat) -> Seq<char>
    decreases n,
{
    if n < 16 {
        seq![hex_char(n)]
    } else {
        hexadecimal(n / 16).push(hex_char(n % 16))
    }
}

/// The same, with a leading zero where there would be only one digit.
pub open spec fn hexadecimal_2(n: nat) -> Seq<char> {
    if n < 16 {
        seq!['0', hex_char(n)]
    } else {
        hexadecimal(n)
    }
}

/// A number of one byte has two hexadecimal digits.
pub proof fn lemma_hexadecimal_pair(n: nat)
    requires
        n < 256,
    ensures
        hexadecimal_2(n) == seq![hex_char(n / 16), hex_char(n % 16)],
{
    if n >= 16 {
        assert(hexadecimal(n / 16) == seq![hex_char(n / 16)]);
        assert(hexadecimal(n) =~= seq![hex_char(n / 16), hex_char(n % 16)]);
    } else {
        assert(n / 16 == 0 && n % 16 == n);
        assert(hexadecimal_2(n) =~= seq![hex_char(n / 16), hex_char(n % 16)]);
    }
}

fn one_hex(n: u32) -> (r: char)
    requires
        n < 16,
    ensures
        r == hex_char(n as nat),
{
    if n < 10 {
        (48 + n as u8) as char
    } else {
        (97 + (n - 10) as u8) as char
    }
}

fn push_hexadecimal(out: &mut String, n: u32)
    ensures
        final(out)@ == old(out)@ + hexadecimal(n as nat),
    decreases n,
{
    if n < 16 {
        out.push(one_hex(n));
    } else {
        push_hexadecimal(out, n / 16);
        out.push(one_hex(n % 16));
    }
}

/// Appends `n` in hexadecimal, with at least two digits.
pub fn push_hexadecimal_2(out: &mut String, n: u32)
    ensures
        final(out)@ == old(out)@ + hexadecimal_2(n as nat),
{
    if n < 16 {
        out.push('0');
        out.push(one_hex(n));
        assert(out@ =~= old(out)@ + hexadecimal_2(n as nat));
    } else {
        push_hexadecimal(out, n);
    }
}

// ---------------------------------------------------------------------------
// Laws
// ---------------------------------------------------------------------------

/// Every number that fits is read back from its decimal text, and none that
/// does not fit is read.
pub proof fn law_unsigned_reads_back(n: nat)
    ensures
        u32_of(decimal(n)) == (if n <= u32::MAX {
            Some(n as u32)
        } else {
            None
        }),
        u16_of(decimal(n)) == (if n <= u16::MAX {
            Some(n as u16)
        } else {
            None
        }),
        u8_of(decimal(n)) == (if n <= u8::MAX {
            Some(n as u8)
        } else {
            None
        }),
{
    lemma_decimal(n);
}

/// Every signed number that fits is read back from its decimal text, and none
/// that does not fit is read.
pub proof fn law_signed_reads_back(n: int)
    ensures
        i64_of(signed_decimal(n)) == (if i64::MIN <= n <= i64::MAX {
            Some(n as i64)
        } else {
            None
        }),
        i32_of(signed_decimal(n)) == (if i32::MIN <= n <= i32::MAX {
            Some(n as i32)
        } else {
            None
        }),
{
    if n < 0 {
        let d = decimal((0 - n) as nat);
        lemma_decimal((0 - n) as nat);
        assert(signed_decimal(n)[0] == '-');
        assert(signed_decimal(n).skip(1) =~= d);
    } else {
        lemma_decimal(n as nat);
        assert(is_digit(decimal(n as nat)[0]));
    }
}

/// A plus sign and leading zeros do not change a number.
pub proof fn law_plus_and_zeros(d: Seq<char>)
    requires
        d.len() > 0,
        all_digits(d),
    ensures
        number_of(seq!['+'] + d) == number_of(d),
        number_of(seq!['0'] + d) == number_of(d),
        number_of(d) is Some,
{
    assert(is_digit(d[0]));
    assert((seq!['+'] + d).skip(1) =~= d);
    let z = seq!['0'] + d;
    assert forall|i: int| 0 <= i < z.len() implies is_digit(#[trigger] z[i]) by {
        if i > 0 {
            assert(z[i] == d[i - 1]);
        }
    }
    lemma_leading_zero(d);
}

proof fn lemma_leading_zero(d: Seq<char>)
    ensures
        digits_value(seq!['0'] + d) == digits_value(d),
    decreases d.len(),
{
    let z = seq!['0'] + d;
    if d.len() == 0 {
        assert(z.drop_last() =~= Seq::<char>::empty());
        assert(digits_value(z.drop_last()) == 0);
    } else {
        lemma_leading_zero(d.drop_last());
        assert(z.drop_last() =~= seq!['0'] + d.drop_last());
        assert(z.last() == d.last());
    }
}

/// Only digits, at least one, behind a plus sign or none, are a number.
pub proof fn law_only_digits_are_numbers(s: Seq<char>)
    ensures
        number_of(s) is Some ==> {
            &&& s.len() > 0
            &&& is_digit(s.last())
            &&& forall|i: int| 0 < i < s.len() ==> is_digit(#[trigger] s[i])
            &&& (is_digit(s[0]) || s[0] == '+')
        },
{
    if number_of(s) is Some {
        if s[0] == '+' {
            let d = s.skip(1);
            assert(is_digit(d[d.len() - 1]));
            assert forall|i: int| 0 < i < s.len() implies is_digit(#[trigger] s[i]) by {
                assert(d[i - 1] == s[i]);
            }
        } else {
            assert(is_digit(s[0]));
            assert(is_digit(s[s.len() - 1]));
        }
    }
}

/// The number that some hexadecimal digits in lower case stand for.
pub open spec fn hexadecimal_value(s: Seq<char>) -> nat
    decreases s.len(),
{
    if s.len() == 0 {
        0
    } else {
        let c = s.last();
        let digit = if is_digit(c) {
            c as nat - '0' as nat
        } else {
            c as nat - 'a' as nat + 10
        };
        (hexadecimal_value(s.drop_last()) * 16 + digit) as nat
    }
}

proof fn lemma_hexadecimal_value(n: nat)
    ensures
        hexadecimal_value(hexadecimal(n)) == n,
        hexadecimal(n).len() > 0,
    decreases n,
{
    let h = hexadecimal(n);
    if n < 16 {
        assert(h.drop_last() =~= Seq::<char>::empty());
        assert(h.last() == hex_char(n));
        assert(hexadecimal_value(h.drop_last()) == 0);
    } else {
        lemma_hexadecimal_value(n / 16);
        assert(h.drop_last() =~= hexadecimal(n / 16));
        assert(h.last() == hex_char(n % 16));
    }
}

/// The hexadecimal digits of a number stand for it, and there are at least two.
pub proof fn law_hexadecimal_reads_back(n: nat)
    ensures
        hexadecimal_value(hexadecimal_2(n)) == n,
        hexadecimal_2(n).len() >= 2,
{
    let h = hexadecimal_2(n);
    if n < 16 {
        assert(h.drop_last() =~= seq!['0']);
        assert(seq!['0'].drop_last() =~= Seq::<char>::empty());
        assert(hexadecimal_value(Seq::<char>::empty()) == 0);
        assert(hexadecimal_value(seq!['0']) == 0);
        assert(h.last() == hex_char(n));
    } else {
        lemma_hexadecimal_value(n);
        lemma_hexadecimal_value(n / 16);
    }
}

/// A decimal number has no white space at its ends, so that trimming gives it
/// back whatever white space stands around it.
pub proof fn law_padded_number(left: Seq<char>, n: nat, right: Seq<char>)
    requires
        all_white(left),
        all_white(right),
    ensures
        trimmed(left + decimal(n) + right) == decimal(n),
        trimmed_end(decimal(n) + right) == decimal(n),
        left.len() > 0 ==> number_of(trimmed_end(left + decimal(n) + right)) is None,
{
    let d = decimal(n);
    lemma_decimal(n);
    assert(is_digit(d[0]));
    assert(is_digit(d[d.len() - 1]));
    law_trimmed_padded(left, d, right);
    if left.len() > 0 {
        let t = left + d;
        assert(is_white(left[0]));
        assert(t[0] == left[0]);
        law_only_digits_are_numbers(t);
    }
}

} // verus!
