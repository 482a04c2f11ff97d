//! Numbers as text: decimal and hexadecimal notation, written and read.

use crate::text::characters;
use vstd::prelude::*;
use vstd::string::*;

verus! {

/// The digit for a value below sixteen.
pub open spec fn digit(value: int) -> char {
    if value <= 0 {
        '0'
    } else if value == 1 {
        '1'
    } else if value == 2 {
        '2'
    } else if value == 3 {
        '3'
    } else if value == 4 {
        '4'
    } else if value == 5 {
        '5'
    } else if value == 6 {
        '6'
    } else if value == 7 {
        '7'
    } else if value == 8 {
        '8'
    } else if value == 9 {
        '9'
    } else if value == 10 {
        'a'
    } else if value == 11 {
        'b'
    } else if value == 12 {
        'c'
    } else if value == 13 {
        'd'
    } else if value == 14 {
        'e'
    } else {
        'f'
    }
}

/// The value of a decimal or lowercase hexadecimal digit.
pub open spec fn digit_value(c: char) -> int {
    if '0' <= c <= '9' {
        c as int - '0' as int
    } else {
        c as int - 'a' as int + 10
    }
}

pub open spec fn is_decimal_digit(c: char) -> bool {
    '0' <= c <= '9'
}

/// A decimal digit or a lowercase letter from `a` to `f`.
pub open spec fn is_hex_digit(c: char) -> bool {
    '0' <= c <= '9' || 'a' <= c <= 'f'
}

fn digit_of(value: u64) -> (c: char)
    requires
        value < 16,
    ensures
        c == digit(value as int),
{
    match value {
        0 => '0',
        1 => '1',
        2 => '2',
        3 => '3',
        4 => '4',
        5 => '5',
        6 => '6',
        7 => '7',
        8 => '8',
        9 => '9',
        10 => 'a',
        11 => 'b',
        12 => 'c',
        13 => 'd',
        14 => 'e',
        _ => 'f',
    }
}

// ---------------------------------------------------------------------------
// Writing
// ---------------------------------------------------------------------------

/// A number in decimal notation, without leading zeros.
pub open spec fn decimal_text(n: nat) -> Seq<char>
    decreases n,
{
    if n < 10 {
        seq![digit(n as int)]
    } else {
        decimal_text(n / 10).push(digit((n % 10) as int))
    }
}

/// Writes a number in decimal notation.
pub fn decimal(n: u64) -> (out: String)
    ensures
        out@ == decimal_text(n as nat),
    decreases n,
{
    if n < 10 {
        let mut out: String = String::new();
        out.push(digit_of(n));
        assert(out@ =~= seq![digit(n as int)]);
        out
    } else {
        let mut out = decimal(n / 10);
        out.push(digit_of(n % 10));
        out
    }
}

/// The last `width` hexadecimal digits of a number, padded with zeros.
pub open spec fn hex_text(n: nat, width: nat) -> Seq<char>
    decreases width,
{
    if width == 0 {
        Seq::empty()
    } else {
        hex_text(n / 16, (width - 1) as nat).push(digit((n % 16) as int))
    }
}

/// Writes the last `width` hexadecimal digits of a number.
pub fn hex(n: u64, width: u8) -> (out: String)
    ensures
        out@ == hex_text(n as nat, width as nat),
    decreases width,
{
    if width == 0 {
        let out: String = String::new();
        assert(out@ =~= Seq::empty());
        out
    } else {
        let mut out = hex(n / 16, width - 1);
        out.push(digit_of(n % 16));
        out
    }
}

/// The bytes in hexadecimal notation, two digits each, with `separator` between them.
pub open spec fn hex_bytes_text(bytes: Seq<u8>, separator: Seq<char>) -> Seq<char>
    decreases bytes.len(),
{
    if bytes.len() == 0 {
        Seq::empty()
    } else if bytes.len() == 1 {
        hex_text(bytes[0] as nat, 2)
    } else {
        hex_bytes_text(bytes.drop_last(), separator) + separator + hex_text(bytes.last() as nat, 2)
    }
}

/// Writes bytes in hexadecimal notation.
pub fn hex_bytes(bytes: &[u8], separator: &str) -> (out: String)
    ensures
        out@ == hex_bytes_text(bytes@, separator@),
{
    let mut out: String = String::new();
    let mut i: usize = 0;
    assert(out@ =~= hex_bytes_text(bytes@.take(0), separator@));
    while i < bytes.len()
        invariant
            i <= bytes@.len(),
            out@ == hex_bytes_text(bytes@.take(i as int), separator@),
        decreases bytes@.len() - i,
    {
        assert(bytes@.take(i + 1).drop_last() =~= bytes@.take(i as int));
        let pair = hex(bytes[i] as u64, 2);
        if i > 0 {
            out.append(separator);
            out.append(pair.as_str());
        } else {
            out = pair;
        }
        i += 1;
    }
    assert(bytes@.take(bytes@.len() as int) =~= bytes@);
    out
}

// ---------------------------------------------------------------------------
// Reading
// ---------------------------------------------------------------------------

/// The number that digits denote in the given base.
pub open spec fn value_of(digits: Seq<char>, base: nat) -> nat
    decreases digits.len(),
{
    if digits.len() == 0 {
        0
    } else {
        (value_of(digits.drop_last(), base) * base + digit_value(digits.last())) as nat
    }
}

pub open spec fn all_decimal(text: Seq<char>) -> bool {
    forall|i: int| 0 <= i < text.len() ==> is_decimal_digit(#[trigger] text[i])
}

pub open spec fn all_hex(text: Seq<char>) -> bool {
    forall|i: int| 0 <= i < text.len() ==> is_hex_digit(#[trigger] text[i])
}

/// The number that a text denotes: digits with an optional plus sign, up to `max`.
pub open spec fn parsed(text: Seq<char>, max: nat) -> Option<nat> {
    let digits = if text.len() > 0 && text[0] == '+' {
        text.drop_first()
    } else {
        text
    };
    if digits.len() > 0 && all_decimal(digits) && value_of(digits, 10) <= max {
        Some(value_of(digits, 10))
    } else {
        None
    }
}

/// A text that begins with `digits` denotes at least as much as `digits` do.
pub proof fn lemma_value_grows(digits: Seq<char>, k: int)
    requires
        all_decimal(digits),
        0 <= k <= digits.len(),
    ensures
        value_of(digits.take(k), 10) <= value_of(digits, 10),
    decreases digits.len() - k,
{
    if k == digits.len() {
        assert(digits.take(k) =~= digits);
    } else {
        lemma_value_grows(digits, k + 1);
        assert(digits.take(k + 1).drop_last() =~= digits.take(k));
        assert(is_decimal_digit(digits[k]));
    }
}

fn digits_value(digits: &[char], start: usize, max: u64) -> (r: Option<u64>)
    requires
        start <= digits@.len(),
    ensures
        ({
            let d = digits@.skip(start as int);
            match r {
                Some(n) => all_decimal(d) && value_of(d, 10) == n && n <= max,
                None => !all_decimal(d) || value_of(d, 10) > max,
            }
        }),
{
    let ghost d = digits@.skip(start as int);
    let mut value: u64 = 0;
    let mut i: usize = start;
    assert(d.take(0) =~= Seq::empty());
    while i < digits.len()
        invariant
            start <= i <= digits@.len(),
            d == digits@.skip(start as int),
            forall|k: int| 0 <= k < i - start ==> is_decimal_digit(#[trigger] d[k]),
            value == value_of(d.take(i - start), 10),
            value <= max,
        decreases digits@.len() - i,
    {
        let c = digits[i];
        assert(c == d[i - start]);
        if !('0' <= c && c <= '9') {
            return None;
        }
        let digit: u64 = (c as u32 - '0' as u32) as u64;
        assert(d.take(i - start + 1).drop_last() =~= d.take(i - start));
        let next: u128 = value as u128 * 10 + digit as u128;
        assert(next == value_of(d.take(i - start + 1), 10));
        if next > max as u128 {
            proof {
                if all_decimal(d) {
                    lemma_value_grows(d, i - start + 1);
                }
            }
            return None;
        }
        value = next as u64;
        i += 1;
    }
    assert(d.take(d.len() as int) =~= d);
    Some(value)
}

/// Reads a number in decimal notation.
pub fn parse(text: &str, max: u64) -> (r: Option<u64>)
    ensures
        match (r, parsed(text@, max as nat)) {
            (Some(n), Some(m)) => n == m,
            (None, None) => true,
            _ => false,
        },
{
    let c = characters(text);
    let start: usize = if c.len() > 0 && c[0] == '+' {
        1
    } else {
        0
    };
    assert(c@.skip(0) =~= c@);
    assert(c@.len() > 0 ==> c@.skip(1) =~= c@.drop_first());
    if start == c.len() {
        return None;
    }
    digits_value(c.as_slice(), start, max)
}

/// The signed number that a text denotes.
pub open spec fn parsed_signed(text: Seq<char>) -> Option<int> {
    if text.len() > 0 && text[0] == '-' {
        let digits = text.drop_first();
        if digits.len() > 0 && all_decimal(digits) && value_of(digits, 10) <= 0x8000_0000 {
            Some(-(value_of(digits, 10) as int))
        } else {
            None
        }
    } else {
        match parsed(text, 0x7fff_ffff) {
            Some(n) => Some(n as int),
            None => None,
        }
    }
}

/// Reads a signed number in decimal notation.
pub fn parse_signed(text: &str) -> (r: Option<i32>)
    ensures
        match (r, parsed_signed(text@)) {
            (Some(n), Some(m)) => n == m,
            (None, None) => true,
            _ => false,
        },
{
    let c = characters(text);
    if c.len() > 0 && c[0] == '-' {
        assert(c@.skip(1) =~= c@.drop_first());
        if c.len() == 1 {
            return None;
        }
        match digits_value(c.as_slice(), 1, 0x8000_0000) {
            Some(n) => Some((-(n as i64)) as i32),
            None => None,
        }
    } else {
        match parse(text, 0x7fff_ffff) {
            Some(n) => Some(n as i32),
            None => None,
        }
    }
}

/// Reading a written number gives the number back.
pub proof fn decimal_round_trip(n: nat, max: nat)
    requires
        n <= max,
    ensures
        parsed(decimal_text(n), max) == Some(n),
{
    lemma_decimal(n);
}

/// The notation of a number is made of digits, and they denote the number.
pub proof fn lemma_decimal(n: nat)
    ensures
        decimal_text(n).len() > 0,
        all_decimal(decimal_text(n)),
        value_of(decimal_text(n), 10) == n,
    decreases n,
{
    let text = decimal_text(n);
    if n < 10 {
        assert(text.drop_last() =~= Seq::empty());
        reveal_with_fuel(value_of, 2);
    } else {
        lemma_decimal(n / 10);
        assert(text.drop_last() =~= decimal_text(n / 10));
    }
}

/// Two numbers of `width` hexadecimal digits with the same notation are equal.
pub proof fn lemma_hex_injective(a: nat, b: nat, width: nat)
    requires
        a < vstd::arithmetic::power::pow(16, width),
        b < vstd::arithmetic::power::pow(16, width),
        hex_text(a, width) == hex_text(b, width),
    ensures
        a == b,
    decreases width,
{
    if width == 0 {
        vstd::arithmetic::power::lemma_pow0(16);
    } else {
        let x = hex_text(a, width);
        let y = hex_text(b, width);
        assert(x.drop_last() =~= hex_text(a / 16, (width - 1) as nat));
        assert(y.drop_last() =~= hex_text(b / 16, (width - 1) as nat));
        assert(x.last() == y.last());
        let power = vstd::arithmetic::power::pow(16, (width - 1) as nat);
        assert(vstd::arithmetic::power::pow(16, width) == 16 * power) by {
            reveal(vstd::arithmetic::power::pow);
        }
        assert(a / 16 < power) by (nonlinear_arith)
            requires
                a < 16 * power,
        ;
        assert(b / 16 < power) by (nonlinear_arith)
            requires
                b < 16 * power,
        ;
        lemma_hex_injective(a / 16, b / 16, (width - 1) as nat);
        assert(a % 16 == b % 16);
    }
}

/// Two numbers of 64 bits with the same notation of sixteen digits are equal.
pub proof fn lemma_hex16_injective(a: u64, b: u64)
    requires
        hex_text(a as nat, 16) == hex_text(b as nat, 16),
    ensures
        a == b,
{
    assert(vstd::arithmetic::power::pow(16, 16) == 0x1_0000_0000_0000_0000) by {
        reveal_with_fuel(vstd::arithmetic::power::pow, 17);
    }
    lemma_hex_injective(a as nat, b as nat, 16);
}

/// The notation of a number has `width` digits, all of them hexadecimal.
pub proof fn lemma_hex_shape(n: nat, width: nat)
    ensures
        hex_text(n, width).len() == width,
        all_hex(hex_text(n, width)),
    decreases width,
{
    if width > 0 {
        lemma_hex_shape(n / 16, (width - 1) as nat);
    }
}

/// Hexadecimal digits denote a number below the power of sixteen of their count.
pub proof fn lemma_hex_bound(digits: Seq<char>)
    requires
        all_hex(digits),
    ensures
        value_of(digits, 16) < vstd::arithmetic::power::pow(16, digits.len()),
    decreases digits.len(),
{
    reveal(vstd::arithmetic::power::pow);
    if digits.len() > 0 {
        lemma_hex_bound(digits.drop_last());
        assert(is_hex_digit(digits.last()));
    }
}

/// Reads sixteen hexadecimal digits.
pub fn parse_hex16(digits: &[char]) -> (n: u64)
    requires
        digits@.len() == 16,
        all_hex(digits@),
    ensures
        n == value_of(digits@, 16),
{
    let mut value: u64 = 0;
    let mut i: usize = 0;
    assert(digits@.take(0) =~= Seq::empty());
    while i < 16
        invariant
            digits@.len() == 16,
            all_hex(digits@),
            i <= 16,
            value == value_of(digits@.take(i as int), 16),
        decreases 16 - i,
    {
        let c = digits[i];
        assert(is_hex_digit(digits@[i as int]));
        let digit: u64 = if '0' <= c && c <= '9' {
            (c as u32 - '0' as u32) as u64
        } else {
            (c as u32 - 'a' as u32) as u64 + 10
        };
        assert(digits@.take(i + 1).drop_last() =~= digits@.take(i as int));
        proof {
            lemma_hex_bound(digits@.take(i + 1));
            vstd::arithmetic::power::lemma_pow_increases(16, (i + 1) as nat, 16);
            assert(vstd::arithmetic::power::pow(16, 16) == 0x1_0000_0000_0000_0000) by {
                reveal_with_fuel(vstd::arithmetic::power::pow, 17);
            }
        }
        value = value * 16 + digit;
        i += 1;
    }
    assert(digits@.take(16) =~= digits@);
    value
}

} // verus!
