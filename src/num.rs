//! Reading and writing integers as text, with the rules of std's integer
//! parsing (`from_str_radix`) and formatting.
use vstd::prelude::*;
use crate::text::{chars_of, string_of};

verus! {

/// The value of `c` as a digit of base 16 or below, or -1.
pub open spec fn digit_value(c: char) -> int {
    if '0' <= c <= '9' {
        c as int - '0' as int
    } else if 'a' <= c <= 'z' {
        c as int - 'a' as int + 10
    } else if 'A' <= c <= 'Z' {
        c as int - 'A' as int + 10
    } else {
        -1
    }
}

/// Whether `c` is a digit in base `radix`.
pub open spec fn is_digit(c: char, radix: int) -> bool {
    0 <= digit_value(c) < radix
}

/// Whether every character of `s` is a digit in base `radix`.
pub open spec fn all_digits(s: Seq<char>, radix: int) -> bool {
    forall|i: int| 0 <= i < s.len() ==> is_digit(#[trigger] s[i], radix)
}

/// The number that the digits `s` write in base `radix`.
pub open spec fn digits_value(s: Seq<char>, radix: int) -> int
    decreases s.len(),
{
    if s.len() == 0 {
        0
    } else {
        digits_value(s.drop_last(), radix) * radix + digit_value(s.last())
    }
}

/// What `from_str_radix` of an unsigned type with largest value `max`
/// returns for `s`: an optional `+`, then one or more digits whose value
/// does not exceed `max`.
pub open spec fn unsigned_value(s: Seq<char>, radix: int, max: int) -> Option<int> {
    let d = if s.len() > 0 && s[0] == '+' {
        s.skip(1)
    } else {
        s
    };
    if d.len() > 0 && all_digits(d, radix) && digits_value(d, radix) <= max {
        Some(digits_value(d, radix))
    } else {
        None
    }
}

/// What `i32::from_str` returns for `s`: an optional sign, then one or
/// more decimal digits, within the range of `i32`.
pub open spec fn i32_value(s: Seq<char>) -> Option<int> {
    let neg = s.len() > 0 && s[0] == '-';
    let d = if s.len() > 0 && (s[0] == '+' || s[0] == '-') {
        s.skip(1)
    } else {
        s
    };
    let v = if neg {
        -digits_value(d, 10)
    } else {
        digits_value(d, 10)
    };
    if d.len() > 0 && all_digits(d, 10) && i32::MIN <= v <= i32::MAX {
        Some(v)
    } else {
        None
    }
}

proof fn lemma_digits_value_nonneg(s: Seq<char>, radix: int)
    requires
        all_digits(s, radix),
        radix >= 1,
    ensures
        digits_value(s, radix) >= 0,
    decreases s.len(),
{
    if s.len() > 0 {
        assert(is_digit(s[s.len() - 1], radix));
        lemma_digits_value_nonneg(s.drop_last(), radix);
    }
}

proof fn lemma_digits_value_grows(s: Seq<char>, radix: int)
    requires
        all_digits(s, radix),
        radix >= 2,
        s.len() > 0,
    ensures
        digits_value(s, radix) >= digits_value(s.drop_last(), radix),
{
    lemma_digits_value_nonneg(s.drop_last(), radix);
    let p = digits_value(s.drop_last(), radix);
    assert(p * radix >= p) by (nonlinear_arith)
        requires
            p >= 0,
            radix >= 2,
    ;
}

proof fn lemma_digits_value_mono(s: Seq<char>, i: int, radix: int)
    requires
        all_digits(s, radix),
        radix >= 2,
        0 <= i <= s.len(),
    ensures
        digits_value(s.take(i), radix) <= digits_value(s, radix),
    decreases s.len() - i,
{
    if i < s.len() {
        assert(s.take(i) =~= s.take(i + 1).drop_last());
        lemma_digits_value_mono(s, i + 1, radix);
        lemma_digits_value_grows(s.take(i + 1), radix);
    } else {
        assert(s.take(i) =~= s);
    }
}

/// The value of the character `c` as a digit of base 16 or below, if it is one.
fn digit_of(c: char, radix: u32) -> (r: Option<u32>)
    requires
        2 <= radix <= 16,
    ensures
        match r {
            Some(d) => is_digit(c, radix as int) && d == digit_value(c),
            None => !is_digit(c, radix as int),
        },
{
    let d: u32 = if '0' <= c && c <= '9' {
        (c as u32) - ('0' as u32)
    } else if 'a' <= c && c <= 'z' {
        (c as u32) - ('a' as u32) + 10
    } else if 'A' <= c && c <= 'Z' {
        (c as u32) - ('A' as u32) + 10
    } else {
        return None;
    };
    if d < radix {
        Some(d)
    } else {
        None
    }
}

/// The value of the digits `s[start..]` in base `radix`, if they are all
/// digits, at least one, and their value does not exceed `max`.
fn digits_upto(s: &Vec<char>, start: usize, radix: u32, max: u64) -> (r: Option<u64>)
    requires
        2 <= radix <= 16,
        max >= 16,
        start <= s.len(),
    ensures
        ({
            let d = s@.skip(start as int);
            match r {
                Some(v) => d.len() > 0 && all_digits(d, radix as int) && v == digits_value(
                    d,
                    radix as int,
                ) && v <= max,
                None => !(d.len() > 0 && all_digits(d, radix as int) && digits_value(
                    d,
                    radix as int,
                ) <= max),
            }
        }),
{
    let ghost d = s@.skip(start as int);
    if start == s.len() {
        return None;
    }
    let mut acc: u64 = 0;
    let mut i = start;
    while i < s.len()
        invariant
            start <= i <= s.len(),
            d == s@.skip(start as int),
            2 <= radix <= 16,
            all_digits(d.take(i - start), radix as int),
            acc == digits_value(d.take(i - start), radix as int),
            acc <= max,
            max >= 16,
        decreases s.len() - i,
    {
        assert(d.take(i + 1 - start).drop_last() =~= d.take(i - start));
        assert(d.take(i + 1 - start).last() == s@[i as int]);
        match digit_of(s[i], radix) {
            Some(v) => {
                assert(all_digits(d.take(i + 1 - start), radix as int));
                if acc > (max - v as u64) / (radix as u64) {
                    proof {
                        let a = acc as int;
                        let m = max as int;
                        let r = radix as int;
                        let w = v as int;
                        assert(a * r + w > m) by (nonlinear_arith)
                            requires
                                a > (m - w) / r,
                                r >= 2,
                                w >= 0,
                                m >= w,
                        ;
                        if all_digits(d, radix as int) {
                            lemma_digits_value_mono(d, i + 1 - start, radix as int);
                        }
                    }
                    return None;
                }
                proof {
                    let a = acc as int;
                    let m = max as int;
                    let r = radix as int;
                    let w = v as int;
                    assert(a * r + w <= m) by (nonlinear_arith)
                        requires
                            a <= (m - w) / r,
                            r >= 2,
                            w >= 0,
                            m >= w,
                    ;
                }
                acc = acc * (radix as u64) + v as u64;
            },
            None => {
                assert(!is_digit(d[i - start], radix as int));
                return None;
            },
        }
        i = i + 1;
    }
    assert(d.take(i - start) =~= d);
    Some(acc)
}

/// Reads `s` as std's `from_str_radix` reads an unsigned integer whose
/// largest value is `max`.
pub fn parse_unsigned(s: &str, radix: u32, max: u64) -> (r: Option<u64>)
    requires
        2 <= radix <= 16,
        max >= 16,
    ensures
        match r {
            Some(v) => unsigned_value(s@, radix as int, max as int) == Some(v as int),
            None => unsigned_value(s@, radix as int, max as int) is None,
        },
{
    let v = chars_of(s);
    let start: usize = if v.len() > 0 && v[0] == '+' {
        1
    } else {
        0
    };
    assert(start == 0 ==> v@.skip(0) =~= v@);
    digits_upto(&v, start, radix, max)
}

/// Reads `s` as `usize::from_str` does.
pub fn parse_usize(s: &str) -> (r: Option<usize>)
    ensures
        match r {
            Some(v) => unsigned_value(s@, 10, usize::MAX as int) == Some(v as int),
            None => unsigned_value(s@, 10, usize::MAX as int) is None,
        },
{
    match parse_unsigned(s, 10, usize::MAX as u64) {
        Some(v) => Some(v as usize),
        None => None,
    }
}

/// Reads `s` as `u8::from_str` does.
pub fn parse_u8(s: &str) -> (r: Option<u8>)
    ensures
        match r {
            Some(v) => unsigned_value(s@, 10, u8::MAX as int) == Some(v as int),
            None => unsigned_value(s@, 10, u8::MAX as int) is None,
        },
{
    match parse_unsigned(s, 10, u8::MAX as u64) {
        Some(v) => Some(v as u8),
        None => None,
    }
}

/// Reads `s` as `u32::from_str_radix(s, 16)` does.
pub fn parse_hex_u32(s: &str) -> (r: Option<u32>)
    ensures
        match r {
            Some(v) => unsigned_value(s@, 16, u32::MAX as int) == Some(v as int),
            None => unsigned_value(s@, 16, u32::MAX as int) is None,
        },
{
    match parse_unsigned(s, 16, u32::MAX as u64) {
        Some(v) => Some(v as u32),
        None => None,
    }
}

/// Reads `s` as `i32::from_str` does.
pub fn parse_i32(s: &str) -> (r: Option<i32>)
    ensures
        match r {
            Some(v) => i32_value(s@) == Some(v as int),
            None => i32_value(s@) is None,
        },
{
    let v = chars_of(s);
    let neg = v.len() > 0 && v[0] == '-';
    let start: usize = if v.len() > 0 && (v[0] == '+' || v[0] == '-') {
        1
    } else {
        0
    };
    assert(start == 0 ==> v@.skip(0) =~= v@);
    let max: u64 = if neg {
        2147483648
    } else {
        2147483647
    };
    let ghost d = v@.skip(start as int);
    match digits_upto(&v, start, 10, max) {
        Some(n) => {
            if neg {
                Some((0 - (n as i64)) as i32)
            } else {
                Some(n as i32)
            }
        },
        None => {
            proof {
                if d.len() > 0 && all_digits(d, 10) {
                    lemma_digits_value_nonneg(d, 10);
                }
            }
            None
        },
    }
}

/// The character of the digit `d`, lower case above 9.
pub open spec fn digit_char(d: int) -> char {
    if d < 10 {
        ('0' as int + d) as char
    } else {
        ('a' as int + d - 10) as char
    }
}

#[via_fn]
proof fn digits_of_decreases(n: nat, radix: nat) {
    if !(n < radix || radix < 2) {
        assert(n / radix < n) by (nonlinear_arith)
            requires
                n >= radix,
                radix >= 2,
        ;
    }
}

/// The digits of `n` in base `radix`, without leading zeros.
pub open spec fn digits_of(n: nat, radix: nat) -> Seq<char>
    decreases n
    via digits_of_decreases

{
    if n < radix || radix < 2 {
        seq![digit_char(n as int)]
    } else {
        digits_of(n / radix, radix).push(digit_char((n % radix) as int))
    }
}

/// `s` with zeros before it up to `width` characters.
pub open spec fn zero_pad(s: Seq<char>, width: nat) -> Seq<char> {
    if s.len() >= width {
        s
    } else {
        Seq::new((width - s.len()) as nat, |_i: int| '0') + s
    }
}

fn digit_chars(n: u64, radix: u64) -> (r: Vec<char>)
    requires
        2 <= radix <= 16,
    ensures
        r@ == digits_of(n as nat, radix as nat),
    decreases n,
{
    let low = n % radix;
    let c: char = if low < 10 {
        ((low as u8) + 48) as char
    } else {
        ((low as u8) + 87) as char
    };
    assert(c == digit_char(low as int));
    if n < radix {
        let r = vec![c];
        assert(low == n) by (nonlinear_arith)
            requires
                low == n % radix,
                n < radix,
                radix >= 2,
        ;
        assert(r@ =~= digits_of(n as nat, radix as nat));
        r
    } else {
        assert(n / radix < n) by (nonlinear_arith)
            requires
                n >= radix,
                radix >= 2,
        ;
        let mut r = digit_chars(n / radix, radix);
        r.push(c);
        r
    }
}

fn pad_chars(s: Vec<char>, width: usize) -> (r: Vec<char>)
    ensures
        r@ == zero_pad(s@, width as nat),
{
    if s.len() >= width {
        return s;
    }
    let mut r: Vec<char> = Vec::new();
    let mut i: usize = 0;
    while i < width - s.len()
        invariant
            s.len() < width,
            i <= width - s.len(),
            r@ == Seq::new(i as nat, |_i: int| '0'),
        decreases width - s.len() - i,
    {
        r.push('0');
        i = i + 1;
        assert(r@ =~= Seq::new(i as nat, |_i: int| '0'));
    }
    let mut k: usize = 0;
    let ghost pre = r@;
    while k < s.len()
        invariant
            k <= s.len(),
            r@ == pre + s@.take(k as int),
        decreases s.len() - k,
    {
        r.push(s[k]);
        k = k + 1;
        assert(r@ =~= pre + s@.take(k as int));
    }
    assert(s@.take(s.len() as int) =~= s@);
    r
}

/// `n` in decimal, with zeros before it up to `width` characters, as the
/// format `{:0width$}` writes it.
pub fn decimal_text(n: u64, width: usize) -> (r: String)
    ensures
        r@ == zero_pad(digits_of(n as nat, 10), width as nat),
{
    string_of(&pad_chars(digit_chars(n, 10), width))
}

/// `n` in lower-case hexadecimal, as the format `{:x}` writes it.
pub fn hex_text(n: u32) -> (r: String)
    ensures
        r@ == digits_of(n as nat, 16),
{
    string_of(&digit_chars(n as u64, 16))
}

/// `n` in decimal, its sign before it, with zeros between the sign and the
/// digits up to `width` characters in all, as the format `{:0width$}` writes it.
pub open spec fn signed_text(n: int, width: nat) -> Seq<char> {
    if n < 0 {
        seq!['-'] + zero_pad(digits_of((-n) as nat, 10), if width > 0 {
            (width - 1) as nat
        } else {
            0
        })
    } else {
        zero_pad(digits_of(n as nat, 10), width)
    }
}

/// `n` as the format `{:0width$}` writes it.
pub fn signed_decimal_text(n: i32, width: usize) -> (r: String)
    ensures
        r@ == signed_text(n as int, width as nat),
{
    if n < 0 {
        let m: u64 = (0 - (n as i64)) as u64;
        let w: usize = if width > 0 {
            width - 1
        } else {
            0
        };
        let mut v: Vec<char> = vec!['-'];
        let digits = pad_chars(digit_chars(m, 10), w);
        let mut k: usize = 0;
        while k < digits.len()
            invariant
                k <= digits.len(),
                v@ == seq!['-'] + digits@.take(k as int),
            decreases digits.len() - k,
        {
            v.push(digits[k]);
            k = k + 1;
            assert(v@ =~= seq!['-'] + digits@.take(k as int));
        }
        assert(digits@.take(digits.len() as int) =~= digits@);
        string_of(&v)
    } else {
        string_of(&pad_chars(digit_chars(n as u64, 10), width))
    }
}

} // verus!
