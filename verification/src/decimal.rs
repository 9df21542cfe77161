//! Decimal rendering and parsing of unsigned integers, following the
//! conventions of Rust's standard library (`Display` and `FromStr`).

use vstd::prelude::*;

verus! {

/// The ASCII digit for the value `d % 10`.
pub open spec fn digit_char(d: nat) -> char {
    ((d % 10) + 48) as char
}

/// Whether `c` is an ASCII decimal digit.
pub open spec fn is_digit(c: char) -> bool {
    '0' <= c && c <= '9'
}

/// The value of the ASCII decimal digit `c`.
pub open spec fn digit_value(c: char) -> int {
    c as int - 48
}

/// The decimal representation of `n`, without sign or leading zeros.
pub open spec fn decimal(n: nat) -> Seq<char>
    decreases n,
{
    if n < 10 {
        seq![digit_char(n)]
    } else {
        decimal(n / 10).push(digit_char(n % 10))
    }
}

/// Appends the decimal representation of `n` to `out`.
pub fn push_decimal(out: &mut Vec<char>, n: u64)
    ensures
        final(out)@ == old(out)@ + decimal(n as nat),
    decreases n,
{
    if n >= 10 {
        push_decimal(out, n / 10);
    }
    let d: u8 = (n % 10) as u8;
    let c = (d + 48) as char;
    assert(c == digit_char(n as nat));
    out.push(c);
}

/// The decimal representation of `n` as a `String`.
pub fn decimal_string(n: u64) -> (s: String)
    ensures
        s@ == decimal(n as nat),
{
    let mut v: Vec<char> = Vec::new();
    push_decimal(&mut v, n);
    crate::text::string_from_chars(v)
}

/// Why a string is not an unsigned integer of the requested width, as
/// Rust's `ParseIntError` classifies it.
#[derive(Clone, Copy, Debug, PartialEq, Eq, Structural)]
pub enum IntErrorKind {
    /// The string is empty.
    Empty,
    /// The string holds a character that is not a digit (a lone sign counts).
    InvalidDigit,
    /// The value exceeds the largest value of the target type.
    PosOverflow,
}

impl IntErrorKind {
    /// The text Rust's `ParseIntError` displays for this kind.
    pub fn description(&self) -> (s: &'static str)
        ensures
            s@ == self.spec_description(),
    {
        match self {
            IntErrorKind::Empty => "cannot parse integer from empty string",
            IntErrorKind::InvalidDigit => "invalid digit found in string",
            IntErrorKind::PosOverflow => "number too large to fit in target type",
        }
    }

    /// The text Rust's `ParseIntError` displays for this kind.
    pub open spec fn spec_description(&self) -> Seq<char> {
        match self {
            IntErrorKind::Empty => "cannot parse integer from empty string"@,
            IntErrorKind::InvalidDigit => "invalid digit found in string"@,
            IntErrorKind::PosOverflow => "number too large to fit in target type"@,
        }
    }
}

/// One step of the left-to-right digit scan: the value after reading `c`
/// when `v` was read so far.
pub open spec fn digit_step(v: int, c: char, max: int) -> Result<int, IntErrorKind> {
    if !is_digit(c) {
        Err(IntErrorKind::InvalidDigit)
    } else if v * 10 + digit_value(c) > max {
        Err(IntErrorKind::PosOverflow)
    } else {
        Ok(v * 10 + digit_value(c))
    }
}

/// Scans the digits of `s` left to right starting from the value `acc`;
/// the first failing character decides the error.
pub open spec fn parse_digits(s: Seq<char>, acc: int, max: int) -> Result<int, IntErrorKind>
    decreases s.len(),
{
    if s.len() == 0 {
        Ok(acc)
    } else {
        match digit_step(acc, s[0], max) {
            Ok(v) => parse_digits(s.drop_first(), v, max),
            Err(e) => Err(e),
        }
    }
}

/// The value of `s` as an unsigned integer no larger than `max`, as Rust's
/// `FromStr` for unsigned integers reads it: an optional leading `+`, then
/// decimal digits only.
pub open spec fn parse_unsigned(s: Seq<char>, max: int) -> Result<int, IntErrorKind> {
    if s.len() == 0 {
        Err(IntErrorKind::Empty)
    } else if (s[0] == '+' || s[0] == '-') && s.len() == 1 {
        Err(IntErrorKind::InvalidDigit)
    } else if s[0] == '+' {
        parse_digits(s.drop_first(), 0, max)
    } else {
        parse_digits(s, 0, max)
    }
}

proof fn lemma_parse_digits_bounded(s: Seq<char>, acc: int, max: int)
    requires
        0 <= acc <= max,
    ensures
        parse_digits(s, acc, max) matches Ok(v) ==> 0 <= v <= max,
    decreases s.len(),
{
    if s.len() > 0 {
        if let Ok(v) = digit_step(acc, s[0], max) {
            lemma_parse_digits_bounded(s.drop_first(), v, max);
        }
    }
}

/// Reads the characters `chars[start..end]` as an unsigned integer no
/// larger than `max`.
pub fn parse_unsigned_chars(chars: &Vec<char>, start: usize, end: usize, max: u64) -> (r: Result<
    u64,
    IntErrorKind,
>)
    requires
        start <= end <= chars@.len(),
    ensures
        match parse_unsigned(chars@.subrange(start as int, end as int), max as int) {
            Ok(v) => r == Ok::<u64, IntErrorKind>(v as u64) && 0 <= v <= max,
            Err(e) => r == Err::<u64, IntErrorKind>(e),
        },
{
    let ghost s = chars@.subrange(start as int, end as int);
    if start == end {
        return Err(IntErrorKind::Empty);
    }
    let first = chars[start];
    if (first == '+' || first == '-') && end - start == 1 {
        return Err(IntErrorKind::InvalidDigit);
    }
    let mut i: usize = start;
    if first == '+' {
        i = start + 1;
        assert(s.drop_first() == chars@.subrange(i as int, end as int));
    } else {
        assert(s == chars@.subrange(i as int, end as int));
    }
    let mut acc: u64 = 0;
    while i < end
        invariant
            start <= i <= end,
            end <= chars@.len(),
            acc <= max,
            s == chars@.subrange(start as int, end as int),
            parse_unsigned(s, max as int) == parse_digits(
                chars@.subrange(i as int, end as int),
                acc as int,
                max as int,
            ),
        decreases end - i,
    {
        let c = chars[i];
        let ghost rest = chars@.subrange(i as int, end as int);
        assert(rest[0] == c);
        assert(rest.drop_first() == chars@.subrange(i + 1, end as int));
        if !(c >= '0' && c <= '9') {
            assert(parse_digits(rest, acc as int, max as int) == Err::<int, IntErrorKind>(
                IntErrorKind::InvalidDigit,
            ));
            return Err(IntErrorKind::InvalidDigit);
        }
        let d: u64 = (c as u64) - 48;
        assert(digit_value(c) == d);
        if d > max {
            assert(acc * 10 + d > max) by (nonlinear_arith)
                requires
                    d > max,
                    acc >= 0,
            ;
            assert(parse_digits(rest, acc as int, max as int) == Err::<int, IntErrorKind>(
                IntErrorKind::PosOverflow,
            ));
            return Err(IntErrorKind::PosOverflow);
        }
        if acc > (max - d) / 10 {
            assert(acc * 10 + d > max) by (nonlinear_arith)
                requires
                    acc > (max - d) / 10,
                    d <= max,
            ;
            assert(parse_digits(rest, acc as int, max as int) == Err::<int, IntErrorKind>(
                IntErrorKind::PosOverflow,
            ));
            return Err(IntErrorKind::PosOverflow);
        }
        assert(acc * 10 + d <= max) by (nonlinear_arith)
            requires
                acc <= (max - d) / 10,
                d <= max,
        ;
        acc = acc * 10 + d;
        i += 1;
    }
    proof {
        lemma_parse_digits_bounded(chars@.subrange(end as int, end as int), acc as int, max as int);
    }
    Ok(acc)
}

/// Reads `s` as a `u16`, as `s.parse::<u16>()` does.
pub fn parse_u16(s: &str) -> (r: Result<u16, IntErrorKind>)
    ensures
        match parse_unsigned(s@, 0xffff) {
            Ok(v) => r == Ok::<u16, IntErrorKind>(v as u16),
            Err(e) => r == Err::<u16, IntErrorKind>(e),
        },
{
    let chars = crate::text::chars_of(s);
    assert(chars@.subrange(0, chars@.len() as int) == s@);
    match parse_unsigned_chars(&chars, 0, chars.len(), 0xffff) {
        Ok(v) => Ok(v as u16),
        Err(e) => Err(e),
    }
}

/// Reads `s` as a `u32`, as `s.parse::<u32>()` does.
pub fn parse_u32(s: &str) -> (r: Result<u32, IntErrorKind>)
    ensures
        match parse_unsigned(s@, 0xffff_ffff) {
            Ok(v) => r == Ok::<u32, IntErrorKind>(v as u32),
            Err(e) => r == Err::<u32, IntErrorKind>(e),
        },
{
    let chars = crate::text::chars_of(s);
    assert(chars@.subrange(0, chars@.len() as int) == s@);
    match parse_unsigned_chars(&chars, 0, chars.len(), 0xffff_ffff) {
        Ok(v) => Ok(v as u32),
        Err(e) => Err(e),
    }
}

} // verus!

verus! {

/// Reading one more character continues the scan from where the prefix left off.
proof fn lemma_parse_digits_push(s: Seq<char>, c: char, acc: int, max: int)
    ensures
        parse_digits(s.push(c), acc, max) == (match parse_digits(s, acc, max) {
            Ok(v) => digit_step(v, c, max),
            Err(e) => Err(e),
        }),
    decreases s.len(),
{
    if s.len() == 0 {
        assert(s.push(c).drop_first() =~= Seq::<char>::empty());
        assert(s.push(c)[0] == c);
        match digit_step(acc, c, max) {
            Ok(v) => {
                assert(parse_digits(Seq::<char>::empty(), v, max) == Ok::<int, IntErrorKind>(v));
            },
            Err(_) => {},
        }
    } else {
        assert(s.push(c).drop_first() =~= s.drop_first().push(c));
        assert(s.push(c)[0] == s[0]);
        match digit_step(acc, s[0], max) {
            Ok(v) => lemma_parse_digits_push(s.drop_first(), c, v, max),
            Err(_) => {},
        }
    }
}

proof fn lemma_digit_char(d: nat)
    requires
        d < 10,
    ensures
        is_digit(digit_char(d)),
        digit_value(digit_char(d)) == d,
{
    assert((d % 10) == d);
    assert(((d + 48) as char) as int == d + 48);
}

/// Every decimal representation is a non-empty run of digits.
pub proof fn lemma_decimal_digits(n: nat)
    ensures
        decimal(n).len() >= 1,
        forall|i: int| 0 <= i < decimal(n).len() ==> is_digit(#[trigger] decimal(n)[i]),
    decreases n,
{
    lemma_digit_char(n % 10);
    if n >= 10 {
        lemma_decimal_digits(n / 10);
        let p = decimal(n / 10);
        assert forall|i: int| 0 <= i < decimal(n).len() implies is_digit(#[trigger] decimal(n)[i]) by {
            if i < p.len() {
                assert(decimal(n)[i] == p[i]);
            }
        }
    }
}

/// Reading the digits of `n` gives `n`, as long as no prefix exceeds the bound.
pub proof fn lemma_decimal_parses(n: nat, max: int)
    requires
        n <= max,
    ensures
        parse_digits(decimal(n), 0, max) == Ok::<int, IntErrorKind>(n as int),
    decreases n,
{
    lemma_digit_char(n % 10);
    if n < 10 {
        lemma_parse_digits_push(Seq::<char>::empty(), digit_char(n), 0, max);
        assert(Seq::<char>::empty().push(digit_char(n)) =~= decimal(n));
    } else {
        lemma_decimal_parses(n / 10, max);
        lemma_parse_digits_push(decimal(n / 10), digit_char(n % 10), 0, max);
        assert((n / 10) * 10 + n % 10 == n);
    }
}

/// Law: reading back the decimal representation of a value gives the value.
pub proof fn lemma_decimal_roundtrip(n: nat, max: int)
    requires
        n <= max,
    ensures
        parse_unsigned(decimal(n), max) == Ok::<int, IntErrorKind>(n as int),
{
    lemma_decimal_digits(n);
    lemma_decimal_parses(n, max);
    assert(is_digit(decimal(n)[0]));
}

/// Law: whatever `parse_unsigned` accepts lies between zero and the bound.
pub proof fn lemma_parse_unsigned_bounded(s: Seq<char>, max: int)
    requires
        0 <= max,
    ensures
        parse_unsigned(s, max) matches Ok(v) ==> 0 <= v <= max,
{
    if s.len() > 0 {
        lemma_parse_digits_bounded(s, 0, max);
        lemma_parse_digits_bounded(s.drop_first(), 0, max);
    }
}

} // verus!

verus! {

/// The decimal representation of a positive number does not start with `0`.
pub proof fn lemma_decimal_no_leading_zero(n: nat)
    requires
        n >= 1,
    ensures
        decimal(n)[0] != '0',
    decreases n,
{
    if n < 10 {
        lemma_digit_char(n);
    } else {
        lemma_decimal_no_leading_zero(n / 10);
        lemma_decimal_digits(n / 10);
        assert(decimal(n)[0] == decimal(n / 10)[0]);
    }
}

/// The decimal representation of a number below 1000 has at most three digits.
pub proof fn lemma_decimal_len_small(n: nat)
    requires
        n < 1000,
    ensures
        decimal(n).len() <= 3,
        n < 10 ==> decimal(n).len() == 1,
{
    if n >= 10 {
        assert(decimal(n).len() == decimal(n / 10).len() + 1);
        if n / 10 >= 10 {
            assert(n / 10 / 10 < 10);
            assert(decimal(n / 10).len() == decimal(n / 10 / 10).len() + 1);
            assert(decimal(n / 10 / 10).len() == 1);
        } else {
            assert(decimal(n / 10).len() == 1);
        }
    }
}

} // verus!
