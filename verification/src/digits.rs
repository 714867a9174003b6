//! Positional notation: the number that a text denotes in a radix, and the
//! digits that denote a number.

use crate::text::chars_of;
use vstd::prelude::*;
use vstd::slice::slice_subrange;
use vstd::string::*;

verus! {

/// Why a text is not a number of the wanted range.
#[derive(Copy, Clone, Debug, PartialEq, Eq, Structural)]
pub enum ParseFailure {
    /// The text is empty.
    Empty,
    /// Some character is no digit of the radix, or a sign stands alone.
    InvalidDigit,
    /// The number lies above the range.
    PosOverflow,
    /// The number lies below the range.
    NegOverflow,
}

impl ParseFailure {
    /// The sentence that describes the failure.
    pub open spec fn spec_description(self) -> Seq<char> {
        match self {
            ParseFailure::Empty => "cannot parse integer from empty string"@,
            ParseFailure::InvalidDigit => "invalid digit found in string"@,
            ParseFailure::PosOverflow => "number too large to fit in target type"@,
            ParseFailure::NegOverflow => "number too small to fit in target type"@,
        }
    }

    /// The sentence that describes the failure.
    pub fn description(self) -> (text: &'static str)
        ensures
            text@ == self.spec_description(),
    {
        match self {
            ParseFailure::Empty => "cannot parse integer from empty string",
            ParseFailure::InvalidDigit => "invalid digit found in string",
            ParseFailure::PosOverflow => "number too large to fit in target type",
            ParseFailure::NegOverflow => "number too small to fit in target type",
        }
    }
}

/// The value of `c` read as a digit: `0` to `9` count from zero, the letters
/// `a` to `z` from ten, in either case. Anything else is no digit.
pub open spec fn digit_value(c: char) -> Option<int> {
    let code = c as int;
    if 0x30 <= code <= 0x39 {
        Some(code - 0x30)
    } else if 0x61 <= code <= 0x7a {
        Some(code - 0x61 + 10)
    } else if 0x41 <= code <= 0x5a {
        Some(code - 0x41 + 10)
    } else {
        None
    }
}

/// Whether `c` is a digit of the radix.
pub open spec fn is_digit(c: char, radix: int) -> bool {
    digit_value(c) matches Some(d) && d < radix
}

/// Whether every character of `s` is a digit of the radix.
pub open spec fn all_digits(s: Seq<char>, radix: int) -> bool {
    forall|i: int| 0 <= i < s.len() ==> is_digit(#[trigger] s[i], radix)
}

/// The number that the digits denote, most significant digit first.
pub open spec fn value_of(digits: Seq<char>, radix: int) -> int
    decreases digits.len(),
{
    if digits.len() == 0 {
        0
    } else {
        value_of(digits.drop_last(), radix) * radix + digit_value(digits.last()).unwrap_or(0)
    }
}

/// How many characters at the start of `s` are digits of the radix.
pub open spec fn leading_digits(s: Seq<char>, radix: int) -> nat
    decreases s.len(),
{
    if s.len() > 0 && is_digit(s[0], radix) {
        1 + leading_digits(s.drop_first(), radix)
    } else {
        0
    }
}

/// What digits denote in a radix, with a minus sign before them or without,
/// for a range from `min` to `max`.
///
/// The digits are read from the left, and the first thing that goes wrong
/// decides the failure: either the digits read so far leave the range before
/// any character that is no digit is met, or such a character is met while
/// they are still within it.
pub open spec fn read_digits_spec(
    body: Seq<char>,
    radix: int,
    negative: bool,
    min: int,
    max: int,
) -> Result<int, ParseFailure> {
    let read = leading_digits(body, radix);
    let magnitude = value_of(body.take(read as int), radix);
    let value = if negative {
        -magnitude
    } else {
        magnitude
    };
    if value > max {
        Err(ParseFailure::PosOverflow)
    } else if value < min {
        Err(ParseFailure::NegOverflow)
    } else if read < body.len() {
        Err(ParseFailure::InvalidDigit)
    } else {
        Ok(value)
    }
}

/// What a text denotes in a radix, for a range from `min` to `max` with
/// `min <= 0 <= max`.
///
/// The text is an optional sign and then digits. `-` is a sign only where the
/// range holds negative numbers; elsewhere it is a character that is no
/// digit. A sign alone is refused as such a character, too.
pub open spec fn parse_int_spec(s: Seq<char>, radix: int, min: int, max: int) -> Result<
    int,
    ParseFailure,
> {
    if s.len() == 0 {
        Err(ParseFailure::Empty)
    } else if s.len() == 1 && (s[0] == '+' || s[0] == '-') {
        Err(ParseFailure::InvalidDigit)
    } else if s[0] == '+' {
        read_digits_spec(s.skip(1), radix, false, min, max)
    } else if s[0] == '-' && min < 0 {
        read_digits_spec(s.skip(1), radix, true, min, max)
    } else {
        read_digits_spec(s, radix, false, min, max)
    }
}

/// `leading_digits` is the one index before which all are digits and at which
/// the text ends or holds something else.
pub proof fn lemma_leading_digits(s: Seq<char>, radix: int, k: int)
    requires
        0 <= k <= s.len(),
        all_digits(s.take(k), radix),
        k < s.len() ==> !is_digit(s[k], radix),
    ensures
        leading_digits(s, radix) == k,
    decreases k,
{
    if k > 0 {
        assert(s.take(k)[0] == s[0]);
        let rest = s.drop_first();
        assert forall|i: int| 0 <= i < k - 1 implies is_digit(
            #[trigger] rest.take(k - 1)[i],
            radix,
        ) by {
            assert(rest.take(k - 1)[i] == s.take(k)[i + 1]);
        }
        lemma_leading_digits(rest, radix, k - 1);
    }
}

/// The converse: what stands before `leading_digits` are digits, and what
/// stands at it, if anything, is none.
pub proof fn lemma_leading_digits_are_digits(s: Seq<char>, radix: int)
    ensures
        leading_digits(s, radix) <= s.len(),
        all_digits(s.take(leading_digits(s, radix) as int), radix),
        leading_digits(s, radix) < s.len() ==> !is_digit(
            s[leading_digits(s, radix) as int],
            radix,
        ),
    decreases s.len(),
{
    if s.len() > 0 && is_digit(s[0], radix) {
        let rest = s.drop_first();
        lemma_leading_digits_are_digits(rest, radix);
        let k = leading_digits(rest, radix) as int;
        assert forall|i: int| 0 <= i < k + 1 implies is_digit(
            #[trigger] s.take(k + 1)[i],
            radix,
        ) by {
            if i > 0 {
                assert(s.take(k + 1)[i] == rest.take(k)[i - 1]);
            }
        }
    }
}

/// Appending one digit multiplies by the radix and adds the digit.
pub proof fn lemma_value_of_step(s: Seq<char>, radix: int, i: int)
    requires
        0 <= i < s.len(),
    ensures
        value_of(s.take(i + 1), radix) == value_of(s.take(i), radix) * radix + digit_value(
            s[i],
        ).unwrap_or(0),
{
    assert(s.take(i + 1).drop_last() =~= s.take(i));
}

/// More digits never denote less.
pub proof fn lemma_value_of_grows(s: Seq<char>, radix: int, i: int, k: int)
    requires
        radix >= 1,
        0 <= i <= k <= s.len(),
    ensures
        0 <= value_of(s.take(i), radix) <= value_of(s.take(k), radix),
    decreases k,
{
    if k == 0 {
    } else if i == k {
        lemma_value_of_grows(s, radix, 0, k - 1);
        lemma_value_of_step(s, radix, k - 1);
        assert(value_of(s.take(k - 1), radix) * radix >= 0) by (nonlinear_arith)
            requires
                value_of(s.take(k - 1), radix) >= 0,
                radix >= 1,
        ;
    } else {
        lemma_value_of_grows(s, radix, i, k - 1);
        lemma_value_of_step(s, radix, k - 1);
        assert(value_of(s.take(k - 1), radix) * radix >= value_of(s.take(k - 1), radix))
            by (nonlinear_arith)
            requires
                value_of(s.take(k - 1), radix) >= 0,
                radix >= 1,
        ;
    }
}

/// The value of `c` as a digit of the radix, if it is one.
pub fn to_digit(c: char, radix: u32) -> (d: Option<u32>)
    requires
        2 <= radix <= 36,
    ensures
        match d {
            Some(v) => is_digit(c, radix as int) && digit_value(c) == Some(v as int),
            None => !is_digit(c, radix as int),
        },
{
    let code: u32 = c as u32;
    let value: u32 = if 0x30 <= code && code <= 0x39 {
        code - 0x30
    } else if 0x61 <= code && code <= 0x7a {
        code - 0x61 + 10
    } else if 0x41 <= code && code <= 0x5a {
        code - 0x41 + 10
    } else {
        return None;
    };
    if value < radix {
        Some(value)
    } else {
        None
    }
}

/// Reads digits, with a minus sign before them or without, as a number of
/// the range from `min` to `max`.
#[verifier::loop_isolation(false)]
fn read_digits(body: &[char], radix: u32, negative: bool, min: i128, max: i128) -> (r: Result<
    i128,
    ParseFailure,
>)
    requires
        2 <= radix <= 36,
        -0x1_0000_0000_0000_0000 <= min <= 0 <= max <= 0x1_0000_0000_0000_0000,
    ensures
        match r {
            Ok(v) => read_digits_spec(body@, radix as int, negative, min as int, max as int)
                == Ok::<int, ParseFailure>(v as int),
            Err(e) => read_digits_spec(body@, radix as int, negative, min as int, max as int)
                == Err::<int, ParseFailure>(e),
        },
{
    let ghost base = radix as int;
    let mut acc: i128 = 0;
    let mut i: usize = 0;
    while i < body.len()
        invariant
            i <= body@.len(),
            all_digits(body@.take(i as int), base),
            acc == if negative {
                -value_of(body@.take(i as int), base)
            } else {
                value_of(body@.take(i as int), base)
            },
            min <= acc <= max,
        decreases body.len() - i,
    {
        match to_digit(body[i], radix) {
            None => {
                proof {
                    lemma_leading_digits(body@, base, i as int);
                }
                return Err(ParseFailure::InvalidDigit);
            },
            Some(d) => {
                assert(-0x24_0000_0000_0000_0000 <= acc * (radix as i128)
                    <= 0x24_0000_0000_0000_0000) by (nonlinear_arith)
                    requires
                        -0x1_0000_0000_0000_0000 <= acc <= 0x1_0000_0000_0000_0000,
                        2 <= radix <= 36,
                ;
                let shifted: i128 = acc * (radix as i128);
                let next: i128 = if negative {
                    shifted - d as i128
                } else {
                    shifted + d as i128
                };
                proof {
                    let longer = body@.take(i + 1);
                    lemma_value_of_step(body@, base, i as int);
                    assert(all_digits(longer, base));
                    assert((-value_of(body@.take(i as int), base)) * base == -(value_of(
                        body@.take(i as int),
                        base,
                    ) * base)) by (nonlinear_arith);
                }
                if next > max || next < min {
                    proof {
                        lemma_leading_digits_are_digits(body@, base);
                        let read = leading_digits(body@, base) as int;
                        if read <= i {
                            assert(body@[read] == body@.take(i + 1)[read]);
                        }
                        lemma_value_of_grows(body@, base, i + 1, read);
                    }
                    return Err(
                        if next > max {
                            ParseFailure::PosOverflow
                        } else {
                            ParseFailure::NegOverflow
                        },
                    );
                }
                acc = next;
            },
        }
        i += 1;
    }
    proof {
        lemma_leading_digits(body@, base, body@.len() as int);
    }
    Ok(acc)
}

/// Reads `s` as a number of the range from `min` to `max`.
fn parse_in_range(s: &[char], radix: u32, min: i128, max: i128) -> (r: Result<
    i128,
    ParseFailure,
>)
    requires
        2 <= radix <= 36,
        -0x1_0000_0000_0000_0000 <= min <= 0 <= max <= 0x1_0000_0000_0000_0000,
    ensures
        match r {
            Ok(v) => parse_int_spec(s@, radix as int, min as int, max as int) == Ok::<
                int,
                ParseFailure,
            >(v as int),
            Err(e) => parse_int_spec(s@, radix as int, min as int, max as int) == Err::<
                int,
                ParseFailure,
            >(e),
        },
{
    let n: usize = s.len();
    if n == 0 {
        Err(ParseFailure::Empty)
    } else if n == 1 && (s[0] == '+' || s[0] == '-') {
        Err(ParseFailure::InvalidDigit)
    } else if s[0] == '+' {
        read_digits(slice_subrange(s, 1, n), radix, false, min, max)
    } else if s[0] == '-' && min < 0 {
        read_digits(slice_subrange(s, 1, n), radix, true, min, max)
    } else {
        read_digits(s, radix, false, min, max)
    }
}

/// The character that stands for the digit `d`: `0` to `9`, then the
/// lower-case letters.
pub open spec fn digit_char(d: int) -> char {
    if d < 10 {
        (0x30 + d) as char
    } else {
        (0x61 + d - 10) as char
    }
}

/// The digits of `n` in a radix, most significant first and without leading
/// zeros; zero is the one digit `0`.
pub open spec fn digits_of(n: nat, radix: nat) -> Seq<char>
    decreases n,
    via digits_of_terminates
{
    if radix < 2 || n < radix {
        seq![digit_char(n as int)]
    } else {
        digits_of(n / radix, radix).push(digit_char((n % radix) as int))
    }
}

#[via_fn]
proof fn digits_of_terminates(n: nat, radix: nat) {
    if radix >= 2 && n >= radix {
        lemma_quotient_is_less(n, radix);
    }
}

/// Dividing a number that is not below the radix makes it smaller.
proof fn lemma_quotient_is_less(n: nat, radix: nat)
    requires
        2 <= radix <= n,
    ensures
        n / radix < n,
{
    assert(n / radix < n) by (nonlinear_arith)
        requires
            2 <= radix <= n,
    ;
}

/// The digits of a number are digits of the radix, and denote the number.
pub proof fn lemma_digits_of(n: nat, radix: nat)
    requires
        2 <= radix <= 36,
    ensures
        digits_of(n, radix).len() >= 1,
        all_digits(digits_of(n, radix), radix as int),
        value_of(digits_of(n, radix), radix as int) == n,
    decreases n,
{
    let digits = digits_of(n, radix);
    if n < radix {
        assert(value_of(digits.drop_last(), radix as int) == 0);
    } else {
        let high = digits_of(n / radix, radix);
        let low = (n % radix) as int;
        lemma_quotient_is_less(n, radix);
        lemma_digits_of(n / radix, radix);
        assert(digits.drop_last() =~= high);
        assert(digit_value(digits.last()) == Some(low));
        assert forall|i: int| 0 <= i < digits.len() implies is_digit(
            #[trigger] digits[i],
            radix as int,
        ) by {
            if i < high.len() {
                assert(digits[i] == high[i]);
            }
        }
        assert((n / radix) * radix + n % radix == n) by (nonlinear_arith)
            requires
                radix > 0,
        ;
    }
}

/// Digits written for a number read back as that number, wherever the range
/// holds it.
pub proof fn lemma_parse_digits_of(n: nat, radix: nat, min: int, max: int)
    requires
        2 <= radix <= 36,
        min <= 0,
        n <= max,
    ensures
        parse_int_spec(digits_of(n, radix), radix as int, min, max) == Ok::<int, ParseFailure>(
            n as int,
        ),
{
    let digits = digits_of(n, radix);
    lemma_digits_of(n, radix);
    assert(digits.take(digits.len() as int) =~= digits);
    lemma_leading_digits(digits, radix as int, digits.len() as int);
}

/// Digits written for a number above the range are refused as too large.
pub proof fn lemma_parse_digits_of_above(n: nat, radix: nat, min: int, max: int)
    requires
        2 <= radix <= 36,
        min <= 0,
        n > max,
    ensures
        parse_int_spec(digits_of(n, radix), radix as int, min, max) == Err::<int, ParseFailure>(
            ParseFailure::PosOverflow,
        ),
{
    let digits = digits_of(n, radix);
    lemma_digits_of(n, radix);
    assert(digits.take(digits.len() as int) =~= digits);
    lemma_leading_digits(digits, radix as int, digits.len() as int);
}

/// The same behind a minus sign, for a range that holds the negative number.
pub proof fn lemma_parse_negated_digits_of(n: nat, radix: nat, min: int, max: int)
    requires
        2 <= radix <= 36,
        min < 0 <= max,
        min <= -n,
    ensures
        parse_int_spec(seq!['-'] + digits_of(n, radix), radix as int, min, max) == Ok::<
            int,
            ParseFailure,
        >(-n),
{
    let digits = digits_of(n, radix);
    let text = seq!['-'] + digits;
    lemma_digits_of(n, radix);
    assert(text.skip(1) =~= digits);
    assert(digits.take(digits.len() as int) =~= digits);
    lemma_leading_digits(digits, radix as int, digits.len() as int);
}

/// The text of one digit.
fn digit_text(d: u64) -> (t: &'static str)
    requires
        d < 36,
    ensures
        t@ == seq![digit_char(d as int)],
{
    proof {
        reveal_strlit("0");
        reveal_strlit("1");
        reveal_strlit("2");
        reveal_strlit("3");
        reveal_strlit("4");
        reveal_strlit("5");
        reveal_strlit("6");
        reveal_strlit("7");
        reveal_strlit("8");
        reveal_strlit("9");
        reveal_strlit("a");
        reveal_strlit("b");
        reveal_strlit("c");
        reveal_strlit("d");
        reveal_strlit("e");
        reveal_strlit("f");
        reveal_strlit("g");
        reveal_strlit("h");
        reveal_strlit("i");
        reveal_strlit("j");
        reveal_strlit("k");
        reveal_strlit("l");
        reveal_strlit("m");
        reveal_strlit("n");
        reveal_strlit("o");
        reveal_strlit("p");
        reveal_strlit("q");
        reveal_strlit("r");
        reveal_strlit("s");
        reveal_strlit("t");
        reveal_strlit("u");
        reveal_strlit("v");
        reveal_strlit("w");
        reveal_strlit("x");
        reveal_strlit("y");
        reveal_strlit("z");
    }
    let t: &'static str = match d {
        0 => "0",
        1 => "1",
        2 => "2",
        3 => "3",
        4 => "4",
        5 => "5",
        6 => "6",
        7 => "7",
        8 => "8",
        9 => "9",
        10 => "a",
        11 => "b",
        12 => "c",
        13 => "d",
        14 => "e",
        15 => "f",
        16 => "g",
        17 => "h",
        18 => "i",
        19 => "j",
        20 => "k",
        21 => "l",
        22 => "m",
        23 => "n",
        24 => "o",
        25 => "p",
        26 => "q",
        27 => "r",
        28 => "s",
        29 => "t",
        30 => "u",
        31 => "v",
        32 => "w",
        33 => "x",
        34 => "y",
        _ => "z",
    };
    t
}

/// Appends the digits of `n` to `out`.
pub fn push_digits(out: &mut String, n: u64, radix: u64)
    requires
        2 <= radix <= 36,
    ensures
        final(out)@ == old(out)@ + digits_of(n as nat, radix as nat),
    decreases n,
{
    if n >= radix {
        proof {
            lemma_quotient_is_less(n as nat, radix as nat);
        }
        push_digits(out, n / radix, radix);
    }
    let low: u64 = n % radix;
    out.append(digit_text(low));
    proof {
        if n < radix {
            assert(low == n) by (nonlinear_arith)
                requires
                    n < radix,
                    low == n % radix,
            ;
        }
    }
}

/// The digits of `n` in a radix.
pub fn format_radix(n: u64, radix: u32) -> (out: String)
    requires
        2 <= radix <= 36,
    ensures
        out@ == digits_of(n as nat, radix as nat),
{
    let mut out = String::new();
    push_digits(&mut out, n, radix as u64);
    out
}

/// What a text denotes in a radix as a signed number of 64 bits.
pub open spec fn spec_parse_i64(s: Seq<char>, radix: int) -> Result<i64, ParseFailure> {
    match parse_int_spec(s, radix, i64::MIN as int, i64::MAX as int) {
        Ok(value) => Ok(value as i64),
        Err(cause) => Err(cause),
    }
}

/// Reads `s` in a radix as a signed number of 64 bits: an optional `+` or
/// `-`, then digits of the radix and nothing else.
pub fn parse_i64(s: &str, radix: u32) -> (r: Result<i64, ParseFailure>)
    requires
        2 <= radix <= 36,
    ensures
        r == spec_parse_i64(s@, radix as int),
{
    let chars = chars_of(s);
    match parse_in_range(chars.as_slice(), radix, i64::MIN as i128, i64::MAX as i128) {
        Ok(value) => Ok(value as i64),
        Err(cause) => Err(cause),
    }
}

/// What a text denotes in decimal as an unsigned number of 8 bits.
pub open spec fn spec_parse_u8(s: Seq<char>) -> Result<u8, ParseFailure> {
    match parse_int_spec(s, 10, 0, u8::MAX as int) {
        Ok(value) => Ok(value as u8),
        Err(cause) => Err(cause),
    }
}

/// Reads `s` in decimal as an unsigned number of 8 bits: an optional `+`,
/// then decimal digits and nothing else.
pub fn parse_u8(s: &str) -> (r: Result<u8, ParseFailure>)
    ensures
        r == spec_parse_u8(s@),
{
    let chars = chars_of(s);
    match parse_in_range(chars.as_slice(), 10, 0, u8::MAX as i128) {
        Ok(value) => Ok(value as u8),
        Err(cause) => Err(cause),
    }
}

/// The unsigned number of 64 bits with the bits of `value` in two's
/// complement.
pub open spec fn twos_complement(value: int) -> nat {
    if value >= 0 {
        value as nat
    } else {
        (value + 0x1_0000_0000_0000_0000) as nat
    }
}

/// The digits of the bits of `value`, taken as an unsigned number, in a
/// radix.
pub fn format_bits(value: i64, radix: u32) -> (out: String)
    requires
        2 <= radix <= 36,
    ensures
        out@ == digits_of(twos_complement(value as int), radix as nat),
{
    let bits: u64 = if value >= 0 {
        value as u64
    } else {
        (value as i128 + 0x1_0000_0000_0000_0000) as u64
    };
    format_radix(bits, radix)
}

/// A number in decimal: its digits, behind `-` where it is negative.
pub open spec fn signed_decimal(value: int) -> Seq<char> {
    if value < 0 {
        seq!['-'] + digits_of((-value) as nat, 10)
    } else {
        digits_of(value as nat, 10)
    }
}

/// `value` in decimal.
pub fn format_decimal(value: i64) -> (out: String)
    ensures
        out@ == signed_decimal(value as int),
{
    if value < 0 {
        proof {
            reveal_strlit("-");
        }
        let mut out = String::from_str("-");
        push_digits(&mut out, (-(value as i128)) as u64, 10);
        out
    } else {
        format_radix(value as u64, 10)
    }
}

} // verus!
