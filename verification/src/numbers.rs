//! Numbers as text: decimal and hexadecimal digits, written and read.

use crate::text::chars_of;
use vstd::arithmetic::power::pow;
use vstd::prelude::*;
use vstd::string::*;

verus! {

/// The character of a digit below sixteen.
pub open spec fn digit_char(d: nat) -> char {
    if d < 10 {
        ('0' as u32 + d) as char
    } else {
        ('a' as u32 + (d - 10)) as char
    }
}

/// The decimal form of `n`, without leading zeros.
pub open spec fn decimal(n: nat) -> Seq<char>
    decreases n,
{
    if n < 10 {
        seq![digit_char(n)]
    } else {
        decimal(n / 10).push(digit_char(n % 10))
    }
}

/// The decimal form of an integer, with a sign where it is negative.
pub open spec fn signed_decimal(n: int) -> Seq<char> {
    if n < 0 {
        seq!['-'] + decimal((-n) as nat)
    } else {
        decimal(n as nat)
    }
}

/// The character of a digit below sixteen.
fn digit_of(d: u8) -> (c: char)
    requires
        d < 16,
    ensures
        c == digit_char(d as nat),
{
    if d < 10 {
        (48 + d) as char
    } else {
        (97 + (d - 10)) as char
    }
}

/// The decimal form of `n`.
pub fn decimal_text(n: u64) -> (out: String)
    ensures
        out@ == decimal(n as nat),
    decreases n,
{
    if n < 10 {
        let mut out = String::new();
        out.push(digit_of(n as u8));
        assert(out@ =~= decimal(n as nat));
        out
    } else {
        let mut out = decimal_text(n / 10);
        out.push(digit_of((n % 10) as u8));
        out
    }
}

/// The decimal form of `n`.
pub fn signed_decimal_text(n: i64) -> (out: String)
    ensures
        out@ == signed_decimal(n as int),
{
    if n < 0 {
        let mut out = String::new();
        out.push('-');
        let magnitude: u64 = if n == i64::MIN {
            0x8000_0000_0000_0000
        } else {
            (-n) as u64
        };
        let digits = decimal_text(magnitude);
        out.append(digits.as_str());
        out
    } else {
        decimal_text(n as u64)
    }
}

/// The two hexadecimal digits of each byte of `bytes`.
pub open spec fn hex(bytes: Seq<u8>) -> Seq<char>
    decreases bytes.len(),
{
    if bytes.len() == 0 {
        seq![]
    } else {
        hex(bytes.drop_last()).push(digit_char((bytes.last() / 16) as nat)).push(
            digit_char((bytes.last() % 16) as nat),
        )
    }
}

/// The hexadecimal digits of the first `count` bytes of `bytes`.
pub fn hex_prefix(bytes: &[u8], count: usize) -> (out: String)
    requires
        count <= bytes@.len(),
    ensures
        out@ == hex(bytes@.take(count as int)),
        out@.len() == 2 * count,
{
    let mut out = String::new();
    let mut i: usize = 0;
    while i < count
        invariant
            i <= count <= bytes@.len(),
            out@ == hex(bytes@.take(i as int)),
            out@.len() == 2 * i,
        decreases count - i,
    {
        let ghost next = bytes@.take(i as int + 1);
        assert(next.drop_last() =~= bytes@.take(i as int));
        out.push(digit_of(bytes[i] / 16));
        out.push(digit_of(bytes[i] % 16));
        i += 1;
    }
    out
}

/// The last `width` hexadecimal digits of `n`.
pub open spec fn hex_digits(n: nat, width: nat) -> Seq<char>
    decreases width,
{
    if width == 0 {
        seq![]
    } else {
        hex_digits(n / 16, (width - 1) as nat).push(digit_char(n % 16))
    }
}

/// The sixteen hexadecimal digits of `n`.
pub fn hex_word(n: u64) -> (out: String)
    ensures
        out@ == hex_digits(n as nat, 16),
{
    hex_width(n, 16)
}

fn hex_width(n: u64, width: u8) -> (out: String)
    ensures
        out@ == hex_digits(n as nat, width as nat),
    decreases width,
{
    if width == 0 {
        String::new()
    } else {
        let mut out = hex_width(n / 16, width - 1);
        out.push(digit_of((n % 16) as u8));
        out
    }
}

/// Whether `c` is a decimal digit.
pub open spec fn is_digit(c: char) -> bool {
    '0' <= c <= '9'
}

/// The number that a run of decimal digits denotes.
pub open spec fn digits_value(s: Seq<char>) -> nat
    decreases s.len(),
{
    if s.len() == 0 {
        0
    } else {
        digits_value(s.drop_last()) * 10 + (s.last() as nat - '0' as nat) as nat
    }
}

/// `s` without a leading plus sign.
pub open spec fn unsigned_body(s: Seq<char>) -> Seq<char> {
    if s.len() > 0 && s[0] == '+' {
        s.skip(1)
    } else {
        s
    }
}

/// The number that `s` denotes: decimal digits, at least one, after an optional plus sign.
pub open spec fn parsed_number(s: Seq<char>) -> Option<nat> {
    let body = unsigned_body(s);
    if body.len() > 0 && forall|i: int| 0 <= i < body.len() ==> is_digit(#[trigger] body[i]) {
        Some(digits_value(body))
    } else {
        None
    }
}

/// The number that `text` denotes, where it does not exceed `max`.
pub fn parse_number(text: &str, max: u64) -> (parsed: Option<u64>)
    ensures
        match parsed {
            Some(n) => parsed_number(text@) == Some(n as nat) && n <= max,
            None => parsed_number(text@) is None || parsed_number(text@)->0 > max,
        },
{
    let chars = chars_of(text);
    let mut start: usize = 0;
    if chars.len() > 0 && chars[0] == '+' {
        start = 1;
    }
    let ghost body = unsigned_body(text@);
    assert(body =~= chars@.skip(start as int));
    if start == chars.len() {
        return None;
    }
    let mut value: u64 = 0;
    let mut over: bool = false;
    let mut i: usize = start;
    assert(body.take(0) =~= seq![]);
    while i < chars.len()
        invariant
            start <= i <= chars@.len(),
            body == chars@.skip(start as int),
            body == unsigned_body(text@),
            body.len() > 0,
            forall|k: int| 0 <= k < i - start ==> is_digit(#[trigger] body[k]),
            !over ==> value == digits_value(body.take(i - start)) && value <= max,
            over ==> digits_value(body.take(i - start)) > max,
        decreases chars@.len() - i,
    {
        let c = chars[i];
        assert(body[i - start] == c);
        if !('0' <= c && c <= '9') {
            assert(!is_digit(body[i - start]));
            return None;
        }
        let ghost next = body.take(i - start + 1);
        assert(next.drop_last() =~= body.take(i - start));
        assert(digits_value(next) == digits_value(body.take(i - start)) * 10 + (c as nat
            - '0' as nat));
        let digit: u64 = ((c as u8) - 48) as u64;
        if !over {
            if value > (u64::MAX - digit) / 10 || value * 10 + digit > max {
                over = true;
            } else {
                value = value * 10 + digit;
            }
        }
        i += 1;
    }
    assert(body.take(body.len() as int) =~= body);
    if over {
        None
    } else {
        Some(value)
    }
}

/// What std says of a text that denotes no number up to a greatest one.
pub uninterp spec fn number_complaint(text: Seq<char>, max: nat) -> Seq<char>;

/// Whether a text denotes a number up to a greatest one.
pub open spec fn denotes(text: Seq<char>, max: nat) -> bool {
    parsed_number(text) matches Some(n) && n <= max
}

/// `FromStr` of `u16` refuses a text that denotes no such number; its error, written out,
/// depends on the text alone.
#[verifier::external_body]
pub(crate) fn u16_complaint(text: &str) -> (complaint: String)
    requires
        !denotes(text@, 65535),
    ensures
        complaint@ == number_complaint(text@, 65535),
{
    text.parse::<u16>().err().map(|error| error.to_string()).unwrap_or_default()
}

/// `FromStr` of `usize` refuses a text that denotes no such number; its error, written out,
/// depends on the text and on the greatest such number.
#[verifier::external_body]
pub(crate) fn usize_complaint(text: &str) -> (complaint: String)
    requires
        !denotes(text@, usize::MAX as nat),
    ensures
        complaint@ == number_complaint(text@, usize::MAX as nat),
{
    text.parse::<usize>().err().map(|error| error.to_string()).unwrap_or_default()
}

/// Reading the decimal form of a number gives the number back.
pub proof fn decimal_reads_back(n: nat)
    ensures
        parsed_number(decimal(n)) == Some(n),
{
    decimal_digits(n);
    assert(unsigned_body(decimal(n)) == decimal(n));
}

proof fn decimal_digits(n: nat)
    ensures
        decimal(n).len() > 0,
        forall|i: int| 0 <= i < decimal(n).len() ==> is_digit(#[trigger] decimal(n)[i]),
        digits_value(decimal(n)) == n,
    decreases n,
{
    if n < 10 {
        assert(decimal(n).drop_last() =~= seq![]);
        assert(digits_value(decimal(n)) == n) by {
            assert(digits_value(decimal(n).drop_last()) == 0);
        }
    } else {
        decimal_digits(n / 10);
        assert(decimal(n).drop_last() =~= decimal(n / 10));
    }
}

/// Distinct numbers have distinct decimal forms.
pub proof fn decimal_is_injective(a: nat, b: nat)
    requires
        decimal(a) == decimal(b),
    ensures
        a == b,
{
    decimal_digits(a);
    decimal_digits(b);
}

proof fn digits_of_both(a: Seq<char>, b: Seq<char>)
    ensures
        digits_value(a + b) == digits_value(a) * pow(10, b.len()) + digits_value(b),
    decreases b.len(),
{
    reveal(pow);
    if b.len() == 0 {
        assert(a + b =~= a);
        assert(digits_value(a) * 1 == digits_value(a));
    } else {
        assert((a + b).drop_last() =~= a + b.drop_last());
        digits_of_both(a, b.drop_last());
        let p = pow(10, b.drop_last().len());
        assert(pow(10, b.len()) == 10 * p);
        assert(digits_value(a) * (10 * p) == 10 * (digits_value(a) * p)) by (nonlinear_arith);
    }
}

/// A digit is worth ten times as much one place further to the left: digits before others
/// count by the power of ten of how many follow, and one digit counts from `0` up to `9`.
pub proof fn digits_count_by_tens(a: Seq<char>, b: Seq<char>, c: char)
    ensures
        digits_value(a + b) == digits_value(a) * pow(10, b.len()) + digits_value(b),
        '0' <= c <= '9' ==> digits_value(seq![c]) == c as int - 48,
{
    digits_of_both(a, b);
    assert(seq![c].drop_last() =~= Seq::<char>::empty());
    assert(digits_value(seq![c].drop_last()) == 0);
}

/// The decimal form of a number is made of digits, without a zero before others, and the
/// digits count up to the number.
pub proof fn decimals_are_plain(n: nat)
    ensures
        decimal(n).len() >= 1,
        forall|i: int| 0 <= i < decimal(n).len() ==> '0' <= #[trigger] decimal(n)[i] <= '9',
        digits_value(decimal(n)) == n,
        n >= 10 ==> decimal(n).len() >= 2 && decimal(n)[0] != '0',
        n < 10 ==> decimal(n).len() == 1,
        n >= 1 ==> decimal(n)[0] != '0',
    decreases n,
{
    decimal_digits(n);
    assert forall|i: int| 0 <= i < decimal(n).len() implies '0' <= #[trigger] decimal(n)[i]
        <= '9' by {
        assert(is_digit(decimal(n)[i]));
    }
    if n >= 10 {
        decimals_are_plain(n / 10);
        assert(decimal(n)[0] == decimal(n / 10)[0]);
    }
}

/// A negative number is written as a minus sign and the digits of what it lacks to zero, any
/// other as its digits alone.
pub proof fn signs_stand_first(n: int)
    ensures
        n >= 0 ==> digits_value(signed_decimal(n)) == n && '0' <= signed_decimal(n)[0] <= '9',
        n < 0 ==> signed_decimal(n)[0] == '-' && digits_value(signed_decimal(n).skip(1)) == -n
            && signed_decimal(n).skip(1) == signed_decimal(-n),
{
    decimal_digits(n as nat);
    if n >= 0 {
        assert(is_digit(decimal(n as nat)[0]));
    } else {
        decimal_digits((-n) as nat);
        assert(signed_decimal(n).skip(1) =~= decimal((-n) as nat));
    }
}

/// A text denotes a number if and only if it is digits, at least one, after at most one plus
/// sign; the number is what the digits count up to.
pub proof fn numbers_are_digits(s: Seq<char>)
    ensures
        s.len() > 0 && (forall|i: int| 0 <= i < s.len() ==> '0' <= #[trigger] s[i] <= '9')
            ==> parsed_number(s) == Some(digits_value(s)) && parsed_number(seq!['+'] + s) == Some(
            digits_value(s),
        ),
        s.len() == 0 ==> parsed_number(s) is None && parsed_number(seq!['+']) is None,
        (exists|i: int| 1 <= i < s.len() && !('0' <= #[trigger] s[i] <= '9')) ==> parsed_number(s)
            is None,
        s.len() > 0 && s[0] != '+' && !('0' <= s[0] <= '9') ==> parsed_number(s) is None,
{
    let signed = seq!['+'] + s;
    assert(signed.skip(1) =~= s);
    assert(seq!['+'].skip(1) =~= Seq::<char>::empty());
    if exists|i: int| 1 <= i < s.len() && !('0' <= #[trigger] s[i] <= '9') {
        let i = choose|i: int| 1 <= i < s.len() && !('0' <= #[trigger] s[i] <= '9');
        let body = unsigned_body(s);
        if s[0] == '+' {
            assert(!is_digit(body[i - 1]));
        } else {
            assert(!is_digit(body[i]));
        }
    }
    if s.len() > 0 && s[0] != '+' && !('0' <= s[0] <= '9') {
        assert(!is_digit(unsigned_body(s)[0]));
    }
    if s.len() > 0 && (forall|i: int| 0 <= i < s.len() ==> '0' <= #[trigger] s[i] <= '9') {
        assert forall|i: int| 0 <= i < s.len() implies is_digit(#[trigger] s[i]) by {
            assert('0' <= s[i] <= '9');
        }
        assert('0' <= s[0] <= '9');
        assert(unsigned_body(s) == s);
        assert(unsigned_body(signed) == s);
    }
}

/// Each byte is written as two hexadecimal digits, that of its sixteens first, in lower case.
pub proof fn bytes_have_two_digits(bytes: Seq<u8>, i: int)
    requires
        0 <= i < bytes.len(),
    ensures
        hex(bytes).len() == 2 * bytes.len(),
        ({
            let high = (bytes[i] / 16) as int;
            let low = (bytes[i] % 16) as int;
            &&& hex(bytes)[2 * i] as int == if high < 10 {
                48 + high
            } else {
                87 + high
            }
            &&& hex(bytes)[2 * i + 1] as int == if low < 10 {
                48 + low
            } else {
                87 + low
            }
        }),
    decreases bytes.len(),
{
    hex_len(bytes.drop_last());
    if i < bytes.len() - 1 {
        bytes_have_two_digits(bytes.drop_last(), i);
        assert(hex(bytes)[2 * i] == hex(bytes.drop_last())[2 * i]);
        assert(hex(bytes)[2 * i + 1] == hex(bytes.drop_last())[2 * i + 1]);
    }
}

proof fn hex_len(bytes: Seq<u8>)
    ensures
        hex(bytes).len() == 2 * bytes.len(),
    decreases bytes.len(),
{
    if bytes.len() > 0 {
        hex_len(bytes.drop_last());
    }
}

/// The hexadecimal digits of a number, from the left: each counts sixteen times as much as the
/// next, and so many are written as are asked for, however many zeros that takes.
pub proof fn words_count_by_sixteens(n: nat, width: nat, i: int)
    requires
        0 <= i < width,
    ensures
        hex_digits(n, width).len() == width,
        ({
            let digit = (n as int / pow(16, (width - 1 - i) as nat)) % 16;
            hex_digits(n, width)[i] as int == if digit < 10 {
                48 + digit
            } else {
                87 + digit
            }
        }),
    decreases width,
{
    hex_digits_len(n / 16, (width - 1) as nat);
    if i == width - 1 {
        reveal(pow);
        assert(pow(16, 0) == 1);
    } else {
        words_count_by_sixteens(n / 16, (width - 1) as nat, i);
        let k = (width - 2 - i) as nat;
        reveal(pow);
        assert(pow(16, k + 1) == 16 * pow(16, k));
        vstd::arithmetic::power::lemma_pow_positive(16, k);
        vstd::arithmetic::div_mod::lemma_div_denominator(n as int, 16, pow(16, k));
        assert((n as int / 16) / pow(16, k) == n as int / (16 * pow(16, k)));
        assert(hex_digits(n, width)[i] == hex_digits(n / 16, (width - 1) as nat)[i]);
    }
}

proof fn hex_digits_len(n: nat, width: nat)
    ensures
        hex_digits(n, width).len() == width,
    decreases width,
{
    if width > 0 {
        hex_digits_len(n / 16, (width - 1) as nat);
    }
}

} // verus!
