//! Decimal numerals, written and read.
use vstd::prelude::*;

verus! {

/// The decimal digit of a value below ten.
pub open spec fn digit_char(d: nat) -> char {
    (d + 48) as char
}

/// The decimal numeral of `n`, without leading zeros.
pub open spec fn decimal(n: nat) -> Seq<char>
    decreases n,
{
    if n < 10 {
        seq![digit_char(n)]
    } else {
        decimal(n / 10).push(digit_char(n % 10))
    }
}

/// The same numeral as ASCII bytes.
pub open spec fn decimal_bytes(n: nat) -> Seq<u8>
    decreases n,
{
    if n < 10 {
        seq![(n + 48) as u8]
    } else {
        decimal_bytes(n / 10).push((n % 10 + 48) as u8)
    }
}

/// Whether `b` is an ASCII digit.
pub open spec fn is_digit(b: u8) -> bool {
    48 <= b <= 57
}

/// Whether every byte of `s` is an ASCII digit.
pub open spec fn all_digits(s: Seq<u8>) -> bool {
    forall|i: int| 0 <= i < s.len() ==> is_digit(#[trigger] s[i])
}

/// The number that a string of digits stands for, read in base ten.
pub open spec fn digits_value(s: Seq<u8>) -> nat
    decreases s.len(),
{
    if s.len() == 0 {
        0
    } else {
        digits_value(s.drop_last()) * 10 + (s.last() - 48) as nat
    }
}

/// The number that `s` denotes: an optional plus sign and then digits, nothing else.
pub open spec fn unsigned_value(s: Seq<u8>) -> Option<nat> {
    let body = if s.len() > 0 && s[0] == 43u8 {
        s.skip(1)
    } else {
        s
    };
    if body.len() > 0 && all_digits(body) {
        Some(digits_value(body))
    } else {
        None
    }
}

/// The numeral is made of digits, is never empty, and reads back as the number.
pub proof fn lemma_decimal_bytes(n: nat)
    ensures
        decimal_bytes(n).len() > 0,
        all_digits(decimal_bytes(n)),
        digits_value(decimal_bytes(n)) == n,
    decreases n,
{
    if n < 10 {
        let s = decimal_bytes(n);
        assert(s.drop_last() =~= Seq::<u8>::empty());
        assert(digits_value(s.drop_last()) == 0);
    } else {
        lemma_decimal_bytes(n / 10);
        let s = decimal_bytes(n);
        assert(s.drop_last() =~= decimal_bytes(n / 10));
    }
}

/// The characters of a numeral are ASCII, and its UTF-8 bytes are `decimal_bytes`.
pub proof fn lemma_decimal_utf8(n: nat)
    ensures
        vstd::utf8::is_ascii_chars(decimal(n)),
        vstd::utf8::encode_utf8(decimal(n)) == decimal_bytes(n),
    decreases n,
{
    lemma_decimal_chars(n);
    vstd::utf8::is_ascii_chars_encode_utf8(decimal(n));
    assert(vstd::utf8::encode_utf8(decimal(n)) =~= decimal_bytes(n));
}

/// A numeral is read as the number that it was written for.
pub proof fn lemma_decimal_is_read_back(n: nat)
    ensures
        unsigned_value(vstd::utf8::encode_utf8(decimal(n))) == Some(n),
{
    lemma_decimal_utf8(n);
    lemma_decimal_bytes(n);
    let s = decimal_bytes(n);
    assert(is_digit(s[0]));
}

proof fn lemma_decimal_chars(n: nat)
    ensures
        decimal(n).len() == decimal_bytes(n).len(),
        vstd::utf8::is_ascii_chars(decimal(n)),
        forall|i: int|
            0 <= i < decimal(n).len() ==> (#[trigger] decimal(n)[i]) as u8 == decimal_bytes(n)[i],
    decreases n,
{
    if n >= 10 {
        lemma_decimal_chars(n / 10);
    }
}

/// Appending digits never makes the number smaller.
pub proof fn lemma_digits_prefix(s: Seq<u8>, n: int)
    requires
        0 <= n <= s.len(),
        all_digits(s),
    ensures
        digits_value(s.take(n)) <= digits_value(s),
    decreases s.len() - n,
{
    if n == s.len() {
        assert(s.take(n) =~= s);
    } else {
        assert(s.take(n + 1).drop_last() =~= s.take(n));
        assert(is_digit(s[n]));
        lemma_digits_prefix(s, n + 1);
    }
}

/// How many decimal digits `n` is written with; none for zero.
pub open spec fn digit_count(n: nat) -> nat
    decreases n,
{
    if n == 0 {
        0
    } else {
        1 + digit_count(n / 10)
    }
}

/// Except for zero, the digit count is the length of the numeral.
pub proof fn lemma_digit_count(n: nat)
    requires
        n > 0,
    ensures
        digit_count(n) == decimal_bytes(n).len(),
    decreases n,
{
    if n >= 10 {
        lemma_digit_count(n / 10);
    } else {
        assert(digit_count(n / 10) == 0);
    }
}

/// A number that fits in 64 bits has at most twenty digits.
pub proof fn lemma_digit_count_bound(n: nat, k: nat)
    requires
        n < vstd::arithmetic::power::pow(10, k),
    ensures
        digit_count(n) <= k,
    decreases k,
{
    reveal(vstd::arithmetic::power::pow);
    if n > 0 {
        assert(k > 0);
        let p = vstd::arithmetic::power::pow(10, (k - 1) as nat);
        assert(vstd::arithmetic::power::pow(10, k) == 10 * p);
        assert(n / 10 < p);
        lemma_digit_count_bound(n / 10, (k - 1) as nat);
    }
}

fn digit_text(d: u64) -> (text: &'static str)
    requires
        d < 10,
    ensures
        text@ == seq![digit_char(d as nat)],
{
    proof {
        reveal_strlit("0");
        reveal_strlit("1");
        reveal_strlit("2");
        reveal_strlit("3");
        reveal_strlit("4");
        reveal_strlit("5");
        reveal_strlit("6");
        reveal_strlit("7");
        reveal_strlit("8");
        reveal_strlit("9");
    }
    let text = match d {
        0 => "0",
        1 => "1",
        2 => "2",
        3 => "3",
        4 => "4",
        5 => "5",
        6 => "6",
        7 => "7",
        8 => "8",
        _ => "9",
    };
    assert(text@ =~= seq![digit_char(d as nat)]);
    text
}

/// Writes `n` in decimal.
pub fn decimal_string(n: u64) -> (text: String)
    ensures
        text@ == decimal(n as nat),
    decreases n,
{
    if n < 10 {
        String::from_str(digit_text(n))
    } else {
        let mut text = decimal_string(n / 10);
        text.append(digit_text(n % 10));
        text
    }
}

/// Counts the decimal digits of `n`, none for zero.
pub fn number_of_digits(n: usize) -> (count: usize)
    ensures
        count == digit_count(n as nat),
        count <= 20,
{
    proof {
        assert(vstd::arithmetic::power::pow(10, 20) == 100_000_000_000_000_000_000nat) by {
            reveal_with_fuel(vstd::arithmetic::power::pow, 21);
        }
        lemma_digit_count_bound(n as nat, 20);
    }
    let mut rest: usize = n;
    let mut count: usize = 0;
    while rest > 0
        invariant
            count + digit_count(rest as nat) == digit_count(n as nat),
            digit_count(n as nat) <= 20,
        decreases rest,
    {
        rest = rest / 10;
        count = count + 1;
    }
    count
}

/// Reads a string of digits, unless the number is above `max`.
pub fn read_digits(s: &[u8], max: u64) -> (value: Option<u64>)
    requires
        all_digits(s@),
    ensures
        value matches Some(v) ==> v == digits_value(s@) && v <= max,
        value is None ==> digits_value(s@) > max,
{
    let mut value: u64 = 0;
    let mut i: usize = 0;
    assert(s@.take(0) =~= Seq::<u8>::empty());
    while i < s.len()
        invariant
            i <= s@.len(),
            all_digits(s@),
            value == digits_value(s@.take(i as int)),
            value <= max,
        decreases s@.len() - i,
    {
        proof {
            assert(is_digit(s@[i as int]));
            assert(s@.take(i + 1).drop_last() =~= s@.take(i as int));
            lemma_digits_prefix(s@, i + 1);
        }
        let digit: u64 = (s[i] - 48) as u64;
        if value > max / 10 {
            return None;
        }
        let tens: u64 = value * 10;
        if digit > max - tens {
            return None;
        }
        value = tens + digit;
        i = i + 1;
    }
    assert(s@.take(i as int) =~= s@);
    Some(value)
}

/// Reads an unsigned decimal number that is not above `max`.
#[verifier::loop_isolation(false)]
pub fn parse_unsigned(s: &[u8], max: u64) -> (value: Option<u64>)
    ensures
        value matches Some(v) ==> unsigned_value(s@) == Some(v as nat) && v <= max,
        value is None ==> (unsigned_value(s@) matches Some(v) ==> v > max),
{
    let start: usize = if s.len() > 0 && s[0] == 43 {
        1
    } else {
        0
    };
    let body = vstd::slice::slice_subrange(s, start, s.len());
    assert(start == 0 ==> body@ =~= s@);
    assert(start == 1 ==> body@ =~= s@.skip(1));
    if body.len() == 0 {
        return None;
    }
    let mut i: usize = 0;
    while i < body.len()
        invariant
            i <= body@.len(),
            forall|j: int| 0 <= j < i ==> is_digit(#[trigger] body@[j]),
        decreases body@.len() - i,
    {
        if body[i] < 48 || body[i] > 57 {
            assert(!is_digit(body@[i as int]));
            return None;
        }
        i = i + 1;
    }
    read_digits(body, max)
}

} // verus!
