//! Whole numbers in decimal notation.

use vstd::prelude::*;

verus! {

/// The character that stands for the digit `d`.
pub open spec fn digit_char(d: int) -> char {
    (48 + d) as char
}

/// Tells whether `c` is one of the characters from `0` to `9`.
pub open spec fn is_digit(c: char) -> bool {
    48 <= c as u32 <= 57
}

/// The number that the digit `c` stands for.
pub open spec fn digit_value(c: char) -> int {
    c as u32 - 48
}

/// `n` in decimal notation, without leading zeros.
pub open spec fn decimal(n: nat) -> Seq<char>
    decreases n,
{
    if n < 10 {
        seq![digit_char(n as int)]
    } else {
        decimal(n / 10).push(digit_char((n % 10) as int))
    }
}

/// `n` in decimal notation with its sign, which zero has too.
pub open spec fn signed_decimal(n: int) -> Seq<char> {
    if n < 0 {
        seq!['-'] + decimal((-n) as nat)
    } else {
        seq!['+'] + decimal(n as nat)
    }
}

/// The last two decimal digits of `n`.
pub open spec fn two_digits(n: int) -> Seq<char> {
    seq![digit_char(n / 10 % 10), digit_char(n % 10)]
}

/// Tells whether `s` holds digits only.
pub open spec fn all_digits(s: Seq<char>) -> bool {
    forall|i: int| 0 <= i < s.len() ==> is_digit(#[trigger] s[i])
}

/// The number that the digits `s` stand for.
pub open spec fn value(s: Seq<char>) -> int
    decreases s.len(),
{
    if s.len() == 0 {
        0
    } else {
        value(s.drop_last()) * 10 + digit_value(s.last())
    }
}

/// The digits of `s`: what follows its plus sign, if it starts with one.
pub open spec fn unsigned_part(s: Seq<char>) -> Seq<char> {
    if s.len() > 0 && s[0] == '+' {
        s.drop_first()
    } else {
        s
    }
}

/// The number that `s` denotes: an optional plus sign and at least one digit, with a
/// value that 64 bits can hold.
pub open spec fn parse_unsigned(s: Seq<char>) -> Option<u64> {
    let digits = unsigned_part(s);
    if digits.len() > 0 && all_digits(digits) && value(digits) <= u64::MAX {
        Some(value(digits) as u64)
    } else {
        None
    }
}

/// `n`, where it lies between `low` and `high`, and the nearer of the two otherwise.
pub open spec fn clamped(n: int, low: int, high: int) -> int {
    if n < low {
        low
    } else if n > high {
        high
    } else {
        n
    }
}

proof fn lemma_value_nonnegative(s: Seq<char>)
    requires
        all_digits(s),
    ensures
        value(s) >= 0,
    decreases s.len(),
{
    if s.len() > 0 {
        assert forall|i: int| 0 <= i < s.drop_last().len() implies is_digit(
            #[trigger] s.drop_last()[i],
        ) by {
            assert(s.drop_last()[i] == s[i]);
        }
        lemma_value_nonnegative(s.drop_last());
    }
}

proof fn lemma_value_prefix(s: Seq<char>, k: int)
    requires
        all_digits(s),
        0 <= k <= s.len(),
    ensures
        value(s.take(k)) <= value(s),
    decreases s.len() - k,
{
    if k == s.len() {
        assert(s.take(k) =~= s);
    } else {
        lemma_value_prefix(s, k + 1);
        assert(s.take(k + 1).drop_last() =~= s.take(k));
        assert forall|i: int| 0 <= i < s.take(k).len() implies is_digit(#[trigger] s.take(k)[i]) by {
            assert(s.take(k)[i] == s[i]);
        }
        lemma_value_nonnegative(s.take(k));
        assert(is_digit(s[k]));
    }
}

/// The decimal notation of `n` has at least one character, holds digits only and stands
/// for `n`.
pub proof fn lemma_decimal(n: nat)
    ensures
        decimal(n).len() > 0,
        all_digits(decimal(n)),
        value(decimal(n)) == n,
    decreases n,
{
    if n < 10 {
        assert(decimal(n).drop_last() =~= seq![]);
        assert(value(decimal(n)) == value(seq![]) * 10 + digit_value(decimal(n).last()));
    } else {
        lemma_decimal(n / 10);
        assert(decimal(n).drop_last() =~= decimal(n / 10));
    }
}

/// Reading the decimal notation of a number gives the number back.
pub proof fn decimal_read_back(n: u64)
    ensures
        parse_unsigned(decimal(n as nat)) == Some(n),
{
    lemma_decimal(n as nat);
    assert(is_digit(decimal(n as nat)[0]));
}

/// The character that stands for the digit `d`.
pub fn digit(d: u8) -> (r: char)
    requires
        d < 10,
    ensures
        r == digit_char(d as int),
{
    (48 + d) as char
}

/// Appends the decimal notation of `n` to `out`.
pub fn push_decimal(out: &mut String, n: u64)
    ensures
        final(out)@ == old(out)@ + decimal(n as nat),
    decreases n,
{
    if n >= 10 {
        push_decimal(out, n / 10);
    }
    let ghost head = out@;
    out.push(digit((n % 10) as u8));
    assert(out@ =~= old(out)@ + decimal(n as nat));
}

/// Appends the decimal notation of `n` with its sign to `out`.
pub fn push_signed_decimal(out: &mut String, n: i64)
    ensures
        final(out)@ == old(out)@ + signed_decimal(n as int),
{
    let ghost before = out@;
    if n < 0 {
        let size: u64 = (-(n + 1)) as u64 + 1;
        out.push('-');
        push_decimal(out, size);
    } else {
        out.push('+');
        push_decimal(out, n as u64);
    }
    assert(out@ =~= before + signed_decimal(n as int));
}

/// Appends the last two decimal digits of `n` to `out`.
pub fn push_two_digits(out: &mut String, n: u64)
    ensures
        final(out)@ == old(out)@ + two_digits(n as int),
{
    let ghost before = out@;
    out.push(digit((n / 10 % 10) as u8));
    out.push(digit((n % 10) as u8));
    assert(out@ =~= before + two_digits(n as int));
}

/// The number that `chars` denote.
pub fn read_unsigned(chars: &[char]) -> (r: Option<u64>)
    ensures
        r == parse_unsigned(chars@),
{
    let mut i: usize = 0;
    if chars.len() > 0 && chars[0] == '+' {
        i = 1;
    }
    let ghost start = i as int;
    let ghost digits = unsigned_part(chars@);
    assert(digits =~= chars@.skip(start));
    if i == chars.len() {
        return None;
    }
    let mut n: u64 = 0;
    assert(digits.take(0) =~= seq![]);
    while i < chars.len()
        invariant
            0 <= start <= i <= chars@.len(),
            digits == unsigned_part(chars@),
            digits == chars@.skip(start),
            digits.len() > 0,
            all_digits(digits.take(i - start)),
            n == value(digits.take(i - start)),
        decreases chars@.len() - i,
    {
        let c: char = chars[i];
        let code: u32 = c as u32;
        let ghost k = i - start;
        assert(digits[k] == c);
        assert(digits.take(k + 1).drop_last() =~= digits.take(k));
        if code < 48 || code > 57 {
            return None;
        }
        let d: u64 = (code - 48) as u64;
        assert(all_digits(digits.take(k + 1))) by {
            assert forall|j: int| 0 <= j < k + 1 implies is_digit(
                #[trigger] digits.take(k + 1)[j],
            ) by {
                if j < k {
                    assert(digits.take(k)[j] == digits.take(k + 1)[j]);
                }
            }
        }
        if n > (u64::MAX - d) / 10 {
            proof {
                if all_digits(digits) {
                    lemma_value_prefix(digits, k + 1);
                }
            }
            return None;
        }
        n = n * 10 + d;
        i = i + 1;
    }
    assert(digits.take(digits.len() as int) =~= digits);
    Some(n)
}

/// `n` moved into the range from `low` to `high`.
pub fn clamp(n: u64, low: u64, high: u64) -> (r: u64)
    requires
        low <= high,
    ensures
        r == clamped(n as int, low as int, high as int),
{
    if n < low {
        low
    } else if n > high {
        high
    } else {
        n
    }
}

proof fn lemma_place(n: int, i: nat)
    requires
        n >= 0,
    ensures
        vstd::arithmetic::power::pow(10, i) > 0,
        n / 10 / vstd::arithmetic::power::pow(10, i) == n / vstd::arithmetic::power::pow(10, i + 1),
{
    vstd::arithmetic::power::lemma_pow_positive(10, i);
    vstd::arithmetic::power::lemma_pow1(10);
    vstd::arithmetic::power::lemma_pow_adds(10, 1, i);
    vstd::arithmetic::div_mod::lemma_div_denominator(n, 10, vstd::arithmetic::power::pow(10, i));
}

/// The digit at each place of the decimal notation of `n`, counted from the right, is how often
/// the value of the place fits into `n`, without its tens. No place in front of the first digit
/// is needed, and the first digit is no zero unless it is the only one.
#[verifier::spinoff_prover]
pub proof fn decimal_places(n: nat, place: nat)
    requires
        place < decimal(n).len(),
    ensures
        decimal(n)[decimal(n).len() - 1 - place] as u32 == 48 + n as int
            / vstd::arithmetic::power::pow(10, place) % 10,
        n < vstd::arithmetic::power::pow(10, decimal(n).len()),
        decimal(n).len() > 1 ==> decimal(n)[0] as u32 > 48,
    decreases n,
{
    vstd::arithmetic::power::lemma_pow0(10);
    vstd::arithmetic::power::lemma_pow1(10);
    if n < 10 {
    } else {
        let rest = n / 10;
        let len = decimal(rest).len();
        lemma_decimal(rest);
        if place > 0 {
            decimal_places(rest, (place - 1) as nat);
            lemma_place(n as int, (place - 1) as nat);
        } else {
            decimal_places(rest, 0);
        }
        vstd::arithmetic::power::lemma_pow_adds(10, 1, len);
        if rest < 10 {
            assert(decimal(rest)[0] as u32 == 48 + rest);
        }
    }
}

/// A number with its sign is a sign and the decimal notation of its size.
pub proof fn sign_stands_before_the_size(n: int)
    ensures
        signed_decimal(n).len() > 1,
        signed_decimal(n)[0] == '-' <==> n < 0,
        signed_decimal(n)[0] == '+' <==> n >= 0,
        signed_decimal(n).drop_first() == decimal(
            if n < 0 {
                (-n) as nat
            } else {
                n as nat
            },
        ),
{
    let size = if n < 0 {
        (-n) as nat
    } else {
        n as nat
    };
    lemma_decimal(size);
    assert(signed_decimal(n).drop_first() =~= decimal(size));
}

/// Two digits stand for a number below one hundred.
pub proof fn two_digits_stand_for_the_number(n: int)
    requires
        0 <= n < 100,
    ensures
        two_digits(n).len() == 2,
        48 <= two_digits(n)[0] as u32 <= 57,
        48 <= two_digits(n)[1] as u32 <= 57,
        (two_digits(n)[0] as u32 - 48) * 10 + (two_digits(n)[1] as u32 - 48) == n,
{
}

/// What is appended is the notation itself, behind what was there.
pub proof fn notation_is_appended(out: &mut String, signed: &mut String, n: u64, m: i64)
    requires
        call_ensures(push_decimal, (out, n), ()),
        call_ensures(push_signed_decimal, (signed, m), ()),
    ensures
        final(out)@ == old(out)@ + decimal(n as nat),
        final(signed)@ == old(signed)@ + signed_decimal(m as int),
{
}

/// Reading one digit gives its number.
pub proof fn one_digit_is_read(c: char)
    ensures
        48 <= c as u32 <= 57 ==> parse_unsigned(seq![c]) == Some((c as u32 - 48) as u64),
        !(48 <= c as u32 <= 57) ==> parse_unsigned(seq![c]) is None,
{
    let s = seq![c];
    if c == '+' {
        assert(s.drop_first() =~= seq![]);
    } else if 48 <= c as u32 <= 57 {
        assert(s.drop_last() =~= seq![]);
        assert(value(s) == value(s.drop_last()) * 10 + digit_value(s.last()));
    } else {
        assert(!is_digit(s[0]));
    }
}

proof fn lemma_all_digits_push(s: Seq<char>, c: char)
    ensures
        all_digits(s.push(c)) <==> all_digits(s) && is_digit(c),
{
    if all_digits(s.push(c)) {
        assert forall|i: int| 0 <= i < s.len() implies is_digit(#[trigger] s[i]) by {
            assert(s.push(c)[i] == s[i]);
        }
        assert(s.push(c)[s.len() as int] == c);
    }
}

/// Each further digit makes ten times the number and the digit, as long as 64 bits can hold it;
/// any other character, and a number that is too large, makes no number of the text.
pub proof fn further_digit_is_read(s: Seq<char>, c: char)
    requires
        s.len() > 0,
        s != seq!['+'],
    ensures
        48 <= c as u32 <= 57 ==> (parse_unsigned(s) matches Some(n) ==> parse_unsigned(s.push(c))
            == if n * 10 + (c as u32 - 48) <= 0xffff_ffff_ffff_ffff {
            Some((n * 10 + (c as u32 - 48)) as u64)
        } else {
            None
        }),
        parse_unsigned(s) is None ==> parse_unsigned(s.push(c)) is None,
        !(48 <= c as u32 <= 57) ==> parse_unsigned(s.push(c)) is None,
{
    let digits = unsigned_part(s);
    let more = unsigned_part(s.push(c));
    if s[0] == '+' {
        assert(digits.len() > 0) by {
            if s.len() == 1 {
                assert(s =~= seq!['+']);
            }
        }
        assert(more =~= digits.push(c));
    }
    lemma_all_digits_push(digits, c);
    assert(more.drop_last() =~= digits);
    assert(value(more) == value(digits) * 10 + digit_value(c));
    if all_digits(digits) {
        lemma_value_nonnegative(digits);
    }
}

/// A plus sign in front of a number that starts with a digit changes nothing, and alone it is
/// no number; neither is the empty text.
pub proof fn plus_sign_is_skipped(s: Seq<char>)
    ensures
        s.len() > 0 && s[0] != '+' ==> parse_unsigned(seq!['+'] + s) == parse_unsigned(s),
        s.len() > 0 && s[0] == '+' ==> parse_unsigned(seq!['+'] + s) is None,
        parse_unsigned(seq!['+']) is None,
        parse_unsigned(seq![]) is None,
{
    assert((seq!['+'] + s).drop_first() =~= s);
    assert(seq!['+'].drop_first() =~= seq![]);
    if s.len() > 0 && s[0] == '+' {
        assert(!is_digit(s[0]));
    }
}

/// What is read from characters is the number that they denote.
pub proof fn reading_follows_the_notation(chars: &[char], r: Option<u64>)
    requires
        call_ensures(read_unsigned, (chars,), r),
    ensures
        r == parse_unsigned(chars@),
{
}

/// A number in the range stays, and any other goes to the end of the range that it lies beyond.
pub proof fn clamping_moves_only_what_lies_outside(n: u64, low: u64, high: u64, r: u64)
    requires
        low <= high,
        call_ensures(clamp, (n, low, high), r),
    ensures
        low <= r <= high,
        low <= n <= high ==> r == n,
        n < low ==> r == low,
        n > high ==> r == high,
        r == clamped(n as int, low as int, high as int),
{
}

/// One digit and two digits are those of the number that they are made from.
pub proof fn digits_are_made_from_the_number(d: u8, c: char, out: &mut String, n: u64)
    requires
        d < 10,
        call_ensures(digit, (d,), c),
        call_ensures(push_two_digits, (out, n), ()),
    ensures
        c as u32 == 48 + d,
        final(out)@ == old(out)@ + two_digits(n as int),
{
}

} // verus!
