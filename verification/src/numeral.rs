//! Integers as digit strings: reading a numeral in a radix and writing one.

use vstd::prelude::*;
use vstd::slice::slice_subrange;

verus! {

/// What `c` is worth as a digit: 0 to 9 for the decimal digits, 10 to 35 for the
/// Latin letters in either case, and 36 for every other character, which is a
/// digit in no radix.
pub open spec fn digit_value(c: char) -> int {
    if '0' <= c <= '9' {
        c as int - '0' as int
    } else if 'A' <= c <= 'Z' {
        c as int - 'A' as int + 10
    } else if 'a' <= c <= 'z' {
        c as int - 'a' as int + 10
    } else {
        36
    }
}

/// The upper-case digit that is worth `d`, for `d` below 36.
pub open spec fn digit_char(d: int) -> char {
    if d < 10 {
        ('0' as int + d) as char
    } else {
        ('A' as int + d - 10) as char
    }
}

/// A digit is worth what it was made for.
pub proof fn lemma_digit_char(d: int)
    requires
        0 <= d < 36,
    ensures
        digit_value(digit_char(d)) == d,
{
}

/// `s` is one digit or more, each a digit of `radix`.
pub open spec fn is_numeral(s: Seq<char>, radix: int) -> bool {
    &&& s.len() > 0
    &&& forall|i: int| 0 <= i < s.len() ==> digit_value(#[trigger] s[i]) < radix
}

/// The number that the digits `s` spell in `radix`, most significant digit first.
pub open spec fn numeral_value(s: Seq<char>, radix: int) -> int
    decreases s.len(),
{
    if s.len() == 0 {
        0
    } else {
        numeral_value(s.drop_last(), radix) * radix + digit_value(s.last())
    }
}

/// What `s` reads as when an unsigned integer up to `max` is expected: an
/// optional `+`, then a numeral of `radix` whose value is at most `max`.
pub open spec fn unsigned_reading(s: Seq<char>, radix: int, max: int) -> Option<int> {
    let digits = if s.len() > 0 && s[0] == '+' {
        s.skip(1)
    } else {
        s
    };
    if is_numeral(digits, radix) && numeral_value(digits, radix) <= max {
        Some(numeral_value(digits, radix))
    } else {
        None
    }
}

/// What `s` reads as when a signed integer from `min` to `max` is expected: a
/// `-` and a numeral whose negation is at least `min`, or an unsigned reading
/// up to `max`.
pub open spec fn signed_reading(s: Seq<char>, radix: int, min: int, max: int) -> Option<int> {
    if s.len() > 0 && s[0] == '-' {
        let digits = s.skip(1);
        if is_numeral(digits, radix) && min <= -numeral_value(digits, radix) {
            Some(-numeral_value(digits, radix))
        } else {
            None
        }
    } else {
        unsigned_reading(s, radix, max)
    }
}

/// A numeral's value is never negative, and no prefix of it is worth more than
/// the whole.
pub proof fn lemma_prefix_value(s: Seq<char>, radix: int, k: int)
    requires
        radix >= 1,
        0 <= k <= s.len(),
    ensures
        0 <= numeral_value(s.take(k), radix) <= numeral_value(s, radix),
    decreases s.len(),
{
    if k == s.len() {
        assert(s.take(k) =~= s);
        if s.len() > 0 {
            lemma_prefix_value(s.drop_last(), radix, k - 1);
            let v = numeral_value(s.drop_last(), radix);
            assert(0 <= v * radix) by (nonlinear_arith)
                requires
                    0 <= v,
                    radix >= 1,
            ;
        }
    } else {
        assert(s.drop_last().take(k) =~= s.take(k));
        lemma_prefix_value(s.drop_last(), radix, k);
        let v = numeral_value(s.drop_last(), radix);
        assert(v <= v * radix) by (nonlinear_arith)
            requires
                0 <= v,
                radix >= 1,
        ;
    }
}

/// What is read lies in the range that was asked for.
pub proof fn lemma_reading_range(s: Seq<char>, radix: int, min: int, max: int)
    requires
        radix >= 1,
        min <= 0 <= max,
    ensures
        unsigned_reading(s, radix, max) matches Some(n) ==> (0 <= n <= max),
        signed_reading(s, radix, min, max) matches Some(n) ==> (min <= n <= max),
{
    lemma_prefix_value(s, radix, 0);
    lemma_prefix_value(s.skip(1), radix, 0);
}

/// The worth of `c` as a digit.
pub fn digit_of(c: char) -> (d: u64)
    ensures
        d == digit_value(c),
{
    if '0' <= c && c <= '9' {
        (c as u32 - '0' as u32) as u64
    } else if 'A' <= c && c <= 'Z' {
        (c as u32 - 'A' as u32) as u64 + 10
    } else if 'a' <= c && c <= 'z' {
        (c as u32 - 'a' as u32) as u64 + 10
    } else {
        36
    }
}

/// Reads the digits `s` as a number of `radix` that is at most `max`.
pub fn parse_digits(s: &[char], radix: u64, max: u64) -> (r: Option<u64>)
    requires
        2 <= radix <= 36,
    ensures
        match r {
            Some(v) => is_numeral(s@, radix as int) && numeral_value(s@, radix as int) == v && v
                <= max,
            None => !is_numeral(s@, radix as int) || numeral_value(s@, radix as int) > max,
        },
{
    if s.len() == 0 {
        return None;
    }
    let mut value: u64 = 0;
    let mut i: usize = 0;
    while i < s.len()
        invariant
            2 <= radix <= 36,
            i <= s.len(),
            value <= max,
            value == numeral_value(s@.take(i as int), radix as int),
            forall|j: int| 0 <= j < i ==> digit_value(#[trigger] s@[j]) < radix,
        decreases s.len() - i,
    {
        let d = digit_of(s[i]);
        if d >= radix {
            return None;
        }
        proof {
            assert(s@.take(i + 1).drop_last() =~= s@.take(i as int));
            assert(value * radix <= 0xffff_ffff_ffff_ffff * 36) by (nonlinear_arith)
                requires
                    value <= 0xffff_ffff_ffff_ffff,
                    radix <= 36,
            ;
        }
        let next: u128 = value as u128 * radix as u128 + d as u128;
        if next > max as u128 {
            proof {
                if is_numeral(s@, radix as int) {
                    lemma_prefix_value(s@, radix as int, i + 1);
                }
            }
            return None;
        }
        value = next as u64;
        i += 1;
    }
    proof {
        assert(s@.take(i as int) =~= s@);
    }
    Some(value)
}

/// Reads `s` as an unsigned integer of `radix` that is at most `max`.
pub fn parse_unsigned(s: &[char], radix: u64, max: u64) -> (r: Option<u64>)
    requires
        2 <= radix <= 36,
    ensures
        match r {
            Some(v) => unsigned_reading(s@, radix as int, max as int) == Some(v as int),
            None => unsigned_reading(s@, radix as int, max as int) is None,
        },
{
    if s.len() > 0 && s[0] == '+' {
        let digits = slice_subrange(s, 1, s.len());
        assert(digits@ =~= s@.skip(1));
        parse_digits(digits, radix, max)
    } else {
        parse_digits(s, radix, max)
    }
}

/// Reads `s` as a signed 64-bit integer of `radix`.
pub fn parse_signed(s: &[char], radix: u64) -> (r: Option<i64>)
    requires
        2 <= radix <= 36,
    ensures
        match r {
            Some(v) => signed_reading(s@, radix as int, i64::MIN as int, i64::MAX as int) == Some(
                v as int,
            ),
            None => signed_reading(s@, radix as int, i64::MIN as int, i64::MAX as int) is None,
        },
{
    if s.len() > 0 && s[0] == '-' {
        let digits = slice_subrange(s, 1, s.len());
        assert(digits@ =~= s@.skip(1));
        match parse_digits(digits, radix, 0x8000_0000_0000_0000) {
            Some(magnitude) => {
                if magnitude == 0x8000_0000_0000_0000 {
                    Some(i64::MIN)
                } else {
                    Some(-(magnitude as i64))
                }
            },
            None => None,
        }
    } else {
        match parse_unsigned(s, radix, 0x7fff_ffff_ffff_ffff) {
            Some(value) => Some(value as i64),
            None => None,
        }
    }
}

/// The numeral of `n` in `radix`: its digits, most significant first, with no
/// leading zero; the single digit `0` for zero.
pub open spec fn numeral(n: nat, radix: nat) -> Seq<char>
    decreases n,
{
    if radix < 2 || n < radix {
        seq![digit_char(n as int)]
    } else {
        proof {
            assert(n / radix < n) by (nonlinear_arith)
                requires
                    radix >= 2,
                    n >= radix,
            ;
        }
        numeral(n / radix, radix).push(digit_char((n % radix) as int))
    }
}

/// The last `width` digits of `n` in `radix`, with zeros in front where `n` has
/// fewer: the whole of `n` where it is below `radix` to the power `width`.
pub open spec fn fixed_numeral(n: nat, radix: nat, width: nat) -> Seq<char>
    decreases width,
{
    if width == 0 || radix == 0 {
        Seq::empty()
    } else {
        fixed_numeral(n / radix, radix, (width - 1) as nat).push(digit_char((n % radix) as int))
    }
}

/// The text of `n` in `radix`: its numeral, and for a negative number `-`
/// and the numeral of what it is below zero.
pub open spec fn signed_numeral(n: int, radix: nat) -> Seq<char> {
    if n < 0 {
        seq!['-'] + numeral((-n) as nat, radix)
    } else {
        numeral(n as nat, radix)
    }
}

/// The decimal text of `n`, with `-` in front of a negative number.
pub open spec fn decimal(n: int) -> Seq<char> {
    signed_numeral(n, 10)
}

/// The upper-case digit that is worth `d`.
pub fn char_of_digit(d: u64) -> (c: char)
    requires
        d < 36,
    ensures
        c == digit_char(d as int),
        digit_value(c) == d,
{
    if d < 10 {
        ('0' as u8 + d as u8) as char
    } else {
        ('A' as u8 + (d as u8 - 10)) as char
    }
}

/// Appends the numeral of `n` in `radix` to `out`.
pub fn push_numeral(out: &mut String, n: u64, radix: u64)
    requires
        2 <= radix <= 36,
    ensures
        final(out)@ == old(out)@ + numeral(n as nat, radix as nat),
    decreases n,
{
    if n >= radix {
        assert(n / radix < n) by (nonlinear_arith)
            requires
                radix >= 2,
                n >= radix,
        ;
        push_numeral(out, n / radix, radix);
        out.push(char_of_digit(n % radix));
    } else {
        out.push(char_of_digit(n));
    }
    proof {
        assert(out@ =~= old(out)@ + numeral(n as nat, radix as nat));
    }
}

/// Appends the last `width` digits of `n` in `radix` to `out`, zeros in front.
pub fn push_fixed_numeral(out: &mut String, n: u64, radix: u64, width: usize)
    requires
        2 <= radix <= 36,
    ensures
        final(out)@ == old(out)@ + fixed_numeral(n as nat, radix as nat, width as nat),
    decreases width,
{
    if width > 0 {
        push_fixed_numeral(out, n / radix, radix, width - 1);
        out.push(char_of_digit(n % radix));
    }
    proof {
        assert(out@ =~= old(out)@ + fixed_numeral(n as nat, radix as nat, width as nat));
    }
}

/// Appends the text of `n` in `radix` to `out`, with `-` in front of a
/// negative number.
pub fn push_signed_numeral(out: &mut String, n: i64, radix: u64)
    requires
        2 <= radix <= 36,
    ensures
        final(out)@ == old(out)@ + signed_numeral(n as int, radix as nat),
{
    if n < 0 {
        out.push('-');
        let magnitude: u64 = if n == i64::MIN {
            0x8000_0000_0000_0000
        } else {
            (-n) as u64
        };
        push_numeral(out, magnitude, radix);
    } else {
        push_numeral(out, n as u64, radix);
    }
    proof {
        assert(out@ =~= old(out)@ + signed_numeral(n as int, radix as nat));
    }
}

/// Appends the decimal text of `n` to `out`.
pub fn push_decimal(out: &mut String, n: i64)
    ensures
        final(out)@ == old(out)@ + decimal(n as int),
{
    push_signed_numeral(out, n, 10);
}

/// Appending a digit to a numeral multiplies its value by the radix and adds
/// the digit's worth.
pub proof fn lemma_value_push(s: Seq<char>, c: char, radix: int)
    ensures
        numeral_value(s.push(c), radix) == numeral_value(s, radix) * radix + digit_value(c),
{
    assert(s.push(c).drop_last() =~= s);
}

/// Writing then reading: the numeral of `n` in `radix` is a numeral of that
/// radix, begins with neither sign, and is worth `n`.
pub proof fn lemma_numeral_value(n: nat, radix: nat)
    requires
        2 <= radix <= 36,
    ensures
        is_numeral(numeral(n, radix), radix as int),
        numeral_value(numeral(n, radix), radix as int) == n,
        numeral(n, radix)[0] != '+',
        numeral(n, radix)[0] != '-',
    decreases n,
{
    if n < radix {
        lemma_value_push(Seq::empty(), digit_char(n as int), radix as int);
        assert(numeral(n, radix) =~= Seq::<char>::empty().push(digit_char(n as int)));
        assert(0 * (radix as int) == 0);
    } else {
        let high = n / radix;
        let low = n % radix;
        assert(high < n && high * radix + low == n && 0 <= low < radix) by (nonlinear_arith)
            requires
                radix >= 2,
                n >= radix,
                high == n / radix,
                low == n % radix,
        ;
        lemma_numeral_value(high, radix);
        lemma_value_push(numeral(high, radix), digit_char(low as int), radix as int);
    }
}

/// Reading then writing: a numeral in upper-case digits with no needless
/// leading zero is the numeral of its own value.
pub proof fn lemma_value_numeral(s: Seq<char>, radix: nat)
    requires
        2 <= radix <= 36,
        is_numeral(s, radix as int),
        s.len() == 1 || s[0] != '0',
        forall|i: int| 0 <= i < s.len() ==> digit_char(digit_value(#[trigger] s[i])) == s[i],
    ensures
        numeral_value(s, radix as int) >= 0,
        numeral(numeral_value(s, radix as int) as nat, radix) == s,
    decreases s.len(),
{
    let front = s.drop_last();
    let low = digit_value(s.last());
    lemma_prefix_value(s, radix as int, 0);
    if s.len() == 1 {
        assert(front =~= Seq::<char>::empty());
        assert(0 * (radix as int) == 0);
        assert(numeral(low as nat, radix) =~= s);
    } else {
        lemma_value_numeral(front, radix);
        lemma_prefix_value(front, radix as int, 1);
        lemma_value_push(Seq::empty(), front[0], radix as int);
        assert(front.take(1) =~= Seq::<char>::empty().push(front[0]));
        assert(0 * (radix as int) == 0);
        let high = numeral_value(front, radix as int);
        assert(high >= 1);
        let n = high * radix + low;
        assert(n >= radix && n / (radix as int) == high && n % (radix as int) == low)
            by (nonlinear_arith)
            requires
                radix >= 2,
                high >= 1,
                0 <= low < radix,
                n == high * radix + low,
        ;
        assert(numeral(n as nat, radix) =~= s);
    }
}

/// An unsigned numeral reads back as the number that it was written for.
pub proof fn lemma_unsigned_round_trip(n: nat, radix: nat, max: int)
    requires
        2 <= radix <= 36,
        n <= max,
    ensures
        unsigned_reading(numeral(n, radix), radix as int, max) == Some(n as int),
{
    lemma_numeral_value(n, radix);
}

/// A signed text reads back as the number that it was written for.
pub proof fn lemma_signed_round_trip(n: int, radix: nat, min: int, max: int)
    requires
        2 <= radix <= 36,
        min <= n <= max,
    ensures
        signed_reading(signed_numeral(n, radix), radix as int, min, max) == Some(n),
{
    if n < 0 {
        lemma_numeral_value((-n) as nat, radix);
        assert(signed_numeral(n, radix).skip(1) =~= numeral((-n) as nat, radix));
    } else {
        lemma_numeral_value(n as nat, radix);
    }
}

/// The numeral of a number other than zero does not begin with a zero.
pub proof fn lemma_numeral_leading(n: nat, radix: nat)
    requires
        2 <= radix <= 36,
        n >= 1,
    ensures
        numeral(n, radix)[0] != '0',
    decreases n,
{
    if n >= radix {
        let high = n / radix;
        assert(1 <= high < n) by (nonlinear_arith)
            requires
                radix >= 2,
                n >= radix,
                high == n / radix,
        ;
        lemma_numeral_leading(high, radix);
        lemma_numeral_value(high, radix);
    }
}

/// `n` has no more than `width` digits in `radix`.
pub open spec fn fits(n: nat, radix: nat, width: nat) -> bool
    decreases width,
{
    if width == 0 || radix == 0 {
        n == 0
    } else {
        fits(n / radix, radix, (width - 1) as nat)
    }
}

/// A fixed numeral has the width asked for and holds digits of its radix
/// only; where the number fits the width, the numeral is worth the number.
pub proof fn lemma_fixed_numeral(n: nat, radix: nat, width: nat)
    requires
        2 <= radix <= 36,
    ensures
        fixed_numeral(n, radix, width).len() == width,
        forall|i: int|
            0 <= i < width ==> digit_value(#[trigger] fixed_numeral(n, radix, width)[i]) < radix,
        fits(n, radix, width) ==> numeral_value(fixed_numeral(n, radix, width), radix as int)
            == n,
    decreases width,
{
    if width > 0 {
        let high = n / radix;
        let low = n % radix;
        assert(high * radix + low == n && 0 <= low < radix) by (nonlinear_arith)
            requires
                radix >= 2,
                high == n / radix,
                low == n % radix,
        ;
        lemma_fixed_numeral(high, radix, (width - 1) as nat);
        lemma_value_push(
            fixed_numeral(high, radix, (width - 1) as nat),
            digit_char(low as int),
            radix as int,
        );
    }
}

} // verus!
