//! Decimal digits: numbers as text and text as numbers.

use vstd::prelude::*;

verus! {

/// Whether `c` is one of the ten digits.
pub open spec fn is_digit(c: char) -> bool {
    '0' <= c <= '9'
}

/// The digit that stands for `d`, for `d` from 0 to 9.
pub open spec fn digit_char(d: int) -> char {
    (d + 48) as char
}

/// The number that the digit `c` stands for.
pub open spec fn digit_value(c: char) -> int {
    c as int - 48
}

/// The digit that stands for `d`.
pub fn digit_of(d: u8) -> (c: char)
    requires
        d < 10,
    ensures
        c == digit_char(d as int),
        is_digit(c),
        digit_value(c) == d,
{
    (d + 48) as char
}

/// The number that the digit `c` stands for, if `c` is a digit.
pub fn value_of(c: char) -> (r: Option<u8>)
    ensures
        r is Some <==> is_digit(c),
        r matches Some(d) ==> d == digit_value(c) && d < 10 && digit_char(d as int) == c,
{
    if '0' <= c && c <= '9' {
        Some((c as u32 - 48) as u8)
    } else {
        None
    }
}

/// Whether `s` holds digits and nothing else.
pub open spec fn all_digits(s: Seq<char>) -> bool {
    forall|i: int| 0 <= i < s.len() ==> is_digit(#[trigger] s[i])
}

/// The number that a string of digits stands for; 0 for the empty string.
pub open spec fn number_of(s: Seq<char>) -> int
    decreases s.len(),
{
    if s.len() == 0 {
        0
    } else {
        number_of(s.drop_last()) * 10 + digit_value(s.last())
    }
}

/// The digits of `n`, without leading zeros; one zero for 0.
pub open spec fn decimal(n: nat) -> Seq<char>
    decreases n,
{
    if n < 10 {
        seq![digit_char(n as int)]
    } else {
        decimal(n / 10).push(digit_char((n % 10) as int))
    }
}

/// The last `width` digits of `n`, with zeros in front where `n` has
/// fewer.
pub open spec fn padded(n: nat, width: nat) -> Seq<char>
    decreases width,
{
    if width == 0 {
        Seq::empty()
    } else {
        padded(n / 10, (width - 1) as nat).push(digit_char((n % 10) as int))
    }
}

/// Ten to the power of `e`.
pub open spec fn pow10(e: nat) -> nat
    decreases e,
{
    if e == 0 {
        1
    } else {
        10 * pow10((e - 1) as nat)
    }
}

/// A string of digits stands for a number that is not negative, and a
/// longer string that begins with it stands for a number at least as large.
pub proof fn number_of_grows(s: Seq<char>, k: int)
    requires
        all_digits(s),
        0 <= k <= s.len(),
    ensures
        0 <= number_of(s.take(k)) <= number_of(s),
    decreases s.len() - k,
{
    if k == s.len() {
        assert(s.take(k) =~= s);
        number_is_not_negative(s);
    } else {
        number_of_grows(s, k + 1);
        let t = s.take(k + 1);
        assert(t.drop_last() =~= s.take(k));
        assert(is_digit(s[k]));
        assert(t.last() == s[k]);
        number_is_not_negative(s.take(k));
    }
}

/// A string of digits stands for a number that is not negative.
pub proof fn number_is_not_negative(s: Seq<char>)
    requires
        all_digits(s),
    ensures
        0 <= number_of(s),
    decreases s.len(),
{
    if s.len() > 0 {
        number_is_not_negative(s.drop_last());
        assert(is_digit(s[s.len() - 1]));
    }
}

/// A string of digits stands for a number below ten to the power of its
/// length.
pub proof fn number_below_power(s: Seq<char>)
    requires
        all_digits(s),
    ensures
        0 <= number_of(s) < pow10(s.len()),
    decreases s.len(),
{
    if s.len() > 0 {
        number_below_power(s.drop_last());
        assert(is_digit(s[s.len() - 1]));
    }
}

/// The digits of a number stand for that number.
pub proof fn decimal_is_read_back(n: nat)
    ensures
        decimal(n).len() >= 1,
        all_digits(decimal(n)),
        number_of(decimal(n)) == n,
    decreases n,
{
    if n < 10 {
        let s = decimal(n);
        assert(s.drop_last() =~= Seq::<char>::empty());
        assert(number_of(s.drop_last()) == 0);
    } else {
        decimal_is_read_back(n / 10);
        let s = decimal(n);
        assert(s.drop_last() =~= decimal(n / 10));
    }
}

/// The last `width` digits of a number that has no more than `width`
/// digits stand for that number.
pub proof fn padded_is_read_back(n: nat, width: nat)
    ensures
        padded(n, width).len() == width,
        all_digits(padded(n, width)),
        n < pow10(width) ==> number_of(padded(n, width)) == n,
    decreases width,
{
    if width > 0 {
        padded_is_read_back(n / 10, (width - 1) as nat);
        let s = padded(n, width);
        assert(s.drop_last() =~= padded(n / 10, (width - 1) as nat));
    }
}

/// Appends the digits of `n` to `out`.
pub fn push_decimal(out: &mut Vec<char>, n: u64)
    ensures
        final(out)@ == old(out)@ + decimal(n as nat),
    decreases n,
{
    if n >= 10 {
        push_decimal(out, n / 10);
    }
    out.push(digit_of((n % 10) as u8));
    proof {
        assert(out@ =~= old(out)@ + decimal(n as nat));
    }
}

/// Appends the last `width` digits of `n` to `out`, with zeros in front
/// where `n` has fewer.
pub fn push_padded(out: &mut Vec<char>, n: u64, width: u8)
    ensures
        final(out)@ == old(out)@ + padded(n as nat, width as nat),
    decreases width,
{
    if width > 0 {
        push_padded(out, n / 10, width - 1);
        out.push(digit_of((n % 10) as u8));
        proof {
            assert(out@ =~= old(out)@ + padded(n as nat, width as nat));
        }
    } else {
        proof {
            assert(out@ =~= old(out)@ + padded(n as nat, width as nat));
        }
    }
}

/// Reads the number that the characters of `s` from `from` up to `to`
/// stand for. There is none where that stretch is empty, holds anything
/// but digits, or stands for a number beyond 64 bits.
pub fn parse_number(s: &Vec<char>, from: usize, to: usize) -> (r: Option<u64>)
    requires
        from <= to <= s.len(),
    ensures
        r is Some <==> from < to && all_digits(s@.subrange(from as int, to as int)) && number_of(
            s@.subrange(from as int, to as int),
        ) <= u64::MAX,
        r matches Some(v) ==> v == number_of(s@.subrange(from as int, to as int)),
{
    if from == to {
        return None;
    }
    let ghost text = s@.subrange(from as int, to as int);
    let mut acc: u64 = 0;
    let mut i: usize = from;
    proof {
        assert(text.take(0) =~= Seq::<char>::empty());
    }
    while i < to
        invariant
            from <= i <= to <= s.len(),
            text == s@.subrange(from as int, to as int),
            all_digits(text.take(i - from)),
            acc == number_of(text.take(i - from)),
        decreases to - i,
    {
        let ghost prefix = text.take(i - from + 1);
        proof {
            assert(prefix.drop_last() =~= text.take(i - from));
            assert(prefix.last() == s@[i as int]);
        }
        match value_of(s[i]) {
            None => {
                proof {
                    assert(text[i - from] == s@[i as int]);
                }
                return None;
            },
            Some(d) => {
                proof {
                    assert forall|k: int| 0 <= k < prefix.len() implies is_digit(
                        #[trigger] prefix[k],
                    ) by {
                        if k < i - from {
                            assert(prefix[k] == text.take(i - from)[k]);
                        }
                    }
                }
                if acc > (u64::MAX - d as u64) / 10 {
                    proof {
                        if all_digits(text) {
                            number_of_grows(text, i - from + 1);
                        }
                    }
                    return None;
                }
                acc = acc * 10 + d as u64;
            },
        }
        i = i + 1;
    }
    proof {
        assert(text.take(to - from) =~= text);
    }
    Some(acc)
}

} // verus!
