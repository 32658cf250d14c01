//! Durations, counted in thousandths of an hour.

use vstd::prelude::*;
use crate::digits::all_digits;
use crate::digits::decimal;
use crate::digits::decimal_is_read_back;
use crate::digits::is_digit;
use crate::digits::number_below_power;
use crate::digits::number_is_not_negative;
use crate::digits::number_of;
use crate::digits::padded;
use crate::digits::padded_is_read_back;
use crate::digits::parse_number;
use crate::digits::pow10;
use crate::digits::push_decimal;
use crate::digits::push_padded;
use crate::digits::value_of;
use crate::text::chars_of;
use crate::text::string_of;

verus! {

/// A span of working time in thousandths of an hour: 2500 is two and a
/// half hours. The value may be zero or negative; the log accepts only
/// positive ones.
#[derive(Clone, Copy, Debug, PartialEq, Eq, Structural)]
pub struct Hours {
    pub millis: i64,
}

impl Hours {
    /// The duration of `millis` thousandths of an hour.
    pub fn from_millis(millis: i64) -> (h: Hours)
        ensures
            h.millis == millis,
    {
        Hours { millis }
    }

    /// Whether the duration is more than nothing.
    pub open spec fn is_positive_spec(self) -> bool {
        self.millis > 0
    }

    /// Whether the duration is more than nothing.
    #[verifier::when_used_as_spec(is_positive_spec)]
    pub fn is_positive(self) -> (r: bool)
        ensures
            r == (self.millis > 0),
    {
        self.millis > 0
    }
}

/// The size of a duration, whatever its sign, in thousandths of an hour.
pub open spec fn magnitude(h: Hours) -> nat {
    if h.millis < 0 {
        (-h.millis) as nat
    } else {
        h.millis as nat
    }
}

/// A duration as text: a minus sign if it is negative, the whole hours, a
/// point, and the thousandths in three digits. Two and a half hours are
/// `2.500`.
pub open spec fn hours_text(h: Hours) -> Seq<char> {
    let body = decimal(magnitude(h) / 1000) + seq!['.'] + padded(magnitude(h) % 1000, 3);
    if h.millis < 0 {
        seq!['-'] + body
    } else {
        body
    }
}

/// How many digits `s` begins with.
pub open spec fn leading_digits(s: Seq<char>) -> nat
    decreases s.len(),
{
    if s.len() > 0 && is_digit(s[0]) {
        1 + leading_digits(s.skip(1))
    } else {
        0
    }
}

/// The thousandths that an unsigned decimal number stands for: digits,
/// and after them nothing more, or a point and one to three digits.
pub open spec fn thousandths(body: Seq<char>) -> Option<int> {
    let k = leading_digits(body) as int;
    let whole = body.take(k);
    let rest = body.skip(k);
    if k == 0 {
        None
    } else if rest.len() == 0 {
        Some(number_of(whole) * 1000)
    } else if rest[0] == '.' && 2 <= rest.len() <= 4 && all_digits(rest.skip(1)) {
        Some(number_of(whole) * 1000 + number_of(rest.skip(1)) * pow10((4 - rest.len()) as nat))
    } else {
        None
    }
}

/// The duration that a text stands for, if it stands for one: a decimal
/// number of hours with at most three digits after the point, with a
/// minus sign in front for a negative one, within what `Hours` can hold.
pub open spec fn hours_value(text: Seq<char>) -> Option<Hours> {
    let negative = text.len() > 0 && text[0] == '-';
    let body = if negative {
        text.skip(1)
    } else {
        text
    };
    match thousandths(body) {
        None => None,
        Some(m) => {
            let v = if negative {
                -m
            } else {
                m
            };
            if i64::MIN <= v <= i64::MAX {
                Some(Hours { millis: v as i64 })
            } else {
                None
            }
        },
    }
}

/// A text that begins with `k` digits, and goes on with something else
/// or ends there, has `k` leading digits.
pub proof fn leading_digits_found(s: Seq<char>, k: int)
    requires
        0 <= k <= s.len(),
        all_digits(s.take(k)),
        k == s.len() || !is_digit(s[k]),
    ensures
        leading_digits(s) == k,
    decreases k,
{
    if k > 0 {
        assert(is_digit(s.take(k)[0]));
        let t = s.skip(1);
        assert(t.take(k - 1) =~= s.take(k).skip(1));
        assert forall|i: int| 0 <= i < t.take(k - 1).len() implies is_digit(
            #[trigger] t.take(k - 1)[i],
        ) by {
            assert(t.take(k - 1)[i] == s.take(k)[i + 1]);
        }
        leading_digits_found(t, k - 1);
    }
}

/// Reading the text of a duration gives the duration back.
pub proof fn hours_text_is_read_back(h: Hours)
    ensures
        hours_value(hours_text(h)) == Some(h),
{
    let m = magnitude(h);
    let whole = decimal(m / 1000);
    let part = padded(m % 1000, 3);
    let body = whole + seq!['.'] + part;
    let text = hours_text(h);
    let k = whole.len() as int;
    decimal_is_read_back(m / 1000);
    padded_is_read_back(m % 1000, 3);
    assert(pow10(3) == 1000 && pow10(0) == 1) by {
        reveal_with_fuel(pow10, 4);
    }
    assert(is_digit(whole[0]));
    assert(body[0] == whole[0]);
    if h.millis < 0 {
        assert(text.skip(1) =~= body);
    } else {
        assert(text[0] == body[0]);
    }
    assert(body.take(k) =~= whole);
    assert(body[k] == '.');
    leading_digits_found(body, k);
    let rest = body.skip(k);
    assert(rest.skip(1) =~= part);
    assert(rest.len() == 4);
    assert(rest[0] == '.');
    assert(leading_digits(body) as int == k);
    assert(number_of(body.take(k)) == m / 1000);
    assert(number_of(rest.skip(1)) == m % 1000);
    assert(pow10((4 - rest.len()) as nat) == 1);
    assert(all_digits(rest.skip(1)));
    assert(thousandths(body) == Some(m as int));
}

impl Hours {
    /// Reads a duration from the characters `chars`.
    pub fn parse_chars(chars: &Vec<char>) -> (r: Option<Hours>)
        ensures
            r == hours_value(chars@),
    {
        let n = chars.len();
        let negative = n > 0 && chars[0] == '-';
        let start: usize = if negative {
            1
        } else {
            0
        };
        let ghost body = chars@.skip(start as int);
        let mut i: usize = start;
        proof {
            assert(body.take(0) =~= Seq::<char>::empty());
            assert(chars@.skip(0) =~= chars@);
        }
        while i < n && value_of(chars[i]).is_some()
            invariant
                start <= i <= n == chars.len(),
                body == chars@.skip(start as int),
                all_digits(body.take(i - start)),
            decreases n - i,
        {
            proof {
                let longer = body.take(i - start + 1);
                assert forall|k: int| 0 <= k < longer.len() implies is_digit(
                    #[trigger] longer[k],
                ) by {
                    if k < i - start {
                        assert(longer[k] == body.take(i - start)[k]);
                    }
                }
            }
            i = i + 1;
        }
        proof {
            leading_digits_found(body, i - start);
            assert(body.take(i - start) =~= chars@.subrange(start as int, i as int));
        }
        if i == start {
            return None;
        }
        let ghost rest = body.skip(i - start);
        let ghost whole_text = chars@.subrange(start as int, i as int);
        proof {
            assert(rest.len() == n - i);
            assert(pow10(0) == 1 && pow10(1) == 10 && pow10(2) == 100 && pow10(3) == 1000) by {
                reveal_with_fuel(pow10, 4);
            }
            number_is_not_negative(whole_text);
        }
        let whole = parse_number(chars, start, i);
        let mut part: u64 = 0;
        if i < n {
            proof {
                assert(rest[0] == chars@[i as int]);
                assert(rest.skip(1) =~= chars@.subrange(i + 1, n as int));
            }
            if chars[i] != '.' || n - i < 2 || n - i > 4 {
                return None;
            }
            proof {
                if all_digits(rest.skip(1)) {
                    number_below_power(rest.skip(1));
                }
            }
            match parse_number(chars, i + 1, n) {
                None => {
                    return None;
                },
                Some(f) => {
                    let scale: u64 = if n - i == 2 {
                        100
                    } else if n - i == 3 {
                        10
                    } else {
                        1
                    };
                    proof {
                        let digits = rest.skip(1);
                        assert(digits.len() == n - i - 1);
                        assert(f == number_of(digits));
                        assert(pow10(digits.len()) * scale == 1000);
                        assert(scale == pow10((4 - rest.len()) as nat));
                        assert(f * scale < 1000) by (nonlinear_arith)
                            requires
                                f < pow10(digits.len()),
                                pow10(digits.len()) * scale == 1000,
                                scale > 0,
                        ;
                    }
                    part = f * scale;
                },
            }
        }
        proof {
            assert(leading_digits(body) == i - start);
            assert(body.take(i - start) == whole_text);
            if i < n {
                assert(rest[0] == '.');
                assert(all_digits(rest.skip(1)));
                assert(number_of(rest.skip(1)) * pow10((4 - rest.len()) as nat) == part);
            }
        }
        assert(thousandths(body) == Some(number_of(whole_text) * 1000 + part as int));
        match whole {
            None => None,
            Some(w) => {
                let m: u128 = w as u128 * 1000 + part as u128;
                if negative {
                    if m > 0x8000_0000_0000_0000u128 {
                        None
                    } else if m == 0x8000_0000_0000_0000u128 {
                        Some(Hours { millis: i64::MIN })
                    } else {
                        Some(Hours { millis: -(m as i64) })
                    }
                } else {
                    if m > 0x7fff_ffff_ffff_ffffu128 {
                        None
                    } else {
                        Some(Hours { millis: m as i64 })
                    }
                }
            },
        }
    }

    /// Reads a duration from `text`.
    pub fn parse(text: &str) -> (r: Option<Hours>)
        ensures
            r == hours_value(text@),
    {
        let chars = chars_of(text);
        Hours::parse_chars(&chars)
    }

    /// Appends the text of the duration to `out`.
    pub fn push_text(self, out: &mut Vec<char>)
        ensures
            final(out)@ == old(out)@ + hours_text(self),
    {
        let m: u64 = if self.millis >= 0 {
            self.millis as u64
        } else {
            (-(self.millis + 1)) as u64 + 1
        };
        if self.millis < 0 {
            out.push('-');
        }
        push_decimal(out, m / 1000);
        out.push('.');
        push_padded(out, m % 1000, 3);
        proof {
            assert(out@ =~= old(out)@ + hours_text(self));
        }
    }

    /// The text of the duration.
    pub fn render(self) -> (r: String)
        ensures
            r@ == hours_text(self),
    {
        let mut out: Vec<char> = Vec::new();
        self.push_text(&mut out);
        proof {
            assert(out@ =~= hours_text(self));
        }
        string_of(&out)
    }
}

} // verus!
