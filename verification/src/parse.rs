use vstd::prelude::*;

verus! {

/// Whether a character is a decimal digit.
pub open spec fn is_digit(c: char) -> bool {
    48 <= c as u32 <= 57
}

/// The numeric value of a decimal digit character.
pub open spec fn digit_val(c: char) -> int {
    c as u32 - 48
}

/// The magnitude a digit string denotes in decimal.
pub open spec fn mag_of(s: Seq<char>) -> int
    decreases s.len(),
{
    if s.len() == 0 {
        0
    } else {
        10 * mag_of(s.drop_last()) + digit_val(s.last())
    }
}

/// Whether every character of a string is a decimal digit.
pub open spec fn all_digits(s: Seq<char>) -> bool {
    forall|i: int| 0 <= i < s.len() ==> is_digit(#[trigger] s[i])
}

/// A digit string's magnitude is never negative.
pub proof fn lemma_mag_nonneg(s: Seq<char>)
    requires
        all_digits(s),
    ensures
        mag_of(s) >= 0,
    decreases s.len(),
{
    if s.len() > 0 {
        assert(all_digits(s.drop_last()));
        lemma_mag_nonneg(s.drop_last());
    }
}

/// What a signed decimal string denotes: an optional single `+` or `-`
/// sign, then one or more decimal digits and nothing else, with the value
/// inside the `i32` range. Anything else — an empty string, a stray
/// character, a bare sign, a value out of range — denotes nothing.
pub open spec fn spec_parse_i32(s: Seq<char>) -> Option<int> {
    let negative = s.len() > 0 && s[0] == '-';
    let digits = if s.len() > 0 && (s[0] == '-' || s[0] == '+') {
        s.subrange(1, s.len() as int)
    } else {
        s
    };
    if digits.len() > 0 && all_digits(digits) {
        let v = if negative {
            -mag_of(digits)
        } else {
            mag_of(digits)
        };
        if i32::MIN as int <= v <= i32::MAX as int {
            Some(v)
        } else {
            None
        }
    } else {
        None
    }
}

/// The offset a command-line argument resolves to: the denoted value, or
/// the neutral offset zero when the argument denotes nothing. A missing or
/// unparsable argument is not an error by design.
pub open spec fn spec_offset_arg(s: Seq<char>) -> int {
    match spec_parse_i32(s) {
        Some(v) => v,
        None => 0,
    }
}

/// Resolves the free-form offset argument: parses it as a signed decimal
/// `i32` and falls back to the neutral offset zero when it does not parse
/// or does not fit.
pub fn parse_offset(s: &str) -> (r: i32)
    ensures
        r as int == spec_offset_arg(s@),
{
    let n = s.unicode_len();
    if n == 0 {
        return 0;
    }
    let first = s.get_char(0);
    let negative = first == '-';
    let start: usize = if first == '-' || first == '+' {
        1
    } else {
        0
    };
    if start == n {
        return 0;
    }
    let mut acc: u64 = 0;
    let mut k: usize = start;
    while k < n
        invariant
            start <= k <= n,
            start < n,
            n == s@.len(),
            start as int == (if s@[0] == '-' || s@[0] == '+' {
                1int
            } else {
                0int
            }),
            negative == (s@[0] == '-'),
            forall|j: int| start <= j < k ==> is_digit(#[trigger] s@[j]),
            ({
                let m = mag_of(s@.subrange(start as int, k as int));
                if m <= 2147483648 {
                    acc == m
                } else {
                    acc == 2147483649u64
                }
            }),
        decreases n - k,
    {
        let c = s.get_char(k);
        let cu = c as u32;
        if cu < 48 || cu > 57 {
            proof {
                if start == 0 {
                    assert(s@.subrange(0, n as int) =~= s@);
                }
                let digits = s@.subrange(start as int, n as int);
                assert(digits[k - start] == s@[k as int]);
                assert(!is_digit(digits[k - start]));
                assert(!all_digits(digits)) by {
                    if all_digits(digits) {
                        assert(is_digit(digits[k - start]));
                    }
                }
                assert(spec_parse_i32(s@) is None);
            }
            return 0;
        }
        let d: u64 = (cu - 48) as u64;
        proof {
            assert(s@.subrange(start as int, k + 1).drop_last() =~= s@.subrange(
                start as int,
                k as int,
            ));
            assert(s@.subrange(start as int, k + 1).last() == s@[k as int]);
            assert(all_digits(s@.subrange(start as int, k as int)));
            lemma_mag_nonneg(s@.subrange(start as int, k as int));
        }
        if acc <= 2147483648 {
            let t: u64 = acc * 10 + d;
            acc = if t > 2147483648 {
                2147483649
            } else {
                t
            };
        }
        k = k + 1;
    }
    proof {
        if start == 0 {
            assert(s@.subrange(0, n as int) =~= s@);
        }
        let digits = s@.subrange(start as int, n as int);
        assert forall|i: int| 0 <= i < digits.len() implies is_digit(#[trigger] digits[i]) by {
            assert(digits[i] == s@[start + i]);
        }
    }
    if negative {
        if acc > 2147483648 {
            0
        } else if acc == 2147483648 {
            i32::MIN
        } else {
            -(acc as i32)
        }
    } else {
        if acc >= 2147483648 {
            0
        } else {
            acc as i32
        }
    }
}

} // verus!
