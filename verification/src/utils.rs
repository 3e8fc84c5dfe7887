//! Clock access and timestamp parsing.
//!
//! Instants are carried as whole seconds since the Unix epoch; the one
//! place that needs a calendar notation goes through chrono behind a
//! trusted wrapper, and plain integer cursors are parsed by verified code.

use vstd::prelude::*;
use vstd::string::StrSliceExecFns;
use crate::error::ChatError;

verus! {

/// What chrono's datetime parser accepts: the epoch-second value of a
/// string like `2017-01-19T22:56:16`, or `None` where the string is not
/// a calendar timestamp. A function of the characters alone.
pub uninterp spec fn spec_datetime_seconds(s: Seq<char>) -> Option<i64>;

/// Relies on chrono: `NaiveDateTime`'s `FromStr` parses a calendar
/// timestamp, depending only on the input string, and
/// `and_utc().timestamp()` is that instant in whole epoch seconds.
#[verifier::external_body]
fn parse_datetime_seconds(t: &str) -> (r: Option<i64>)
    ensures
        r == spec_datetime_seconds(t@),
{
    match t.parse::<chrono::NaiveDateTime>() {
        Ok(dt) => Some(dt.and_utc().timestamp()),
        Err(_) => None,
    }
}

/// Relies on chrono's `Utc::now`: the current UTC instant in whole
/// seconds since the epoch. Nothing is assumed of the value.
#[verifier::external_body]
pub fn now() -> i64 {
    chrono::Utc::now().timestamp()
}

pub open spec fn spec_is_digit(c: char) -> bool {
    48 <= c as u32 <= 57
}

pub open spec fn spec_digit_val(c: char) -> int {
    c as u32 - 48
}

pub open spec fn spec_all_digits(s: Seq<char>) -> bool {
    forall|i: int| 0 <= i < s.len() ==> spec_is_digit(#[trigger] s[i])
}

/// The number the digit string denotes, most significant digit first.
pub open spec fn spec_digits_val(s: Seq<char>) -> int
    decreases s.len(),
{
    if s.len() == 0 {
        0
    } else {
        spec_digits_val(s.drop_last()) * 10 + spec_digit_val(s.last())
    }
}

/// The value `str::parse::<i64>` yields: an optional sign, then at
/// least one ASCII digit, and a result within the type's range.
pub open spec fn spec_parsed_i64(s: Seq<char>) -> Option<i64> {
    let has_sign = s.len() > 0 && (s[0] == '-' || s[0] == '+');
    let neg = s.len() > 0 && s[0] == '-';
    let digits = if has_sign {
        s.skip(1)
    } else {
        s
    };
    if digits.len() == 0 || !spec_all_digits(digits) {
        None
    } else {
        let v = if neg {
            -spec_digits_val(digits)
        } else {
            spec_digits_val(digits)
        };
        if i64::MIN <= v <= i64::MAX {
            Some(v as i64)
        } else {
            None
        }
    }
}

/// The value `str::parse::<i32>` yields, in the same way.
pub open spec fn spec_parsed_i32(s: Seq<char>) -> Option<i32> {
    let has_sign = s.len() > 0 && (s[0] == '-' || s[0] == '+');
    let neg = s.len() > 0 && s[0] == '-';
    let digits = if has_sign {
        s.skip(1)
    } else {
        s
    };
    if digits.len() == 0 || !spec_all_digits(digits) {
        None
    } else {
        let v = if neg {
            -spec_digits_val(digits)
        } else {
            spec_digits_val(digits)
        };
        if i32::MIN <= v <= i32::MAX {
            Some(v as i32)
        } else {
            None
        }
    }
}

proof fn lemma_digits_val_nonneg(s: Seq<char>)
    requires
        spec_all_digits(s),
    ensures
        spec_digits_val(s) >= 0,
    decreases s.len(),
{
    if s.len() > 0 {
        assert(spec_all_digits(s.drop_last())) by {
            assert forall|i: int| 0 <= i < s.drop_last().len() implies spec_is_digit(
                #[trigger] s.drop_last()[i],
            ) by {
                assert(s.drop_last()[i] == s[i]);
            }
        }
        lemma_digits_val_nonneg(s.drop_last());
        assert(spec_is_digit(s.last()));
    }
}

/// Appending digits never shrinks the denoted number.
proof fn lemma_digits_val_extend_ge(s: Seq<char>, i: int)
    requires
        spec_all_digits(s),
        0 <= i <= s.len(),
    ensures
        spec_digits_val(s) >= spec_digits_val(s.take(i)),
    decreases s.len() - i,
{
    if i < s.len() {
        lemma_digits_val_extend_ge(s, i + 1);
        assert(s.take(i + 1).drop_last() =~= s.take(i));
        assert(s.take(i + 1).last() == s[i]);
        assert(spec_all_digits(s.take(i))) by {
            assert forall|k: int| 0 <= k < s.take(i).len() implies spec_is_digit(
                #[trigger] s.take(i)[k],
            ) by {
                assert(s.take(i)[k] == s[k]);
            }
        }
        lemma_digits_val_nonneg(s.take(i));
        assert(spec_digits_val(s.take(i + 1)) == spec_digits_val(s.take(i)) * 10 + spec_digit_val(
            s[i],
        ));
        assert(spec_is_digit(s[i]));
    } else {
        assert(s.take(i) =~= s);
    }
}

/// Parses a decimal integer exactly as `str::parse::<i64>` does.
#[verifier::loop_isolation(false)]
pub fn parse_i64(t: &str) -> (r: Option<i64>)
    ensures
        r == spec_parsed_i64(t@),
{
    let n = t.unicode_len();
    if n == 0 {
        return None;
    }
    let first = t.get_char(0);
    let has_sign = first == '-' || first == '+';
    let neg = first == '-';
    let start: usize = if has_sign {
        1
    } else {
        0
    };
    if start == n {
        return None;
    }
    let ghost digits = if has_sign {
        t@.skip(1)
    } else {
        t@
    };
    let mut acc: i128 = 0;
    let mut i: usize = start;
    while i < n
        invariant
            start <= i <= n,
            acc == spec_digits_val(digits.take(i - start)),
            spec_all_digits(digits.take(i - start)),
            0 <= acc <= 0x8000_0000_0000_0000i128,
        decreases n - i,
    {
        let c = t.get_char(i);
        let cv = c as u32;
        proof {
            assert(digits[i - start] == t@[i as int]);
        }
        if cv < 48 || cv > 57 {
            proof {
                assert(!spec_is_digit(digits[i - start]));
                assert(!spec_all_digits(digits));
            }
            return None;
        }
        let ghost acc_before = acc;
        acc = acc * 10 + ((cv - 48) as i128);
        proof {
            let tk = digits.take(i + 1 - start);
            assert(tk.drop_last() =~= digits.take(i - start));
            assert(tk.last() == digits[i - start]);
            assert(acc == spec_digits_val(tk));
            assert(spec_all_digits(tk)) by {
                assert forall|k: int| 0 <= k < tk.len() implies spec_is_digit(
                    #[trigger] tk[k],
                ) by {
                    if k < tk.len() - 1 {
                        assert(tk[k] == digits.take(i - start)[k]);
                    }
                }
            }
        }
        if acc > 0x8000_0000_0000_0000i128 {
            proof {
                if spec_all_digits(digits) {
                    lemma_digits_val_extend_ge(digits, i + 1 - start);
                    assert(spec_digits_val(digits) > 0x8000_0000_0000_0000);
                }
            }
            return None;
        }
        i += 1;
    }
    proof {
        assert(digits.take(n - start) =~= digits);
    }
    if neg {
        Some((-acc) as i64)
    } else {
        if acc <= 0x7fff_ffff_ffff_ffffi128 {
            Some(acc as i64)
        } else {
            None
        }
    }
}

/// Parses a decimal integer exactly as `str::parse::<i32>` does.
pub fn parse_i32(t: &str) -> (r: Option<i32>)
    ensures
        r == spec_parsed_i32(t@),
{
    match parse_i64(t) {
        Some(v) => {
            if -0x8000_0000i64 <= v && v <= 0x7fff_ffffi64 {
                Some(v as i32)
            } else {
                None
            }
        },
        None => None,
    }
}

/// What a timestamp parameter denotes: a calendar timestamp like
/// `2017-01-19T22:56:16`, or failing that a plain epoch-second integer
/// like `1485357232`.
pub open spec fn spec_timestamp_value(s: Seq<char>) -> Option<i64> {
    match spec_datetime_seconds(s) {
        Some(v) => Some(v),
        None => spec_parsed_i64(s),
    }
}

/// Accepts both notations `spec_timestamp_value` describes, preferring
/// the calendar one.
pub fn timestamp_parse(t: &str) -> (r: Result<i64, ChatError>)
    ensures
        match r {
            Ok(v) => spec_timestamp_value(t@) == Some(v),
            Err(e) => e is MalformedInput && spec_timestamp_value(t@) is None,
        },
{
    match parse_datetime_seconds(t) {
        Some(v) => Ok(v),
        None => match parse_i64(t) {
            Some(secs) => Ok(secs),
            None => Err(ChatError::MalformedInput),
        },
    }
}

} // verus!
