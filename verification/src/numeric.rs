//! Verified base-10 integer parsing.
//!
//! The spec functions here say what a decimal numeral is and which value it
//! denotes; the executable parsers are proved to accept exactly the numerals
//! whose value fits the target type, echoing the offending text otherwise.

use vstd::prelude::*;
use crate::text::chars_of;

verus! {

/// Is `c` an ASCII decimal digit?
pub open spec fn is_digit(c: char) -> bool {
    48 <= (c as u32) && (c as u32) <= 57
}

/// The value of a single decimal digit.
pub open spec fn digit_val(c: char) -> int {
    (c as u32) - 48
}

/// Does `s` consist of decimal digits only?
pub open spec fn all_digits(s: Seq<char>) -> bool {
    forall|i: int| 0 <= i < s.len() ==> is_digit(#[trigger] s[i])
}

/// The value denoted by a sequence of decimal digits.
pub open spec fn digits_val(s: Seq<char>) -> int
    decreases s.len(),
{
    if s.len() == 0 {
        0
    } else {
        digits_val(s.drop_last()) * 10 + digit_val(s.last())
    }
}

/// Does `s` begin with an explicit sign character?
pub open spec fn has_sign(s: Seq<char>) -> bool {
    s.len() > 0 && (s[0] == '+' || s[0] == '-')
}

/// Does `s` begin with an explicit plus sign?
pub open spec fn has_plus(s: Seq<char>) -> bool {
    s.len() > 0 && s[0] == '+'
}

/// Does `s` begin with a minus sign?
pub open spec fn is_neg(s: Seq<char>) -> bool {
    s.len() > 0 && s[0] == '-'
}

/// The digits of a numeral, with any leading sign stripped.
pub open spec fn numeral_digits(s: Seq<char>) -> Seq<char> {
    if has_sign(s) {
        s.skip(1)
    } else {
        s
    }
}

/// Is `s` a decimal numeral: an optional sign followed by one or more digits?
pub open spec fn is_numeral(s: Seq<char>) -> bool {
    numeral_digits(s).len() > 0 && all_digits(numeral_digits(s))
}

/// The signed value denoted by a numeral.
pub open spec fn numeral_val(s: Seq<char>) -> int {
    if is_neg(s) {
        -digits_val(numeral_digits(s))
    } else {
        digits_val(numeral_digits(s))
    }
}

/// Is `s` a numeral whose value fits an `i64`?
pub open spec fn is_i64_numeral(s: Seq<char>) -> bool {
    is_numeral(s) && i64::MIN <= numeral_val(s) <= i64::MAX
}

/// Is `s` a numeral that `u64` parsing accepts: no minus sign, value in range?
pub open spec fn is_u64_numeral(s: Seq<char>) -> bool {
    is_numeral(s) && !is_neg(s) && numeral_val(s) <= u64::MAX
}

/// Is `s` a numeral that `u32` parsing accepts: no minus sign, value in range?
pub open spec fn is_u32_numeral(s: Seq<char>) -> bool {
    is_numeral(s) && !is_neg(s) && numeral_val(s) <= u32::MAX
}

/// Is `s` a numeral that `usize` parsing accepts?
pub open spec fn is_usize_numeral(s: Seq<char>) -> bool {
    is_numeral(s) && !is_neg(s) && numeral_val(s) <= usize::MAX
}

/// A sequence of digits denotes a non-negative value.
pub proof fn lemma_digits_val_nonneg(s: Seq<char>)
    requires
        all_digits(s),
    ensures
        digits_val(s) >= 0,
    decreases s.len(),
{
    if s.len() > 0 {
        lemma_digits_val_nonneg(s.drop_last());
        assert(is_digit(s[s.len() - 1]));
    }
}

/// Extending a digit string can only increase its value.
pub proof fn lemma_digits_val_prefix(s: Seq<char>, k: int)
    requires
        all_digits(s),
        0 <= k <= s.len(),
    ensures
        digits_val(s.subrange(0, k)) <= digits_val(s),
    decreases s.len(),
{
    if k == s.len() {
        assert(s.subrange(0, k) =~= s);
    } else {
        assert(s.drop_last() =~= s.subrange(0, s.len() - 1));
        lemma_digits_val_prefix(s.drop_last(), k);
        assert(s.drop_last().subrange(0, k) =~= s.subrange(0, k));
        lemma_digits_val_nonneg(s.drop_last());
        assert(is_digit(s[s.len() - 1]));
    }
}

/// Parse the digits of `cs` from position `from` to the end, failing on a
/// non-digit, an empty digit string, or a value above `limit`.
fn parse_digits(cs: &Vec<char>, from: usize, limit: u64) -> (r: Option<u64>)
    requires
        from <= cs@.len(),
    ensures
        r is Some <==> from < cs@.len() && all_digits(cs@.skip(from as int)) && digits_val(
            cs@.skip(from as int),
        ) <= limit,
        r matches Some(v) ==> v == digits_val(cs@.skip(from as int)),
{
    let ghost suffix = cs@.skip(from as int);
    if from == cs.len() {
        return None;
    }
    let mut i: usize = from;
    let mut acc: u64 = 0;
    while i < cs.len()
        invariant
            from <= i <= cs@.len(),
            suffix == cs@.skip(from as int),
            all_digits(cs@.subrange(from as int, i as int)),
            acc == digits_val(cs@.subrange(from as int, i as int)),
            acc <= limit,
        decreases cs@.len() - i,
    {
        let c = cs[i];
        let cu = c as u32;
        if cu < 48 || cu > 57 {
            // a non-digit in the suffix: no numeral
            assert(suffix[i - from] == cs@[i as int]);
            return None;
        }
        let d = (cu - 48) as u64;
        proof {
            assert(cs@.subrange(from as int, i + 1 as int).drop_last() =~= cs@.subrange(
                from as int,
                i as int,
            ));
            assert(cs@.subrange(from as int, i + 1 as int).last() == cs@[i as int]);
        }
        let ghost step = cs@.subrange(from as int, i + 1 as int);
        assert(digits_val(step) == acc * 10 + d);
        if acc > limit / 10 || d > limit - (acc * 10) {
            // the value already exceeds `limit`; if the whole suffix is made
            // of digits, its value can only be larger still
            proof {
                assert(acc * 10 + d > limit) by {
                    if acc > limit / 10 {
                        assert(limit == 10 * (limit / 10) + limit % 10 && 0 <= limit % 10 < 10)
                            by (nonlinear_arith);
                    }
                }
                if all_digits(suffix) {
                    lemma_digits_val_prefix(suffix, i + 1 - from);
                    assert(suffix.subrange(0, i + 1 - from) =~= step);
                }
            }
            return None;
        }
        acc = acc * 10 + d;
        i = i + 1;
    }
    proof {
        assert(cs@.subrange(from as int, cs@.len() as int) =~= suffix);
    }
    Some(acc)
}

/// Parse an unsigned 64-bit count, as a seed argument requires.
///
/// Accepts exactly the numerals (optional `+`, then digits) whose value fits
/// a `u64`; anything else is echoed back inside the error message.
pub fn parse_u64(val: &str) -> (r: Result<u64, String>)
    ensures
        r is Ok <==> is_u64_numeral(val@),
        r matches Ok(v) ==> v == numeral_val(val@),
        r matches Err(e) ==> e@ == "\""@ + val@ + "\" not a valid integer"@,
{
    let cs = chars_of(val);
    let from: usize = if cs.len() > 0 && cs[0] == '+' {
        1
    } else {
        0
    };
    if cs.len() > 0 && cs[0] == '-' {
        return Err(u64_err(val));
    }
    proof {
        if from == 1 {
            assert(numeral_digits(val@) =~= cs@.skip(1));
        } else {
            assert(numeral_digits(val@) =~= cs@.skip(0));
        }
    }
    match parse_digits(&cs, from, u64::MAX) {
        Some(v) => {
            proof {
                lemma_digits_val_nonneg(numeral_digits(val@));
            }
            Ok(v)
        },
        None => Err(u64_err(val)),
    }
}

/// Parse a signed 64-bit numeral: an optional sign, then digits, with the
/// value in `i64`'s range.
pub fn parse_i64_str(val: &str) -> (r: Option<i64>)
    ensures
        r is Some <==> is_i64_numeral(val@),
        r matches Some(v) ==> v == numeral_val(val@),
{
    let cs = chars_of(val);
    let neg = cs.len() > 0 && cs[0] == '-';
    let from: usize = if cs.len() > 0 && (cs[0] == '+' || cs[0] == '-') {
        1
    } else {
        0
    };
    let limit: u64 = if neg {
        9223372036854775808u64
    } else {
        9223372036854775807u64
    };
    proof {
        if from == 1 {
            assert(numeral_digits(val@) =~= cs@.skip(1));
        } else {
            assert(numeral_digits(val@) =~= cs@.skip(0));
        }
    }
    match parse_digits(&cs, from, limit) {
        None => None,
        Some(mag) => {
            proof {
                lemma_digits_val_nonneg(numeral_digits(val@));
            }
            if neg {
                if mag == 9223372036854775808u64 {
                    Some(i64::MIN)
                } else {
                    Some(-(mag as i64))
                }
            } else {
                Some(mag as i64)
            }
        },
    }
}

/// Parse an unsigned 32-bit numeral: an optional `+`, then digits, with the
/// value in `u32`'s range.
pub fn parse_u32_str(val: &str) -> (r: Option<u32>)
    ensures
        r is Some <==> is_u32_numeral(val@),
        r matches Some(v) ==> v == numeral_val(val@),
{
    let cs = chars_of(val);
    let from: usize = if cs.len() > 0 && cs[0] == '+' {
        1
    } else {
        0
    };
    if cs.len() > 0 && cs[0] == '-' {
        return None;
    }
    proof {
        if from == 1 {
            assert(numeral_digits(val@) =~= cs@.skip(1));
        } else {
            assert(numeral_digits(val@) =~= cs@.skip(0));
        }
    }
    match parse_digits(&cs, from, u32::MAX as u64) {
        Some(v) => {
            proof {
                lemma_digits_val_nonneg(numeral_digits(val@));
            }
            Some(v as u32)
        },
        None => None,
    }
}

/// Parse a signed 64-bit integer, as a calendar argument requires.
///
/// Accepts exactly the numerals whose value fits an `i64`; anything else is
/// echoed back inside the error message.
pub fn parse_int(val: &str) -> (r: Result<i64, String>)
    ensures
        r is Ok <==> is_i64_numeral(val@),
        r matches Ok(v) ==> v == numeral_val(val@),
        r matches Err(e) ==> e@ == "Invalid integer \""@ + val@ + "\""@,
{
    match parse_i64_str(val) {
        Some(v) => Ok(v),
        None => Err(invalid_integer_err(val)),
    }
}

/// Build the error message `Invalid integer "<val>"`.
fn invalid_integer_err(val: &str) -> (e: String)
    ensures
        e@ == "Invalid integer \""@ + val@ + "\""@,
{
    let mut e = String::new();
    e.append("Invalid integer \"");
    e.append(val);
    e.append("\"");
    proof {
        assert(e@ =~= "Invalid integer \""@ + val@ + "\""@);
    }
    e
}

/// Parse a strictly positive `usize`, as a head count requires.
///
/// Accepts exactly the numerals (optional `+`, then digits) whose value fits
/// a `usize` and is not zero; anything else is echoed back as the error.
pub fn parse_positive_int(val: &str) -> (r: Result<usize, String>)
    ensures
        r is Ok <==> is_usize_numeral(val@) && numeral_val(val@) > 0,
        r matches Ok(v) ==> v == numeral_val(val@),
        r matches Err(e) ==> e@ == val@,
{
    let cs = chars_of(val);
    let from: usize = if cs.len() > 0 && cs[0] == '+' {
        1
    } else {
        0
    };
    if cs.len() > 0 && cs[0] == '-' {
        return Err(val.to_owned());
    }
    proof {
        if from == 1 {
            assert(numeral_digits(val@) =~= cs@.skip(1));
        } else {
            assert(numeral_digits(val@) =~= cs@.skip(0));
        }
    }
    match parse_digits(&cs, from, usize::MAX as u64) {
        Some(v) => {
            proof {
                lemma_digits_val_nonneg(numeral_digits(val@));
            }
            if v == 0 {
                Err(val.to_owned())
            } else {
                Ok(v as usize)
            }
        },
        None => Err(val.to_owned()),
    }
}

/// Build the error message `"<val>" not a valid integer`.
fn u64_err(val: &str) -> (e: String)
    ensures
        e@ == "\""@ + val@ + "\" not a valid integer"@,
{
    let mut e = String::new();
    e.append("\"");
    e.append(val);
    e.append("\" not a valid integer");
    proof {
        assert(e@ =~= "\""@ + val@ + "\" not a valid integer"@);
    }
    e
}

} // verus!
