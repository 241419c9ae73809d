//! The count specifier and the offset resolver.
//!
//! A count argument such as `"-3"`, `"+5"` or `"+0"` is parsed by
//! [`parse_num`] into a [`TakeValue`]; [`get_start_index`] maps a
//! `TakeValue` and a total unit count to the zero-based unit where output
//! starts, or `None` when nothing is to be printed.

use vstd::prelude::*;
use crate::numeric::{has_plus, is_i64_numeral, numeral_val};
use crate::text::chars_of;

verus! {

/// A parsed, sign-normalized count specifier.
///
/// `PlusZero` is the literal specifier `+0` ("print from the very first
/// unit"); `TakeNum(n)` with `n > 0` means "start at unit `n`, counting from
/// one", with `n < 0` "the last `|n|` units", and with `n == 0` "print
/// nothing".
#[derive(Debug, PartialEq, Eq, Structural, Clone, Copy)]
pub enum TakeValue {
    PlusZero,
    TakeNum(i64),
}

/// The sign-normalized count stored for a numeral other than `+0`: a value
/// with an explicit `+`, or a negative one, is kept as parsed; a bare
/// non-negative value is negated, so that plain numbers count from the end.
pub open spec fn parsed_take_num(s: Seq<char>) -> i64 {
    if has_plus(s) || numeral_val(s) < 0 {
        numeral_val(s) as i64
    } else {
        (-numeral_val(s)) as i64
    }
}

/// Parse a count argument into a [`TakeValue`].
///
/// The literal text `+0` becomes [`TakeValue::PlusZero`]; any other numeral
/// in `i64`'s range becomes [`TakeValue::TakeNum`] under the
/// sign-normalization rule of [`parsed_take_num`]; anything else is echoed
/// back as the error.
pub fn parse_num(val: &str) -> (r: Result<TakeValue, String>)
    ensures
        val@ == seq!['+', '0'] ==> r == Ok::<TakeValue, String>(TakeValue::PlusZero),
        val@ != seq!['+', '0'] && is_i64_numeral(val@) ==> r == Ok::<TakeValue, String>(
            TakeValue::TakeNum(parsed_take_num(val@)),
        ),
        val@ != seq!['+', '0'] && !is_i64_numeral(val@) ==> (r matches Err(e) && e@ == val@),
{
    let cs = chars_of(val);
    if cs.len() == 2 && cs[0] == '+' && cs[1] == '0' {
        proof {
            assert(val@ =~= seq!['+', '0']);
        }
        return Ok(TakeValue::PlusZero);
    }
    match crate::numeric::parse_i64_str(val) {
        Some(v) => {
            let plus = cs.len() > 0 && cs[0] == '+';
            if plus || v < 0 {
                Ok(TakeValue::TakeNum(v))
            } else {
                Ok(TakeValue::TakeNum(-v))
            }
        },
        None => Err(val.to_owned()),
    }
}

/// The offset resolver's decision table as a mathematical function.
pub open spec fn start_index(take_val: TakeValue, total: int) -> Option<int> {
    if total <= 0 {
        None
    } else {
        match take_val {
            TakeValue::PlusZero => Some(0),
            TakeValue::TakeNum(num) => {
                if num == 0 {
                    None
                } else if num > 0 {
                    if num > total {
                        None
                    } else {
                        Some(num - 1)
                    }
                } else {
                    if -num < total {
                        Some(total + num)
                    } else {
                        Some(0)
                    }
                }
            },
        }
    }
}

/// Resolve a count specifier against a total unit count.
///
/// Pure arithmetic: `None` means "print nothing", `Some(start)` is the
/// zero-based index of the first unit to emit, always within the file.
pub fn get_start_index(take_val: &TakeValue, total: i64) -> (r: Option<u64>)
    requires
        total >= 0,
    ensures
        r == match start_index(*take_val, total as int) {
            None => None::<u64>,
            Some(i) => Some(i as u64),
        },
        // an empty file yields nothing, whatever the specifier
        total == 0 ==> r is None,
        // `+0` on a nonempty file starts at the very first unit
        total > 0 && take_val is PlusZero ==> r == Some(0u64),
        // a zero count yields nothing
        *take_val == TakeValue::TakeNum(0) ==> r is None,
        *take_val matches TakeValue::TakeNum(n) ==> {
            // a positive count within the file is a one-based start unit
            &&& (0 < n <= total ==> r == Some((n - 1) as u64))
            // a positive count beyond the file yields nothing
            &&& (n > 0 && n > total ==> r is None)
            // a negative count selects the last `|n|` units
            &&& (n < 0 && -n < total && total > 0 ==> r == Some((total + n) as u64))
            // a negative count of the whole file or more selects all of it
            &&& (n < 0 && -n >= total && total > 0 ==> r == Some(0u64))
        },
        // a resolved start always lies within the file
        r matches Some(s) ==> s < total,
{
    if total == 0 {
        return None;
    }
    match take_val {
        TakeValue::PlusZero => Some(0),
        TakeValue::TakeNum(num) => {
            let n = *num;
            if n == 0 {
                None
            } else if n > 0 {
                if n > total {
                    None
                } else {
                    Some((n - 1) as u64)
                }
            } else {
                // n < 0: work in signed space; `total + n` cannot overflow
                // since total >= 1 and n >= i64::MIN.
                let s = total + n;
                if s > 0 {
                    Some(s as u64)
                } else {
                    Some(0)
                }
            }
        },
    }
}

} // verus!
