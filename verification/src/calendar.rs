//! Verified parsing of calendar arguments: a year and a month.
//!
//! A month may be named by any prefix of its English name, compared without
//! regard to ASCII letter case, or given as a number; a year is a number in
//! the range 1 through 9999.

use vstd::prelude::*;
use vstd::string::StringExecFns;
use crate::numeric::{is_i64_numeral, is_u32_numeral, numeral_val, parse_int, parse_u32_str};
use crate::text::{chars_of, dec_digits, dec_int, i64_to_string, u64_to_string};

verus! {

/// Does character `a` equal the lowercase ASCII letter `b`, ignoring case?
pub open spec fn matches_ci(a: char, b: char) -> bool {
    a == b || (65 <= (a as u32) && (a as u32) <= 90 && (a as u32) + 32 == (b as u32))
}

/// Case-insensitive test of one character against a lowercase one.
fn char_matches_ci(a: char, b: char) -> (r: bool)
    ensures
        r == matches_ci(a, b),
{
    a == b || (65 <= (a as u32) && (a as u32) <= 90 && (a as u32) + 32 == (b as u32))
}

/// Is `p` a prefix of `name`, ignoring ASCII letter case, `name` being
/// lowercase already?
pub open spec fn is_prefix_ci(p: Seq<char>, name: Seq<char>) -> bool {
    p.len() <= name.len() && forall|i: int| 0 <= i < p.len() ==> matches_ci(#[trigger] p[i], name[i])
}

/// The lowercase English name of month `m`.
pub open spec fn month_name(m: int) -> Seq<char> {
    if m == 1 {
        seq!['j', 'a', 'n', 'u', 'a', 'r', 'y']
    } else if m == 2 {
        seq!['f', 'e', 'b', 'r', 'u', 'a', 'r', 'y']
    } else if m == 3 {
        seq!['m', 'a', 'r', 'c', 'h']
    } else if m == 4 {
        seq!['a', 'p', 'r', 'i', 'l']
    } else if m == 5 {
        seq!['m', 'a', 'y']
    } else if m == 6 {
        seq!['j', 'u', 'n', 'e']
    } else if m == 7 {
        seq!['j', 'u', 'l', 'y']
    } else if m == 8 {
        seq!['a', 'u', 'g', 'u', 's', 't']
    } else if m == 9 {
        seq!['s', 'e', 'p', 't', 'e', 'm', 'b', 'e', 'r']
    } else if m == 10 {
        seq!['o', 'c', 't', 'o', 'b', 'e', 'r']
    } else if m == 11 {
        seq!['n', 'o', 'v', 'e', 'm', 'b', 'e', 'r']
    } else {
        seq!['d', 'e', 'c', 'e', 'm', 'b', 'e', 'r']
    }
}

/// The first month from `m` on whose name `s` is a case-insensitive prefix of.
pub open spec fn first_month_from(s: Seq<char>, m: int) -> Option<int>
    decreases 13 - m,
{
    if m > 12 {
        None
    } else if is_prefix_ci(s, month_name(m)) {
        Some(m)
    } else {
        first_month_from(s, m + 1)
    }
}

/// The month that `s` names by prefix, if any.
pub open spec fn month_by_name(s: Seq<char>) -> Option<int> {
    first_month_from(s, 1)
}

/// The lowercase name of month `m` as a string slice.
fn month_name_str(m: usize) -> (r: &'static str)
    requires
        1 <= m <= 12,
    ensures
        r@ == month_name(m as int),
{
    if m == 1 {
        proof {
            reveal_strlit("january");
            assert("january"@ =~= month_name(1));
        }
        "january"
    } else if m == 2 {
        proof {
            reveal_strlit("february");
            assert("february"@ =~= month_name(2));
        }
        "february"
    } else if m == 3 {
        proof {
            reveal_strlit("march");
            assert("march"@ =~= month_name(3));
        }
        "march"
    } else if m == 4 {
        proof {
            reveal_strlit("april");
            assert("april"@ =~= month_name(4));
        }
        "april"
    } else if m == 5 {
        proof {
            reveal_strlit("may");
            assert("may"@ =~= month_name(5));
        }
        "may"
    } else if m == 6 {
        proof {
            reveal_strlit("june");
            assert("june"@ =~= month_name(6));
        }
        "june"
    } else if m == 7 {
        proof {
            reveal_strlit("july");
            assert("july"@ =~= month_name(7));
        }
        "july"
    } else if m == 8 {
        proof {
            reveal_strlit("august");
            assert("august"@ =~= month_name(8));
        }
        "august"
    } else if m == 9 {
        proof {
            reveal_strlit("september");
            assert("september"@ =~= month_name(9));
        }
        "september"
    } else if m == 10 {
        proof {
            reveal_strlit("october");
            assert("october"@ =~= month_name(10));
        }
        "october"
    } else if m == 11 {
        proof {
            reveal_strlit("november");
            assert("november"@ =~= month_name(11));
        }
        "november"
    } else {
        proof {
            reveal_strlit("december");
            assert("december"@ =~= month_name(12));
        }
        "december"
    }
}

/// Case-insensitive prefix test of some characters against a lowercase name.
fn prefix_ci(p: &Vec<char>, name: &str) -> (r: bool)
    ensures
        r == is_prefix_ci(p@, name@),
{
    let ncs = chars_of(name);
    if p.len() > ncs.len() {
        return false;
    }
    let mut i: usize = 0;
    while i < p.len()
        invariant
            i <= p@.len() <= ncs@.len(),
            ncs@ == name@,
            forall|j: int| 0 <= j < i ==> matches_ci(#[trigger] p@[j], ncs@[j]),
        decreases p@.len() - i,
    {
        if !char_matches_ci(p[i], ncs[i]) {
            return false;
        }
        i = i + 1;
    }
    true
}

/// Parse a year argument: a numeral in the range 1 through 9999.
///
/// A non-numeral and a numeral out of range fail with distinct messages,
/// the former echoing the text, the latter the parsed value.
pub fn parse_year(year: &str) -> (r: Result<i32, String>)
    ensures
        r is Ok <==> is_i64_numeral(year@) && 1 <= numeral_val(year@) <= 9999,
        r matches Ok(v) ==> v == numeral_val(year@),
        !is_i64_numeral(year@) ==> (r matches Err(e) && e@ == "Invalid integer \""@ + year@
            + "\""@),
        is_i64_numeral(year@) && !(1 <= numeral_val(year@) <= 9999) ==> (r matches Err(e) && e@
            == "year \""@ + dec_int(numeral_val(year@)) + "\" not in the range 1 through 9999"@),
{
    match parse_int(year) {
        Err(e) => Err(e),
        Ok(y) => {
            if 1 <= y && y <= 9999 {
                Ok(y as i32)
            } else {
                let digits = i64_to_string(y);
                let mut e = String::new();
                e.append("year \"");
                e.append(digits.as_str());
                e.append("\" not in the range 1 through 9999");
                proof {
                    assert(e@ =~= "year \""@ + dec_int(y as int)
                        + "\" not in the range 1 through 9999"@);
                }
                Err(e)
            }
        },
    }
}

/// Parse a month argument: a case-insensitive prefix of an English month
/// name (the earliest month wins), or a numeral in the range 1 through 12.
///
/// A text that is neither fails echoing the text; a numeral out of range
/// fails echoing the parsed value.
pub fn parse_month(month: &str) -> (r: Result<u32, String>)
    ensures
        month_by_name(month@) matches Some(m) ==> r == Ok::<u32, String>(m as u32),
        month_by_name(month@) is None && !is_u32_numeral(month@) ==> (r matches Err(e) && e@
            == "Invalid month \""@ + month@ + "\""@),
        month_by_name(month@) is None && is_u32_numeral(month@) && 1 <= numeral_val(month@) <= 12
            ==> r == Ok::<u32, String>(numeral_val(month@) as u32),
        month_by_name(month@) is None && is_u32_numeral(month@) && !(1 <= numeral_val(month@)
            <= 12) ==> (r matches Err(e) && e@ == "month \""@ + dec_digits(numeral_val(month@))
            + "\" not in the range 1 through 12"@),
{
    let cs = chars_of(month);
    let mut m: usize = 1;
    while m <= 12
        invariant
            1 <= m <= 13,
            cs@ == month@,
            first_month_from(month@, 1) == first_month_from(month@, m as int),
        decreases 13 - m,
    {
        if prefix_ci(&cs, month_name_str(m)) {
            return Ok(m as u32);
        }
        m = m + 1;
    }
    match parse_u32_str(month) {
        None => {
            let mut e = String::new();
            e.append("Invalid month \"");
            e.append(month);
            e.append("\"");
            proof {
                assert(e@ =~= "Invalid month \""@ + month@ + "\""@);
            }
            Err(e)
        },
        Some(v) => {
            if 1 <= v && v <= 12 {
                Ok(v)
            } else {
                let digits = u64_to_string(v as u64);
                let mut e = String::new();
                e.append("month \"");
                e.append(digits.as_str());
                e.append("\" not in the range 1 through 12");
                proof {
                    crate::numeric::lemma_digits_val_nonneg(crate::numeric::numeral_digits(
                        month@,
                    ));
                    assert(e@ =~= "month \""@ + dec_digits(v as int)
                        + "\" not in the range 1 through 12"@);
                }
                Err(e)
            }
        },
    }
}

} // verus!
