//! Verified counting of lines, words, bytes and characters in a text.

use vstd::prelude::*;
use vstd::string::{StringExecFns, StringSliceAdditionalSpecFns};
use crate::text::{chars_of, dec_digits, spaces, u64_to_string};

verus! {

/// Is `c` a Unicode whitespace character?
pub open spec fn is_space(c: char) -> bool {
    let u = c as u32;
    (9 <= u && u <= 13) || u == 0x20 || u == 0x85 || u == 0xA0 || u == 0x1680 || (0x2000 <= u && u
        <= 0x200A) || u == 0x2028 || u == 0x2029 || u == 0x202F || u == 0x205F || u == 0x3000
}

/// Whitespace test on a single character.
pub fn char_is_space(c: char) -> (r: bool)
    ensures
        r == is_space(c),
{
    let u = c as u32;
    (9 <= u && u <= 13) || u == 0x20 || u == 0x85 || u == 0xA0 || u == 0x1680 || (0x2000 <= u && u
        <= 0x200A) || u == 0x2028 || u == 0x2029 || u == 0x202F || u == 0x205F || u == 0x3000
}

/// How many newline characters `s` holds.
pub open spec fn newline_chars(s: Seq<char>) -> int
    decreases s.len(),
{
    if s.len() == 0 {
        0
    } else {
        newline_chars(s.drop_last()) + if s.last() == '\n' {
            1int
        } else {
            0int
        }
    }
}

/// How many lines a text holds, a trailing unterminated span counting as one.
pub open spec fn lines_in_text(s: Seq<char>) -> int {
    newline_chars(s) + if s.len() > 0 && s.last() != '\n' {
        1int
    } else {
        0int
    }
}

/// How many words `s` holds: maximal runs of non-whitespace characters.
pub open spec fn word_count(s: Seq<char>) -> int
    decreases s.len(),
{
    if s.len() == 0 {
        0
    } else {
        word_count(s.drop_last()) + if !is_space(s.last()) && (s.len() == 1 || is_space(
            s[s.len() - 2],
        )) {
            1int
        } else {
            0int
        }
    }
}

/// A text cannot hold more newlines than characters.
proof fn lemma_newline_chars_le(s: Seq<char>)
    ensures
        newline_chars(s) <= s.len(),
    decreases s.len(),
{
    if s.len() > 0 {
        lemma_newline_chars_le(s.drop_last());
    }
}

/// The per-file counters: lines, words, bytes and characters.
#[derive(Debug, PartialEq, Eq, Structural)]
pub struct FileInfo {
    pub num_lines: usize,
    pub num_words: usize,
    pub num_bytes: usize,
    pub num_chars: usize,
}

/// Count the lines, words, bytes and characters of a text in one pass.
pub fn count(text: &str) -> (r: FileInfo)
    ensures
        r.num_lines == lines_in_text(text@),
        r.num_words == word_count(text@),
        r.num_bytes == text.spec_bytes().len() as usize,
        r.num_chars == text@.len(),
{
    let num_bytes = text.len();
    let cs = chars_of(text);
    let n = cs.len();
    let mut newlines: usize = 0;
    let mut words: usize = 0;
    let mut i: usize = 0;
    while i < n
        invariant
            i <= n,
            n == cs@.len(),
            cs@ == text@,
            newlines == newline_chars(cs@.subrange(0, i as int)),
            words == word_count(cs@.subrange(0, i as int)),
            newlines <= i,
            words <= i,
        decreases n - i,
    {
        let c = cs[i];
        proof {
            assert(cs@.subrange(0, i + 1 as int).drop_last() =~= cs@.subrange(0, i as int));
            assert(cs@.subrange(0, i + 1 as int).last() == cs@[i as int]);
        }
        if c == '\n' {
            newlines = newlines + 1;
        }
        if !char_is_space(c) && (i == 0 || char_is_space(cs[i - 1])) {
            words = words + 1;
        }
        i = i + 1;
    }
    proof {
        assert(cs@.subrange(0, n as int) =~= text@);
    }
    let num_lines = if n > 0 && cs[n - 1] != '\n' {
        proof {
            assert(text@.drop_last() =~= cs@.subrange(0, n - 1));
            lemma_newline_chars_le(text@.drop_last());
        }
        newlines + 1
    } else {
        newlines
    };
    FileInfo { num_lines, num_words: words, num_bytes, num_chars: n }
}

/// A counter as one output column: the value in decimal, right-aligned in a
/// field of eight characters.
pub open spec fn padded_count(n: int) -> Seq<char> {
    spaces(8 - dec_digits(n).len()) + dec_digits(n)
}

/// Render one counter column.
fn format_count(n: usize) -> (r: String)
    ensures
        r@ == padded_count(n as int),
{
    let digits = u64_to_string(n as u64);
    let len = digits.as_str().unicode_len();
    let pad: usize = if len >= 8 {
        0
    } else {
        8 - len
    };
    let mut out = String::new();
    let mut j: usize = 0;
    while j < pad
        invariant
            j <= pad,
            out@ == spaces(j as int),
        decreases pad - j,
    {
        out.append(" ");
        proof {
            reveal_strlit(" ");
            assert(" "@ =~= seq![' ']);
            assert(out@ =~= spaces(j + 1 as int));
        }
        j = j + 1;
    }
    proof {
        assert(spaces(pad as int) == spaces(8 - dec_digits(n as int).len()));
    }
    out.append(digits.as_str());
    out
}

/// Append one counter column to the output when its flag is set; leave the
/// output untouched otherwise.
pub fn append_number_if(output: &mut String, input: usize, condition: bool)
    ensures
        condition ==> final(output)@ == old(output)@ + padded_count(input as int),
        !condition ==> final(output)@ == old(output)@,
{
    if condition {
        let col = format_count(input);
        output.append(col.as_str());
    }
}

} // verus!
