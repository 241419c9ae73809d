//! Verified rendering of a Unix permission word.

use vstd::prelude::*;
use vstd::string::StringExecFns;

verus! {

/// The nine-character permission string for a mode word: read, write and
/// execute flags for owner, group and other.
pub open spec fn mode_str(mode: u32) -> Seq<char> {
    seq![
        if mode & 0o400 != 0 {
            'r'
        } else {
            '-'
        },
        if mode & 0o200 != 0 {
            'w'
        } else {
            '-'
        },
        if mode & 0o100 != 0 {
            'x'
        } else {
            '-'
        },
        if mode & 0o040 != 0 {
            'r'
        } else {
            '-'
        },
        if mode & 0o020 != 0 {
            'w'
        } else {
            '-'
        },
        if mode & 0o010 != 0 {
            'x'
        } else {
            '-'
        },
        if mode & 0o004 != 0 {
            'r'
        } else {
            '-'
        },
        if mode & 0o002 != 0 {
            'w'
        } else {
            '-'
        },
        if mode & 0o001 != 0 {
            'x'
        } else {
            '-'
        },
    ]
}

/// Append one permission flag: the given letter when its bit is set, a dash
/// otherwise.
fn append_flag(out: &mut String, set: bool, flag: &str)
    ensures
        final(out)@ == old(out)@ + if set {
            flag@
        } else {
            "-"@
        },
{
    if set {
        out.append(flag);
    } else {
        out.append("-");
    }
}

/// Render a mode word as its nine-character permission string.
pub fn format_mode(mode: u32) -> (r: String)
    ensures
        r@ == mode_str(mode),
{
    let mut out = String::new();
    append_flag(&mut out, mode & 0o400 != 0, "r");
    append_flag(&mut out, mode & 0o200 != 0, "w");
    append_flag(&mut out, mode & 0o100 != 0, "x");
    append_flag(&mut out, mode & 0o040 != 0, "r");
    append_flag(&mut out, mode & 0o020 != 0, "w");
    append_flag(&mut out, mode & 0o010 != 0, "x");
    append_flag(&mut out, mode & 0o004 != 0, "r");
    append_flag(&mut out, mode & 0o002 != 0, "w");
    append_flag(&mut out, mode & 0o001 != 0, "x");
    proof {
        reveal_strlit("r");
        reveal_strlit("w");
        reveal_strlit("x");
        reveal_strlit("-");
        assert(out@ =~= mode_str(mode));
    }
    out
}

} // verus!
