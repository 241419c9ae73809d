//! The multi-file orchestrator.
//!
//! Files are processed strictly in input order. A header names each file
//! when more than one file was given and headers are not suppressed; one
//! blank line separates consecutive files' output; a file whose content
//! could not be read is reported on the error channel and skipped, without
//! aborting the run. The orchestrator itself never touches a file: the
//! caller hands it each file's bytes, or the message of the failure that
//! reading produced, and prints the reports that come back.

use vstd::prelude::*;
use vstd::string::StringExecFns;
use crate::stream::{count_lines_bytes, lines_in, spec_tail_bytes, spec_tail_lines, tail_bytes,
    tail_lines};
use crate::take::TakeValue;

verus! {

/// One run's worth of inputs: the file names, the count specifier for each
/// granularity, and whether headers are suppressed.
///
/// `bytes` being `Some` selects byte granularity with that specifier;
/// otherwise `lines` selects line granularity.
pub struct Config {
    pub files: Vec<String>,
    pub lines: TakeValue,
    pub bytes: Option<TakeValue>,
    pub quiet: bool,
}

/// Everything the run produces for one input file, in order: an optional
/// header line, the streamed bytes, an optional trailing blank separator —
/// or, for a file that could not be read, one error line and no output.
pub struct FileReport {
    pub header: Option<String>,
    pub body: Option<Vec<u8>>,
    pub trailing_blank: bool,
    pub error: Option<String>,
}

/// Are per-file headers shown in this run?
pub open spec fn show_headers(c: Config) -> bool {
    c.files@.len() > 1 && !c.quiet
}

/// The header line printed before a file's output.
pub open spec fn header_of(name: Seq<char>) -> Seq<char> {
    "==> "@ + name + " <=="@
}

/// The error line reported for a file whose content could not be read.
pub open spec fn error_line_of(name: Seq<char>, msg: Seq<char>) -> Seq<char> {
    name + ": "@ + msg
}

/// The bytes that streaming one file emits under a configuration.
pub open spec fn spec_file_body(c: Config, data: Seq<u8>) -> Seq<u8> {
    match c.bytes {
        Some(tv) => spec_tail_bytes(data, tv, data.len() as int),
        None => spec_tail_lines(data, c.lines, lines_in(data)),
    }
}

/// What the report of file `i` must hold, given that file's name and content.
pub open spec fn report_matches(
    rep: FileReport,
    c: Config,
    name: String,
    content: Result<Vec<u8>, String>,
    last: bool,
) -> bool {
    match content {
        Result::Err(e) => {
            &&& rep.header is None
            &&& rep.body is None
            &&& rep.trailing_blank == false
            &&& (rep.error matches Some(line) && line@ == error_line_of(name@, e@))
        },
        Result::Ok(d) => {
            &&& rep.error is None
            &&& (show_headers(c) ==> (rep.header matches Some(h) && h@ == header_of(name@)))
            &&& (!show_headers(c) ==> rep.header is None)
            &&& (rep.body matches Some(b) && b@ == spec_file_body(c, d@))
            &&& rep.trailing_blank == (show_headers(c) && !last)
        },
    }
}

/// Build the header line `==> <name> <==`.
pub fn format_header(name: &str) -> (r: String)
    ensures
        r@ == header_of(name@),
{
    let mut h = String::new();
    h.append("==> ");
    h.append(name);
    h.append(" <==");
    proof {
        assert(h@ =~= header_of(name@));
    }
    h
}

/// Build the error line `<name>: <message>`.
fn format_error_line(name: &str, msg: &str) -> (r: String)
    ensures
        r@ == error_line_of(name@, msg@),
{
    let mut e = String::new();
    e.append(name);
    e.append(": ");
    e.append(msg);
    proof {
        assert(e@ =~= error_line_of(name@, msg@));
    }
    e
}

/// Process every file of a run, in input order.
///
/// `contents` holds, for each file of `config`, either its bytes or the
/// message of the failure that reading it produced. Each input file yields
/// exactly one report, per [`report_matches`]: failures are isolated to
/// their own file and the run always completes.
pub fn run(config: &Config, contents: &Vec<Result<Vec<u8>, String>>) -> (reports: Vec<FileReport>)
    requires
        contents@.len() == config.files@.len(),
        forall|i: int|
            0 <= i < contents@.len() ==> (#[trigger] contents@[i] matches Ok(d) ==> d@.len()
                <= i64::MAX),
    ensures
        reports@.len() == config.files@.len(),
        forall|i: int|
            0 <= i < reports@.len() ==> report_matches(
                #[trigger] reports@[i],
                *config,
                config.files@[i],
                contents@[i],
                i == reports@.len() - 1,
            ),
{
    let n = config.files.len();
    let headers = n > 1 && !config.quiet;
    let mut reports: Vec<FileReport> = Vec::new();
    let mut i: usize = 0;
    while i < n
        invariant
            i <= n,
            n == config.files@.len() == contents@.len(),
            reports@.len() == i,
            headers == show_headers(*config),
            forall|k: int|
                0 <= k < contents@.len() ==> (#[trigger] contents@[k] matches Ok(d) ==> d@.len()
                    <= i64::MAX),
            forall|k: int|
                0 <= k < i ==> report_matches(
                    #[trigger] reports@[k],
                    *config,
                    config.files@[k],
                    contents@[k],
                    k == n - 1,
                ),
        decreases n - i,
    {
        let rep = match &contents[i] {
            Err(e) => FileReport {
                header: None,
                body: None,
                trailing_blank: false,
                error: Some(format_error_line(config.files[i].as_str(), e.as_str())),
            },
            Ok(d) => {
                let (total_lines, total_bytes) = count_lines_bytes(d.as_slice());
                proof {
                    crate::stream::lemma_lines_in_pos(d@);
                }
                let body = match &config.bytes {
                    Some(tv) => tail_bytes(d.as_slice(), tv, total_bytes),
                    None => tail_lines(d.as_slice(), &config.lines, total_lines),
                };
                FileReport {
                    header: if headers {
                        Some(format_header(config.files[i].as_str()))
                    } else {
                        None
                    },
                    body: Some(body),
                    trailing_blank: headers && i + 1 < n,
                    error: None,
                }
            },
        };
        reports.push(rep);
        i = i + 1;
    }
    reports
}

} // verus!
