use tailr::run::{format_header, run, Config};
use tailr::take::TakeValue::{PlusZero, TakeNum};

fn config(files: Vec<&str>, quiet: bool) -> Config {
    Config {
        files: files.into_iter().map(String::from).collect(),
        lines: TakeNum(-10),
        bytes: None,
        quiet,
    }
}

#[test]
fn header_format() {
    assert_eq!(format_header("a.txt"), "==> a.txt <==");
}

#[test]
fn one_existing_one_missing_file() {
    // two files, one missing: the existing one still gets its header and
    // content, the missing one only an error line, and the run completes
    let c = config(vec!["a.txt", "missing.txt"], false);
    let contents = vec![
        Ok(b"hello\nworld\n".to_vec()),
        Err("No such file or directory (os error 2)".to_string()),
    ];
    let reports = run(&c, &contents);
    assert_eq!(reports.len(), 2);

    assert_eq!(reports[0].header.as_deref(), Some("==> a.txt <=="));
    assert_eq!(reports[0].body.as_deref(), Some(&b"hello\nworld\n"[..]));
    assert!(reports[0].trailing_blank);
    assert!(reports[0].error.is_none());

    assert!(reports[1].header.is_none());
    assert!(reports[1].body.is_none());
    assert!(!reports[1].trailing_blank);
    assert_eq!(
        reports[1].error.as_deref(),
        Some("missing.txt: No such file or directory (os error 2)")
    );
}

#[test]
fn single_file_has_no_header() {
    let c = config(vec!["a.txt"], false);
    let contents = vec![Ok(b"x\ny\n".to_vec())];
    let reports = run(&c, &contents);
    assert_eq!(reports.len(), 1);
    assert!(reports[0].header.is_none());
    assert_eq!(reports[0].body.as_deref(), Some(&b"x\ny\n"[..]));
    assert!(!reports[0].trailing_blank);
}

#[test]
fn quiet_suppresses_headers() {
    let c = config(vec!["a.txt", "b.txt"], true);
    let contents = vec![Ok(b"a\n".to_vec()), Ok(b"b\n".to_vec())];
    let reports = run(&c, &contents);
    assert!(reports[0].header.is_none());
    assert!(reports[1].header.is_none());
    assert!(!reports[0].trailing_blank);
    assert!(!reports[1].trailing_blank);
}

#[test]
fn blank_line_separates_files_but_not_after_the_last() {
    let c = config(vec!["a", "b", "c"], false);
    let contents = vec![
        Ok(b"1\n".to_vec()),
        Ok(b"2\n".to_vec()),
        Ok(b"3\n".to_vec()),
    ];
    let reports = run(&c, &contents);
    assert!(reports[0].trailing_blank);
    assert!(reports[1].trailing_blank);
    assert!(!reports[2].trailing_blank);
}

#[test]
fn byte_mode_selects_bytes_per_file() {
    let c = Config {
        files: vec!["a".to_string(), "b".to_string()],
        lines: TakeNum(-10),
        bytes: Some(TakeNum(-3)),
        quiet: false,
    };
    let contents = vec![Ok(b"abcdef".to_vec()), Ok(b"xy".to_vec())];
    let reports = run(&c, &contents);
    assert_eq!(reports[0].body.as_deref(), Some(&b"def"[..]));
    // fewer bytes than asked for: the whole file
    assert_eq!(reports[1].body.as_deref(), Some(&b"xy"[..]));
}

#[test]
fn line_mode_selects_the_requested_tail() {
    let c = config(vec!["ten"], false);
    let mut text = String::new();
    for i in 1..=10 {
        text.push_str(&format!("line {}\n", i));
    }
    let contents = vec![Ok(text.into_bytes())];
    let mut c = c;
    c.lines = TakeNum(-3);
    let reports = run(&c, &contents);
    assert_eq!(
        reports[0].body.as_deref(),
        Some(&b"line 8\nline 9\nline 10\n"[..])
    );
}

#[test]
fn plus_zero_streams_whole_files() {
    let mut c = config(vec!["a"], false);
    c.lines = PlusZero;
    let contents = vec![Ok(b"p\nq\nr".to_vec())];
    let reports = run(&c, &contents);
    assert_eq!(reports[0].body.as_deref(), Some(&b"p\nq\nr"[..]));
}
