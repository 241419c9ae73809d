use tailr::stream::{count_lines_bytes, tail_bytes, tail_lines};
use tailr::take::parse_num;
use tailr::take::TakeValue::{PlusZero, TakeNum};

#[test]
fn counting_lines_and_bytes() {
    assert_eq!(count_lines_bytes(b""), (0, 0));
    assert_eq!(count_lines_bytes(b"hello\nworld\n"), (2, 12));
    // a trailing span without a terminator still counts as one line
    assert_eq!(count_lines_bytes(b"abc"), (1, 3));
    assert_eq!(count_lines_bytes(b"one\ntwo\nthree"), (3, 13));
    assert_eq!(count_lines_bytes(b"\n\n\n"), (3, 3));
}

#[test]
fn last_three_lines_of_ten() {
    // a 10-line file and a request for the last 3
    let data: Vec<u8> = (1..=10)
        .map(|i| format!("line {}\n", i))
        .collect::<String>()
        .into_bytes();
    let (lines, _) = count_lines_bytes(&data);
    assert_eq!(lines, 10);
    assert_eq!(tailr::take::get_start_index(&TakeNum(-3), lines), Some(7));
    let out = tail_lines(&data, &TakeNum(-3), lines);
    assert_eq!(out, b"line 8\nline 9\nline 10\n");
}

#[test]
fn count_past_a_one_line_file_emits_nothing() {
    // "+5" parses to TakeNum(5); with one line, 5 > 1 resolves to nothing
    let spec = parse_num("+5").unwrap();
    assert_eq!(spec, TakeNum(5));
    let data = b"only line\n";
    let (lines, _) = count_lines_bytes(data);
    assert_eq!(lines, 1);
    assert_eq!(tailr::take::get_start_index(&spec, lines), None);
    assert_eq!(tail_lines(data, &spec, lines), b"");
}

#[test]
fn empty_file_emits_nothing() {
    let data = b"";
    let (lines, bytes) = count_lines_bytes(data);
    assert_eq!((lines, bytes), (0, 0));
    assert_eq!(tail_lines(data, &TakeNum(-5), lines), b"");
    assert_eq!(tail_lines(data, &PlusZero, lines), b"");
    assert_eq!(tail_bytes(data, &TakeNum(3), bytes), b"");
}

#[test]
fn whole_file_round_trips_exactly() {
    let data: &[u8] = b"alpha\nbeta\r\n\xff\xfe raw bytes\ngamma";
    let (lines, bytes) = count_lines_bytes(data);

    // +0 reproduces the file in both granularities
    assert_eq!(tail_lines(data, &PlusZero, lines), data);
    assert_eq!(tail_bytes(data, &PlusZero, bytes), data);

    // so does a negative count at least as large as the total
    assert_eq!(tail_lines(data, &TakeNum(-lines), lines), data);
    assert_eq!(tail_lines(data, &TakeNum(-1000), lines), data);
    assert_eq!(tail_bytes(data, &TakeNum(-bytes), bytes), data);
    assert_eq!(tail_bytes(data, &TakeNum(i64::MIN), bytes), data);
}

#[test]
fn byte_mode_skips_to_the_offset() {
    let data = b"0123456789";
    let (_, bytes) = count_lines_bytes(data);
    assert_eq!(tail_bytes(data, &TakeNum(-4), bytes), b"6789");
    assert_eq!(tail_bytes(data, &TakeNum(4), bytes), b"3456789");
    assert_eq!(tail_bytes(data, &TakeNum(10), bytes), b"9");
    assert_eq!(tail_bytes(data, &TakeNum(11), bytes), b"");
    assert_eq!(tail_bytes(data, &TakeNum(0), bytes), b"");
}

#[test]
fn line_mode_keeps_terminators_verbatim() {
    let data = b"a\r\nb\nc";
    let (lines, _) = count_lines_bytes(data);
    assert_eq!(lines, 3);
    assert_eq!(tail_lines(data, &TakeNum(-2), lines), b"b\nc");
    assert_eq!(tail_lines(data, &TakeNum(2), lines), b"b\nc");
    assert_eq!(tail_lines(data, &TakeNum(-1), lines), b"c");
}
