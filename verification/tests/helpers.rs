use tailr::calendar::{parse_month, parse_year};
use tailr::fortune::{pick_fortune, Fortune};
use tailr::listing::format_mode;
use tailr::wc::{append_number_if, count, FileInfo};

#[test]
fn test_parse_year() {
    let res = parse_year("1");
    assert!(res.is_ok());
    assert_eq!(res.unwrap(), 1i32);

    let res = parse_year("9999");
    assert!(res.is_ok());
    assert_eq!(res.unwrap(), 9999i32);

    let res = parse_year("0");
    assert!(res.is_err());
    assert_eq!(
        res.unwrap_err().to_string(),
        "year \"0\" not in the range 1 through 9999"
    );

    let res = parse_year("10000");
    assert!(res.is_err());
    assert_eq!(
        res.unwrap_err().to_string(),
        "year \"10000\" not in the range 1 through 9999"
    );

    let res = parse_year("foo");
    assert!(res.is_err());
    assert_eq!(res.unwrap_err().to_string(), "Invalid integer \"foo\"");
}

#[test]
fn test_parse_month() {
    let res = parse_month("1");
    assert!(res.is_ok());
    assert_eq!(res.unwrap(), 1u32);

    let res = parse_month("12");
    assert!(res.is_ok());
    assert_eq!(res.unwrap(), 12u32);

    let res = parse_month("jan");
    assert!(res.is_ok());
    assert_eq!(res.unwrap(), 1u32);

    let res = parse_month("0");
    assert!(res.is_err());
    assert_eq!(
        res.unwrap_err().to_string(),
        "month \"0\" not in the range 1 through 12"
    );

    let res = parse_month("13");
    assert!(res.is_err());
    assert_eq!(
        res.unwrap_err().to_string(),
        "month \"13\" not in the range 1 through 12"
    );

    let res = parse_month("foo");
    assert!(res.is_err());
    assert_eq!(res.unwrap_err().to_string(), "Invalid month \"foo\"");
}

#[test]
fn month_prefixes_pick_the_earliest_match() {
    // "ju" is a prefix of June before July
    assert_eq!(parse_month("ju").unwrap(), 6);
    assert_eq!(parse_month("jul").unwrap(), 7);
    // matching ignores ASCII letter case
    assert_eq!(parse_month("DEC").unwrap(), 12);
    assert_eq!(parse_month("May").unwrap(), 5);
}

#[test]
fn test_format_mode() {
    assert_eq!(format_mode(0o755), "rwxr-xr-x");
    assert_eq!(format_mode(0o421), "r---w---x");
}

#[test]
fn format_mode_extremes() {
    assert_eq!(format_mode(0o777), "rwxrwxrwx");
    assert_eq!(format_mode(0), "---------");
}

#[test]
fn test_count() {
    let text = "I don't want the world. I just want your half.\r\n";
    let info = count(text);

    let expected = FileInfo {
        num_lines: 1,
        num_words: 10,
        num_chars: 48,
        num_bytes: 48,
    };

    assert_eq!(info, expected);
}

#[test]
fn count_multibyte_text() {
    // three words, two lines, more bytes than characters
    let info = count("héllo wörld\nokay");
    assert_eq!(info.num_lines, 2);
    assert_eq!(info.num_words, 3);
    assert_eq!(info.num_chars, 16);
    assert_eq!(info.num_bytes, 18);
}

#[test]
fn count_empty_text() {
    let info = count("");
    assert_eq!(
        info,
        FileInfo {
            num_lines: 0,
            num_words: 0,
            num_bytes: 0,
            num_chars: 0,
        }
    );
}

#[test]
fn append_number_pads_to_eight_columns() {
    let mut out = String::new();
    append_number_if(&mut out, 42, true);
    assert_eq!(out, "      42");
    append_number_if(&mut out, 7, false);
    assert_eq!(out, "      42");
    append_number_if(&mut out, 123456789, true);
    assert_eq!(out, "      42123456789");
}

#[test]
fn test_pick_fortune() {
    // Create a slice of fortunes
    let fortunes = &[
        Fortune {
            source: "fortunes".to_string(),
            text: "You cannot achieve the impossible without \
                          attempting the absurd."
                .to_string(),
        },
        Fortune {
            source: "fortunes".to_string(),
            text: "Assumption is the mother of all screw-ups.".to_string(),
        },
        Fortune {
            source: "fortunes".to_string(),
            text: "Neckties strangle clear thinking.".to_string(),
        },
    ];

    // Pick a fortune with a seed
    assert_eq!(
        pick_fortune(fortunes, Some(1)).unwrap(),
        "Neckties strangle clear thinking.".to_string()
    );
}

#[test]
fn pick_fortune_handles_an_empty_collection() {
    assert_eq!(pick_fortune(&[], Some(1)), None);
    assert_eq!(pick_fortune(&[], None), None);
}

#[test]
fn pick_fortune_without_a_seed_yields_some_text() {
    let fortunes = &[
        Fortune {
            source: "a".to_string(),
            text: "first".to_string(),
        },
        Fortune {
            source: "a".to_string(),
            text: "second".to_string(),
        },
    ];
    let picked = pick_fortune(fortunes, None).unwrap();
    assert!(picked == "first" || picked == "second");
}

#[test]
fn return_value_is_two_hundred() {
    assert_eq!(tailr::return_value(), 200);
}

#[test]
fn test_numbers() {
    // literals
    // hex
    assert_eq!(0xff, 255);

    // Binary
    assert_eq!(0b0010_1010, 42);

    // base 8
    assert_eq!(0o106, 70);

    // Char codes
    assert_eq!(b'A', 65u8);
}

#[test]
fn test_arrays() {
    let numbers: [u32; 6] = [1, 2, 3, 4, 5, 6];
    let legends = ["Pathfinder", "Ash", "White Castle"];

    assert_eq!(numbers[2], 3);
    assert_eq!(legends.len(), 3);

    // an array 1024 elements long all filled with 0
    let _kilobyte_buffer = [0u8; 1024];

    let mut chaos = [4, 8, 3, 0];
    chaos.sort();
    assert_eq!(chaos, [0, 3, 4, 8]);
}

#[test]
fn test_vectors() {
    let mut primes = vec![2, 3, 5, 7];
    assert_eq!(primes.iter().product::<i32>(), 210);

    primes.push(11);
    primes.push(13);

    assert_eq!(primes.iter().product::<i32>(), 30030);

    let _pixles = vec![0; 1080 * 1920];
}

#[test]
fn test_slices() {
    // a slice is a "fat pointer" made up of a pointer to the slice's first
    // element and the number of elements in the slice
}
