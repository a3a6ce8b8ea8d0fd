use cypress_astro::comet::{
    comet_route, julian_terms, parse_comet_line, parse_comet_upload, CometLineKind, CometRoute,
};
use cypress_astro::text::{parse_decimal_i32, trim_range};

/// Lays fields out at the byte columns of the comet element format.
fn comet_line(
    id: &str,
    year: &str,
    month: &str,
    day: &str,
    q: &str,
    e: &str,
    h: &str,
    k: &str,
    name: &str,
) -> String {
    let mut line = vec![b' '; 102];
    let mut put = |at: usize, text: &str| {
        for (i, b) in text.bytes().enumerate() {
            line[at + i] = b;
        }
    };
    put(0, id);
    put(14, year);
    put(19, month);
    put(22, day);
    put(30, q);
    put(40, e);
    put(50, "112.2414");
    put(60, " 59.8234");
    put(70, "162.1877");
    put(91, h);
    put(96, k);
    let mut s = String::from_utf8(line).unwrap();
    s.push_str(name);
    s
}

#[test]
fn parses_a_comet_record() {
    let line = comet_line(
        "0001P  ",
        "1986",
        "02",
        " 9.4659",
        " 0.574564",
        " 0.967143",
        " 4.0",
        " 6.0",
        "1P/Halley                                                 98, 927",
    );
    let (kind, rec) = parse_comet_line(line.as_bytes());
    assert_eq!(kind, CometLineKind::Record);
    let rec = rec.unwrap();
    assert_eq!(rec.catalog_id, b"0001P".to_vec());
    assert_eq!((rec.year, rec.month), (1986, 2));
    assert_eq!((rec.julian.y, rec.julian.m, rec.julian.b), (1985, 14, -13));
    assert_eq!(rec.day_fraction, b"9.4659".to_vec());
    assert_eq!(rec.perihelion_distance, b"0.574564".to_vec());
    assert_eq!(rec.eccentricity, b"0.967143".to_vec());
    assert_eq!(rec.arg_perihelion, b"112.2414".to_vec());
    assert_eq!(rec.ascending_node, b"59.8234".to_vec());
    assert_eq!(rec.inclination, b"162.1877".to_vec());
    assert_eq!(rec.abs_magnitude, b"4.0".to_vec());
    assert_eq!(rec.slope, b"6.0".to_vec());
    assert_eq!(rec.common_name, b"1P/Halley".to_vec());
}

#[test]
fn catalog_id_double_spaces_collapse() {
    let line = comet_line("C/2020  F3", "2020", "07", " 3.6", "1", "1", "12", "3", "");
    let (_, rec) = parse_comet_line(line.as_bytes());
    let rec = rec.unwrap();
    assert_eq!(rec.catalog_id, b"C/2020 F3".to_vec());
    assert_eq!(rec.common_name, Vec::<u8>::new());
    assert_eq!((rec.julian.y, rec.julian.m, rec.julian.b), (2020, 7, -13));
}

#[test]
fn unparsable_dates_count_as_zero() {
    let line = comet_line("X", "19x6", "ab", "1", "1", "1", "1", "1", "Name");
    let (_, rec) = parse_comet_line(line.as_bytes());
    let rec = rec.unwrap();
    assert_eq!((rec.year, rec.month), (0, 0));
    assert_eq!((rec.julian.y, rec.julian.m, rec.julian.b), (-1, 12, 2));
}

#[test]
fn skipped_lines() {
    assert_eq!(parse_comet_line(b"   \t ").0, CometLineKind::Blank);
    assert_eq!(parse_comet_line(b"").0, CometLineKind::Blank);
    assert_eq!(parse_comet_line(b"0001P  1986").0, CometLineKind::TooShort);
    let no_h = comet_line("0001P", "1986", "02", "9", "1", "1", "", " 6.0", "");
    let (kind, rec) = parse_comet_line(no_h.as_bytes());
    assert_eq!(kind, CometLineKind::MissingMagnitudeParameters);
    assert!(rec.is_none());
    let no_k = comet_line("0001P", "1986", "02", "9", "1", "1", "4.0", "", "");
    assert_eq!(parse_comet_line(no_k.as_bytes()).0, CometLineKind::MissingMagnitudeParameters);
}

#[test]
fn upload_keeps_records_in_order() {
    let a = comet_line("AAA", "2001", "01", "1", "1", "1", "1.0", "2.0", "First  comet");
    let b = comet_line("BBB", "2002", "03", "1", "1", "1", "1.0", "2.0", "Second");
    let content = format!("{}\r\n\n   \nshort line\n{}", a, b);
    let records = parse_comet_upload(content.as_bytes()).unwrap();
    assert_eq!(records.len(), 2);
    assert_eq!(records[0].catalog_id, b"AAA".to_vec());
    assert_eq!(records[0].common_name, b"First".to_vec());
    assert_eq!(records[1].catalog_id, b"BBB".to_vec());
    assert_eq!(records[1].common_name, b"Second".to_vec());
}

#[test]
fn carriage_return_is_stripped_only_before_line_feed() {
    let mut a = comet_line("AAA", "2001", "01", "1", "1", "1", "1.0", "2.0", "");
    a.truncate(101);
    // Without a line feed the carriage return stays part of the line, which
    // then reaches the record length.
    let records = parse_comet_upload(format!("{}\r", a).as_bytes()).unwrap();
    assert_eq!(records.len(), 1);
    let records = parse_comet_upload(format!("{}\r\n", a).as_bytes()).unwrap();
    assert_eq!(records.len(), 0);
}

#[test]
fn empty_upload_has_no_records() {
    assert!(parse_comet_upload(b"").unwrap().is_empty());
    assert!(parse_comet_upload(b"\n\n").unwrap().is_empty());
}

#[test]
fn julian_terms_of_dates() {
    let t = julian_terms(2024, 3);
    assert_eq!((t.y, t.m, t.b), (2024, 3, -13));
    let t = julian_terms(2000, 1);
    assert_eq!((t.y, t.m, t.b), (1999, 13, -13));
    let t = julian_terms(-5, 1);
    assert_eq!((t.y, t.m, t.b), (-6, 13, 2));
    let t = julian_terms(-250, 6);
    assert_eq!((t.y, t.m, t.b), (-250, 6, 4));
}

#[test]
fn comet_routes() {
    assert_eq!(comet_route("/update-comets", "OPTIONS"), CometRoute::Preflight);
    assert_eq!(comet_route("/update-comets", "POST"), CometRoute::Upload);
    assert_eq!(comet_route("/update-comets", "GET"), CometRoute::NotFound);
    assert_eq!(comet_route("/other", "POST"), CometRoute::NotFound);
}

#[test]
fn decimal_parsing_follows_str_parse() {
    for text in ["0", "+12", "-7", "2147483647", "-2147483648", "007", "", "-", "+", "1 2", "2147483648", "-2147483649", "99999999999999999999", "12a"] {
        let expected = text.parse::<i32>().ok();
        assert_eq!(parse_decimal_i32(text.as_bytes()), expected, "{}", text);
    }
}

#[test]
fn trimming_ascii_whitespace() {
    let s = b"  \tab c\r\n ";
    let (a, b) = trim_range(s, 0, s.len());
    assert_eq!(&s[a..b], b"ab c");
    let (a, b) = trim_range(s, 0, 2);
    assert_eq!(a, b);
}

#[test]
fn unicode_whitespace_is_trimmed() {
    let line = comet_line(
        "0001P",
        "1986",
        "02",
        "9.4659",
        " 0.5\u{a0}",
        "0.9",
        "4.0",
        "6.0",
        "\u{3000}1P/Halley\u{2009}",
    );
    let (kind, rec) = parse_comet_line(line.as_bytes());
    assert_eq!(kind, CometLineKind::Record);
    let rec = rec.unwrap();
    assert_eq!(rec.perihelion_distance, b"0.5".to_vec());
    assert_eq!(rec.common_name, b"1P/Halley".to_vec());
    assert_eq!(parse_comet_line("\u{a0}\u{3000} \u{85}".as_bytes()).0, CometLineKind::Blank);
}

#[test]
fn column_inside_a_character_refuses_the_upload() {
    // A two-byte character across column 91.
    let mut line = comet_line("0001P", "1986", "02", "9", "1", "1", "4.0", "6.0", "Name");
    line.replace_range(90..92, "\u{e9}");
    assert_eq!(parse_comet_line(line.as_bytes()).0, CometLineKind::SplitsCharacter);
    // A two-byte character across column 12, in a line with magnitudes.
    let mut line = comet_line("0001P", "1986", "02", "9", "1", "1", "4.0", "6.0", "Name");
    line.replace_range(11..13, "\u{e9}");
    assert_eq!(parse_comet_line(line.as_bytes()).0, CometLineKind::SplitsCharacter);
    let good = comet_line("AAA", "2001", "01", "1", "1", "1", "1.0", "2.0", "");
    assert!(parse_comet_upload(format!("{}\n{}", good, line).as_bytes()).is_none());
    // Without magnitudes the line is skipped before the other columns are cut.
    let mut no_h = comet_line("0001P", "1986", "02", "9", "1", "1", "", "6.0", "");
    no_h.replace_range(11..13, "\u{e9}");
    assert_eq!(parse_comet_line(no_h.as_bytes()).0, CometLineKind::MissingMagnitudeParameters);
}
