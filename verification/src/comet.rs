//! The comet upload service: request routing, and parsing of comet orbital
//! elements in the fixed-column format of the Minor Planet Center
//! (`CometEls.txt`).
use vstd::prelude::*;
use crate::text::{
    line_at, line_end, lemma_line_end_bounds, next_line, str_equal, decimal_i32, lemma_short_decimal_bounds, parse_decimal_i32, trim, trim_range, trimmed_copy,
};

verus! {

/// Shortest line that holds every orbital column (magnitude parameters end at
/// column 101, the name starts at column 102).
pub const MIN_COMET_LINE: usize = 102;

/// `s` with every pair of spaces, taken left to right, replaced by one space.
pub open spec fn collapse_double_spaces(s: Seq<u8>) -> Seq<u8>
    decreases s.len(),
{
    if s.len() == 0 {
        s
    } else if s.len() >= 2 && s[0] == 32 && s[1] == 32 {
        seq![32u8] + collapse_double_spaces(s.skip(2))
    } else {
        seq![s[0]] + collapse_double_spaces(s.skip(1))
    }
}

/// Index of the first pair of spaces in `s` at or after `i`, or the length of
/// `s` when there is none.
pub open spec fn double_space_from(s: Seq<u8>, i: int) -> int
    decreases s.len() - i,
{
    if i < 0 || i + 1 >= s.len() {
        s.len() as int
    } else if s[i] == 32 && s[i + 1] == 32 {
        i
    } else {
        double_space_from(s, i + 1)
    }
}

/// Truncating integer division, as Rust's `/` on signed integers.
pub open spec fn trunc_div(a: int, d: int) -> int {
    if a >= 0 {
        a / d
    } else {
        -((-a) / d)
    }
}

/// Calendar terms of the Julian-day formula for a (year, month): January and
/// February count as months 13 and 14 of the previous year, and `b` is the
/// Gregorian century correction `2 - a + a / 4` with `a = y / 100`.
#[derive(Clone, Copy, Debug, PartialEq, Eq, Structural)]
pub struct JulianTerms {
    pub y: i32,
    pub m: i32,
    pub b: i32,
}

pub open spec fn julian_terms_spec(year: int, month: int) -> (int, int, int) {
    let y = if month <= 2 {
        year - 1
    } else {
        year
    };
    let m = if month <= 2 {
        month + 12
    } else {
        month
    };
    let a = trunc_div(y, 100);
    (y, m, 2 - a + trunc_div(a, 4))
}

/// The calendar terms of the Julian day of (`year`, `month`).
pub fn julian_terms(year: i32, month: i32) -> (r: JulianTerms)
    requires
        month > 2 || year > i32::MIN,
    ensures
        (r.y as int, r.m as int, r.b as int) == julian_terms_spec(year as int, month as int),
{
    let mut y = year;
    let mut m = month;
    if m <= 2 {
        y -= 1;
        m += 12;
    }
    let a = y / 100;
    let b = 2 - a + (a / 4);
    JulianTerms { y, m, b }
}

/// The fields of one comet record, each as the text of its column (trimmed),
/// with the perihelion year and month parsed (zero where they do not parse).
pub struct CometRecord {
    pub catalog_id: Vec<u8>,
    pub year: i32,
    pub month: i32,
    pub julian: JulianTerms,
    pub day_fraction: Vec<u8>,
    pub perihelion_distance: Vec<u8>,
    pub eccentricity: Vec<u8>,
    pub arg_perihelion: Vec<u8>,
    pub ascending_node: Vec<u8>,
    pub inclination: Vec<u8>,
    pub abs_magnitude: Vec<u8>,
    pub slope: Vec<u8>,
    pub common_name: Vec<u8>,
}

/// The abstract content of a comet record.
pub struct CometFields {
    pub catalog_id: Seq<u8>,
    pub year: int,
    pub month: int,
    pub julian: (int, int, int),
    pub day_fraction: Seq<u8>,
    pub perihelion_distance: Seq<u8>,
    pub eccentricity: Seq<u8>,
    pub arg_perihelion: Seq<u8>,
    pub ascending_node: Seq<u8>,
    pub inclination: Seq<u8>,
    pub abs_magnitude: Seq<u8>,
    pub slope: Seq<u8>,
    pub common_name: Seq<u8>,
}

impl View for CometRecord {
    type V = CometFields;

    open spec fn view(&self) -> CometFields {
        CometFields {
            catalog_id: self.catalog_id@,
            year: self.year as int,
            month: self.month as int,
            julian: (self.julian.y as int, self.julian.m as int, self.julian.b as int),
            day_fraction: self.day_fraction@,
            perihelion_distance: self.perihelion_distance@,
            eccentricity: self.eccentricity@,
            arg_perihelion: self.arg_perihelion@,
            ascending_node: self.ascending_node@,
            inclination: self.inclination@,
            abs_magnitude: self.abs_magnitude@,
            slope: self.slope@,
            common_name: self.common_name@,
        }
    }
}

/// Trimmed text of columns `from..to` of `line`.
pub open spec fn column(line: Seq<u8>, from: int, to: int) -> Seq<u8> {
    trim(line.subrange(from, to))
}

/// A parsed integer column, zero when it does not parse.
pub open spec fn int_column(line: Seq<u8>, from: int, to: int) -> int {
    match decimal_i32(column(line, from, to)) {
        Some(v) => v,
        None => 0,
    }
}

/// The name column: the text after column 102 up to the first double space,
/// trimmed; empty for a line of exactly 102 bytes.
pub open spec fn name_column(line: Seq<u8>) -> Seq<u8> {
    if line.len() > MIN_COMET_LINE {
        let rest = line.skip(MIN_COMET_LINE as int);
        trim(rest.take(double_space_from(rest, 0)))
    } else {
        Seq::empty()
    }
}

/// The record that a comet line of at least `MIN_COMET_LINE` bytes holds.
pub open spec fn comet_fields(line: Seq<u8>) -> CometFields {
    let year = int_column(line, 14, 18);
    let month = int_column(line, 19, 21);
    CometFields {
        catalog_id: collapse_double_spaces(column(line, 0, 12)),
        year,
        month,
        julian: julian_terms_spec(year, month),
        day_fraction: column(line, 22, 29),
        perihelion_distance: column(line, 30, 39),
        eccentricity: column(line, 40, 49),
        arg_perihelion: column(line, 50, 59),
        ascending_node: column(line, 60, 69),
        inclination: column(line, 70, 79),
        abs_magnitude: column(line, 91, 96),
        slope: column(line, 96, 101),
        common_name: name_column(line),
    }
}

/// Why a line is skipped, or that it is a record.
#[derive(Clone, Copy, Debug, PartialEq, Eq, Structural)]
pub enum CometLineKind {
    Blank,
    TooShort,
    MissingMagnitudeParameters,
    /// A column boundary falls inside a multi-byte character, where slicing
    /// the line panics: the whole upload is refused.
    SplitsCharacter,
    Record,
}

/// Whether byte offset `i` of the UTF-8 text `s` is a character boundary,
/// as `str::is_char_boundary` decides it.
pub open spec fn is_char_boundary(s: Seq<u8>, i: int) -> bool {
    i == 0 || i == s.len() || (0 < i < s.len() && !(0x80 <= s[i] < 0xC0))
}

/// The magnitude-parameter columns start and end on character boundaries.
pub open spec fn magnitude_columns_cut(line: Seq<u8>) -> bool {
    is_char_boundary(line, 91) && is_char_boundary(line, 96) && is_char_boundary(line, 101)
}

/// The remaining columns of a record start and end on character boundaries.
pub open spec fn record_columns_cut(line: Seq<u8>) -> bool {
    &&& is_char_boundary(line, 12)
    &&& is_char_boundary(line, 14) && is_char_boundary(line, 18)
    &&& is_char_boundary(line, 19) && is_char_boundary(line, 21)
    &&& is_char_boundary(line, 22) && is_char_boundary(line, 29)
    &&& is_char_boundary(line, 30) && is_char_boundary(line, 39)
    &&& is_char_boundary(line, 40) && is_char_boundary(line, 49)
    &&& is_char_boundary(line, 50) && is_char_boundary(line, 59)
    &&& is_char_boundary(line, 60) && is_char_boundary(line, 69)
    &&& is_char_boundary(line, 70) && is_char_boundary(line, 79)
    &&& line.len() > MIN_COMET_LINE ==> is_char_boundary(line, MIN_COMET_LINE as int)
}

pub open spec fn comet_line_kind(line: Seq<u8>) -> CometLineKind {
    if trim(line).len() == 0 {
        CometLineKind::Blank
    } else if line.len() < MIN_COMET_LINE {
        CometLineKind::TooShort
    } else if !magnitude_columns_cut(line) {
        CometLineKind::SplitsCharacter
    } else if column(line, 91, 96).len() == 0 || column(line, 96, 101).len() == 0 {
        CometLineKind::MissingMagnitudeParameters
    } else if !record_columns_cut(line) {
        CometLineKind::SplitsCharacter
    } else {
        CometLineKind::Record
    }
}

proof fn lemma_collapse_step(s: Seq<u8>, i: int)
    requires
        0 <= i < s.len(),
    ensures
        collapse_double_spaces(s.skip(i)) == (if i + 1 < s.len() && s[i] == 32 && s[i + 1]
            == 32 {
            seq![32u8] + collapse_double_spaces(s.skip(i + 2))
        } else {
            seq![s[i]] + collapse_double_spaces(s.skip(i + 1))
        }),
{
    let t = s.skip(i);
    assert(t[0] == s[i]);
    if t.len() >= 2 {
        assert(t[1] == s[i + 1]);
    }
    assert(t.skip(1) =~= s.skip(i + 1));
    if i + 1 < s.len() {
        assert(t.skip(2) =~= s.skip(i + 2));
    }
}

/// `s[from..to]` with every pair of spaces replaced by one space.
fn collapse_double_spaces_of(s: &[u8], from: usize, to: usize) -> (r: Vec<u8>)
    requires
        from <= to <= s@.len(),
    ensures
        r@ == collapse_double_spaces(s@.subrange(from as int, to as int)),
{
    let ghost src = s@.subrange(from as int, to as int);
    let mut out: Vec<u8> = Vec::new();
    let mut i = from;
    assert(src.skip(0) =~= src);
    assert(out@ + collapse_double_spaces(src) =~= collapse_double_spaces(src));
    while i < to
        invariant
            from <= i <= to <= s@.len(),
            src == s@.subrange(from as int, to as int),
            collapse_double_spaces(src) == out@ + collapse_double_spaces(src.skip(i - from)),
        decreases to - i,
    {
        proof {
            lemma_collapse_step(src, i - from);
            assert(src[i - from] == s@[i as int]);
            if i + 1 < to {
                assert(src[i + 1 - from] == s@[i + 1]);
            }
        }
        let ghost before = out@;
        if i + 1 < to && s[i] == 32 && s[i + 1] == 32 {
            out.push(32u8);
            i += 2;
            assert(out@ =~= before + seq![32u8]);
        } else {
            out.push(s[i]);
            i += 1;
            assert(out@ =~= before + seq![s@[i - 1]]);
        }
    }
    assert(src.skip(to - from) =~= Seq::<u8>::empty());
    assert(collapse_double_spaces(Seq::<u8>::empty()) =~= Seq::<u8>::empty());
    assert(out@ =~= out@ + Seq::<u8>::empty());
    out
}

/// Index of the first pair of spaces in `s[from..]`, relative to `from`, or
/// the length of `s[from..]`.
fn find_double_space(s: &[u8], from: usize) -> (r: usize)
    requires
        from <= s@.len(),
    ensures
        r == double_space_from(s@.skip(from as int), 0),
        r <= s@.len() - from,
{
    let ghost rest = s@.skip(from as int);
    let n = s.len();
    let mut i = from;
    while i < n && i + 1 < n && !(s[i] == 32 && s[i + 1] == 32)
        invariant
            from <= i <= n == s@.len(),
            rest == s@.skip(from as int),
            double_space_from(rest, 0) == double_space_from(rest, i - from),
        decreases n - i,
    {
        proof {
            assert(rest[i - from] == s@[i as int]);
            assert(rest[i - from + 1] == s@[i + 1]);
        }
        i += 1;
    }
    proof {
        if i + 1 < n {
            assert(rest[i - from] == s@[i as int]);
            assert(rest[i - from + 1] == s@[i + 1]);
        }
    }
    if i < n && i + 1 < n {
        i - from
    } else {
        n - from
    }
}

/// A parsed integer column, zero when it does not parse.
fn parse_int_column(line: &[u8], from: usize, to: usize) -> (r: i32)
    requires
        from <= to <= line@.len(),
    ensures
        r as int == int_column(line@, from as int, to as int),
        to - from <= 4 ==> -999 <= r <= 9999,
{
    let (a, b) = trim_range(line, from, to);
    let field = vstd::slice::slice_subrange(line, a, b);
    match parse_decimal_i32(field) {
        Some(v) => {
            proof {
                if to - from <= 4 {
                    lemma_short_decimal_bounds(field@);
                }
            }
            v
        },
        None => 0,
    }
}

fn char_boundary(s: &[u8], i: usize) -> (r: bool)
    ensures
        r == is_char_boundary(s@, i as int),
{
    if i == 0 || i == s.len() {
        true
    } else if i < s.len() {
        !(0x80 <= s[i] && s[i] < 0xC0)
    } else {
        false
    }
}

fn record_cuts(line: &[u8]) -> (r: bool)
    ensures
        r == record_columns_cut(line@),
{
    char_boundary(line, 12) && char_boundary(line, 14) && char_boundary(line, 18)
        && char_boundary(line, 19) && char_boundary(line, 21) && char_boundary(line, 22)
        && char_boundary(line, 29) && char_boundary(line, 30) && char_boundary(line, 39)
        && char_boundary(line, 40) && char_boundary(line, 49) && char_boundary(line, 50)
        && char_boundary(line, 59) && char_boundary(line, 60) && char_boundary(line, 69)
        && char_boundary(line, 70) && char_boundary(line, 79) && (line.len() <= MIN_COMET_LINE
        || char_boundary(line, MIN_COMET_LINE))
}

/// Classifies one comet line, and reads its record when it is one.
pub fn parse_comet_line(line: &[u8]) -> (r: (CometLineKind, Option<CometRecord>))
    ensures
        r.0 == comet_line_kind(line@),
        r.0 == CometLineKind::Record <==> r.1 is Some,
        r.1 matches Some(rec) ==> rec@ == comet_fields(line@),
{
    let n = line.len();
    let (ta, tb) = trim_range(line, 0, n);
    assert(line@.subrange(0, n as int) =~= line@);
    if ta == tb {
        return (CometLineKind::Blank, None);
    }
    if n < MIN_COMET_LINE {
        return (CometLineKind::TooShort, None);
    }
    if !(char_boundary(line, 91) && char_boundary(line, 96) && char_boundary(line, 101)) {
        return (CometLineKind::SplitsCharacter, None);
    }
    let abs_magnitude = trimmed_copy(line, 91, 96);
    let slope = trimmed_copy(line, 96, 101);
    if abs_magnitude.len() == 0 || slope.len() == 0 {
        return (CometLineKind::MissingMagnitudeParameters, None);
    }
    if !record_cuts(line) {
        return (CometLineKind::SplitsCharacter, None);
    }
    let (ca, cb) = trim_range(line, 0, 12);
    let catalog_id = collapse_double_spaces_of(line, ca, cb);
    let year = parse_int_column(line, 14, 18);
    let month = parse_int_column(line, 19, 21);
    let julian = julian_terms(year, month);
    let common_name = if n > MIN_COMET_LINE {
        let cut = find_double_space(line, MIN_COMET_LINE);
        proof {
            let rest = line@.skip(MIN_COMET_LINE as int);
            assert(line@.subrange(MIN_COMET_LINE as int, MIN_COMET_LINE + cut) =~= rest.take(
                cut as int,
            ));
        }
        trimmed_copy(line, MIN_COMET_LINE, MIN_COMET_LINE + cut)
    } else {
        Vec::new()
    };
    let rec = CometRecord {
        catalog_id,
        year,
        month,
        julian,
        day_fraction: trimmed_copy(line, 22, 29),
        perihelion_distance: trimmed_copy(line, 30, 39),
        eccentricity: trimmed_copy(line, 40, 49),
        arg_perihelion: trimmed_copy(line, 50, 59),
        ascending_node: trimmed_copy(line, 60, 69),
        inclination: trimmed_copy(line, 70, 79),
        abs_magnitude,
        slope,
        common_name,
    };
    (CometLineKind::Record, Some(rec))
}

/// The records of the lines from byte `start` on, in order, skipping lines
/// that are not records; `None` when one of those lines splits a character.
pub open spec fn comet_records_from(s: Seq<u8>, start: int) -> Option<Seq<CometFields>>
    decreases s.len() + 1 - start,
    via comet_records_from_decreases
{
    if start < 0 || start >= s.len() {
        Some(Seq::empty())
    } else {
        let line = line_at(s, start);
        let kind = comet_line_kind(line);
        if kind == CometLineKind::SplitsCharacter {
            None
        } else {
            match comet_records_from(s, line_end(s, start) + 1) {
                None => None,
                Some(rest) => Some(
                    if kind == CometLineKind::Record {
                        seq![comet_fields(line)] + rest
                    } else {
                        rest
                    },
                ),
            }
        }
    }
}

/// The views of a list of records.
pub open spec fn record_views(v: Seq<CometRecord>) -> Seq<CometFields> {
    v.map_values(|r: CometRecord| r@)
}

#[via_fn]
proof fn comet_records_from_decreases(s: Seq<u8>, start: int) {
    if 0 <= start < s.len() {
        lemma_line_end_bounds(s, start);
    }
}

/// Reads every comet record of an uploaded `CometEls.txt`, in line order,
/// skipping blank lines, lines shorter than a record, and lines without
/// magnitude parameters; `None` when a line splits a character at a column
/// boundary.
pub fn parse_comet_upload(content: &[u8]) -> (records: Option<Vec<CometRecord>>)
    ensures
        match records {
            Some(v) => comet_records_from(content@, 0) == Some(record_views(v@)),
            None => comet_records_from(content@, 0) is None,
        },
{
    let n = content.len();
    let mut records: Vec<CometRecord> = Vec::new();
    let mut pos: usize = 0;
    while pos < n
        invariant
            n == content@.len(),
            pos <= n,
            comet_records_from(content@, 0) == match comet_records_from(content@, pos as int) {
                Some(rest) => Some(record_views(records@) + rest),
                None => None::<Seq<CometFields>>,
            },
        decreases n - pos,
    {
        let (a, b, next) = next_line(content, pos);
        proof {
            lemma_line_end_bounds(content@, pos as int);
            if line_end(content@, pos as int) == n {
                assert(comet_records_from(content@, n + 1) == Some(Seq::<CometFields>::empty()));
                assert(comet_records_from(content@, n as int) == Some(
                    Seq::<CometFields>::empty(),
                ));
            }
        }
        let line = vstd::slice::slice_subrange(content, a, b);
        let ghost before = records@;
        let (kind, rec) = parse_comet_line(line);
        if kind == CometLineKind::SplitsCharacter {
            return None;
        }
        match rec {
            Some(r) => {
                records.push(r);
            },
            None => {},
        }
        proof {
            assert(record_views(records@) =~= record_views(before) + (if kind
                == CometLineKind::Record {
                seq![comet_fields(line@)]
            } else {
                Seq::empty()
            }));
            match comet_records_from(content@, next as int) {
                Some(rest) => {
                    assert(record_views(before) + (if kind == CometLineKind::Record {
                        seq![comet_fields(line@)] + rest
                    } else {
                        rest
                    }) =~= record_views(records@) + rest);
                },
                None => {},
            }
        }
        pos = next;
    }
    assert(comet_records_from(content@, pos as int) == Some(Seq::<CometFields>::empty()));
    assert(record_views(records@) + Seq::<CometFields>::empty() =~= record_views(records@));
    Some(records)
}

/// What the comet service does with a request.
#[derive(Clone, Copy, Debug, PartialEq, Eq, Structural)]
pub enum CometRoute {
    /// Answer a CORS preflight.
    Preflight,
    /// Replace the comet table with the uploaded elements.
    Upload,
    /// Answer 404.
    NotFound,
}

pub open spec fn comet_route_spec(url: Seq<char>, method: Seq<char>) -> CometRoute {
    if url == "/update-comets"@ && method == "OPTIONS"@ {
        CometRoute::Preflight
    } else if url == "/update-comets"@ && method == "POST"@ {
        CometRoute::Upload
    } else {
        CometRoute::NotFound
    }
}

/// Routes a request by its URL and method.
pub fn comet_route(url: &str, method: &str) -> (r: CometRoute)
    ensures
        r == comet_route_spec(url@, method@),
{
    let on_path = str_equal(url, "/update-comets");
    if on_path && str_equal(method, "OPTIONS") {
        CometRoute::Preflight
    } else if on_path && str_equal(method, "POST") {
        CometRoute::Upload
    } else {
        CometRoute::NotFound
    }
}

} // verus!

