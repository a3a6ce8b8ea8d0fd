//! Construction of the SQL query behind a catalog search, and the display
//! rules applied to the rows it returns.
use vstd::prelude::*;
use crate::strings::{
    concat, lowercase_of, remove_spaces, to_lowercase, to_uppercase, trim_str, trim_ws,
    uppercase_of, usize_to_decimal, decimal_digits, without_spaces,
};
use crate::text::str_equal;

verus! {

pub open spec fn is_ascii_digit_char(c: char) -> bool {
    '0' <= c <= '9'
}

/// Bytes that `c` takes in UTF-8.
pub open spec fn utf8_width(c: char) -> int {
    let u = c as u32;
    if u < 0x80 {
        1
    } else if u < 0x800 {
        2
    } else if u < 0x10000 {
        3
    } else {
        4
    }
}

/// Bytes that `s` takes in UTF-8.
pub open spec fn utf8_len(s: Seq<char>) -> int
    decreases s.len(),
{
    if s.len() == 0 {
        0
    } else {
        utf8_len(s.drop_last()) + utf8_width(s.last())
    }
}

/// Index of the first ASCII digit of `s` at or after `i`.
pub open spec fn first_digit_from(s: Seq<char>, i: int) -> Option<int>
    decreases s.len() - i,
{
    if i < 0 || i >= s.len() {
        None
    } else if is_ascii_digit_char(s[i]) {
        Some(i)
    } else {
        first_digit_from(s, i + 1)
    }
}

/// The number of leading characters of `s`, from `m` on, whose UTF-8
/// encoding is exactly `k` bytes long, if there is one (byte `k` is then a
/// character boundary).
pub open spec fn char_split_from(s: Seq<char>, k: int, m: int) -> Option<int>
    decreases s.len() + 1 - m,
{
    if m < 0 || m > s.len() {
        None
    } else if utf8_len(s.take(m)) == k {
        Some(m)
    } else if utf8_len(s.take(m)) > k {
        None
    } else {
        char_split_from(s, k, m + 1)
    }
}

/// How a lower-cased query splits into a catalog prefix and a number: at the
/// first ASCII digit, where the digit's character index is used as a byte
/// offset into the string. `None` when that offset is not a character
/// boundary (slicing there would panic).
pub open spec fn search_split(q: Seq<char>) -> Option<(Seq<char>, Seq<char>)> {
    match first_digit_from(q, 0) {
        Some(idx) => match char_split_from(q, idx, 0) {
            Some(m) => Some((trim_ws(q.take(m)), trim_ws(q.skip(m)))),
            None => None,
        },
        None => Some((q, Seq::empty())),
    }
}

/// Catalog label named by a search prefix (full name or abbreviation).
pub open spec fn catalog_alias(p: Seq<char>) -> Option<Seq<char>> {
    if p == "messier"@ || p == "m"@ {
        Some("M"@)
    } else if p == "caldwell"@ || p == "c"@ {
        Some("C"@)
    } else if p == "collinder"@ || p == "col"@ || p == "cr"@ {
        Some("Col"@)
    } else if p == "ngc"@ {
        Some("NGC"@)
    } else if p == "ic"@ {
        Some("IC"@)
    } else if p == "herschel"@ || p == "h"@ {
        Some("H"@)
    } else if p == "barnard"@ || p == "b"@ {
        Some("B"@)
    } else if p == "sharpless"@ || p == "sh2"@ || p == "sh"@ {
        Some("Sh2"@)
    } else if p == "abell"@ || p == "abl"@ {
        Some("Abl"@)
    } else if p == "arp"@ {
        Some("Arp"@)
    } else {
        None
    }
}

/// The condition matching a search text against labels, entries and names.
pub open spec fn base_search_clause() -> Seq<char> {
    "(catalog_label || ' ' || catalog_entry LIKE ? OR REPLACE(catalog_label || catalog_entry, ' ', '') LIKE ? OR common_name LIKE ? OR catalog_entry = ?)"@
}

pub open spec fn like_pattern(s: Seq<char>) -> Seq<char> {
    "%"@ + s + "%"@
}

/// The text-search condition and its arguments for a trimmed, lower-cased
/// query; `None` where splitting the query would panic.
pub open spec fn text_search_spec(q: Seq<char>) -> Option<(Seq<char>, Seq<Seq<char>>)> {
    match search_split(q) {
        None => None,
        Some((prefix, num)) => {
            let args = seq![
                like_pattern(q),
                like_pattern(without_spaces(q)),
                like_pattern(q),
                q,
            ];
            match catalog_alias(prefix) {
                Some(label) => if num.len() > 0 {
                    Some(
                        (
                            "("@ + base_search_clause()
                                + " OR (catalog_label = ? AND catalog_entry = ?))"@,
                            args + seq![label, num],
                        ),
                    )
                } else {
                    Some(("("@ + base_search_clause() + " OR catalog_label = ?)"@, args.push(label)))
                },
                None => Some((base_search_clause(), args)),
            }
        },
    }
}

fn char_width(c: char) -> (w: usize)
    ensures
        w == utf8_width(c),
{
    let u = c as u32;
    if u < 0x80 {
        1
    } else if u < 0x800 {
        2
    } else if u < 0x10000 {
        3
    } else {
        4
    }
}

fn find_first_digit(s: &str) -> (r: Option<usize>)
    ensures
        match r {
            Some(i) => first_digit_from(s@, 0) == Some(i as int),
            None => first_digit_from(s@, 0) is None,
        },
{
    let n = s.unicode_len();
    let mut i: usize = 0;
    while i < n
        invariant
            n == s@.len(),
            i <= n,
            first_digit_from(s@, 0) == first_digit_from(s@, i as int),
        decreases n - i,
    {
        let c = s.get_char(i);
        if '0' <= c && c <= '9' {
            return Some(i);
        }
        i += 1;
    }
    None
}

proof fn lemma_utf8_len_grows(s: Seq<char>, m: int)
    requires
        0 <= m < s.len(),
    ensures
        utf8_len(s.take(m + 1)) == utf8_len(s.take(m)) + utf8_width(s[m]),
        utf8_width(s[m]) >= 1,
{
    assert(s.take(m + 1).drop_last() =~= s.take(m));
}

fn find_char_split(s: &str, k: usize) -> (r: Option<usize>)
    ensures
        match r {
            Some(m) => char_split_from(s@, k as int, 0) == Some(m as int) && m <= s@.len(),
            None => char_split_from(s@, k as int, 0) is None,
        },
{
    let n = s.unicode_len();
    let mut m: usize = 0;
    let mut bytes: usize = 0;
    assert(s@.take(0) =~= Seq::<char>::empty());
    while m < n && bytes < k
        invariant
            n == s@.len(),
            m <= n,
            bytes == utf8_len(s@.take(m as int)),
            bytes <= k,
            char_split_from(s@, k as int, 0) == char_split_from(s@, k as int, m as int),
        decreases n - m,
    {
        proof {
            lemma_utf8_len_grows(s@, m as int);
        }
        let w = char_width(s.get_char(m));
        if w > k - bytes {
            proof {
                assert(utf8_len(s@.take(m + 1)) > k);
                assert(char_split_from(s@, k as int, m as int + 1) is None);
            }
            return None;
        }
        bytes = bytes + w;
        m += 1;
    }
    if bytes == k {
        Some(m)
    } else {
        proof {
            assert(char_split_from(s@, k as int, m as int + 1) is None);
        }
        None
    }
}

/// Catalog label for a search prefix, if it names one.
pub fn lookup_catalog_alias(p: &str) -> (r: Option<String>)
    ensures
        match catalog_alias(p@) {
            Some(l) => r matches Some(s) && s@ == l,
            None => r is None,
        },
{
    if str_equal(p, "messier") || str_equal(p, "m") {
        Some("M".to_owned())
    } else if str_equal(p, "caldwell") || str_equal(p, "c") {
        Some("C".to_owned())
    } else if str_equal(p, "collinder") || str_equal(p, "col") || str_equal(p, "cr") {
        Some("Col".to_owned())
    } else if str_equal(p, "ngc") {
        Some("NGC".to_owned())
    } else if str_equal(p, "ic") {
        Some("IC".to_owned())
    } else if str_equal(p, "herschel") || str_equal(p, "h") {
        Some("H".to_owned())
    } else if str_equal(p, "barnard") || str_equal(p, "b") {
        Some("B".to_owned())
    } else if str_equal(p, "sharpless") || str_equal(p, "sh2") || str_equal(p, "sh") {
        Some("Sh2".to_owned())
    } else if str_equal(p, "abell") || str_equal(p, "abl") {
        Some("Abl".to_owned())
    } else if str_equal(p, "arp") {
        Some("Arp".to_owned())
    } else {
        None
    }
}

fn like_of(s: &str) -> (r: String)
    ensures
        r@ == like_pattern(s@),
{
    let a = concat("%", s);
    concat(a.as_str(), "%")
}

/// The text-search condition and its arguments for a trimmed, lower-cased
/// query `q`.
pub fn text_search_clause(q: &str) -> (r: Option<(String, Vec<String>)>)
    ensures
        match text_search_spec(q@) {
            Some((clause, args)) => r matches Some((c, a)) && c@ == clause && a@.len()
                == args.len() && forall|i: int| 0 <= i < args.len() ==> #[trigger] a@[i]@
                == args[i],
            None => r is None,
        },
{
    let (prefix, num) = match find_first_digit(q) {
        Some(idx) => match find_char_split(q, idx) {
            Some(m) => {
                let n = q.unicode_len();
                let p = trim_str(q.substring_char(0, m));
                let d = trim_str(q.substring_char(m, n));
                proof {
                    assert(q@.subrange(0, m as int) =~= q@.take(m as int));
                    assert(q@.subrange(m as int, n as int) =~= q@.skip(m as int));
                }
                (p, d)
            },
            None => {
                return None;
            },
        },
        None => (q.to_owned(), String::new()),
    };
    assert(search_split(q@) matches Some((pp, nn)) && pp == prefix@ && nn == num@);
    let mut args: Vec<String> = Vec::new();
    args.push(like_of(q));
    let no_space = remove_spaces(q);
    args.push(like_of(no_space.as_str()));
    args.push(like_of(q));
    args.push(q.to_owned());
    let base = "(catalog_label || ' ' || catalog_entry LIKE ? OR REPLACE(catalog_label || catalog_entry, ' ', '') LIKE ? OR common_name LIKE ? OR catalog_entry = ?)";
    let ghost args0 = seq![
        like_pattern(q@),
        like_pattern(without_spaces(q@)),
        like_pattern(q@),
        q@,
    ];
    assert(args@.len() == 4);
    assert(forall|i: int| 0 <= i < 4 ==> #[trigger] args@[i]@ == args0[i]);
    match lookup_catalog_alias(prefix.as_str()) {
        Some(label) => {
            if num.unicode_len() > 0 {
                let open = concat("(", base);
                let clause = concat(open.as_str(), " OR (catalog_label = ? AND catalog_entry = ?))");
                let ghost lv = label@;
                let ghost nv = num@;
                args.push(label);
                args.push(num);
                assert(args@.len() == 6);
                assert(forall|i: int| 0 <= i < 6 ==> #[trigger] args@[i]@ == (args0 + seq![lv, nv])[i]);
                Some((clause, args))
            } else {
                let open = concat("(", base);
                let clause = concat(open.as_str(), " OR catalog_label = ?)");
                let ghost lv = label@;
                args.push(label);
                assert(forall|i: int| 0 <= i < 5 ==> #[trigger] args@[i]@ == args0.push(lv)[i]);
                Some((clause, args))
            }
        },
        None => Some((base.to_owned(), args)),
    }
}

/// The text-search condition and its arguments for a raw query, which is
/// trimmed and lower-cased first. `None` when the query splits inside a
/// multi-byte character (the point at which a byte slice would panic).
pub fn text_search_terms(query: &str) -> (r: Option<(String, String, Vec<String>)>)
    ensures
        match text_search_spec(lowercase_of(trim_ws(query@))) {
            Some((clause, args)) => r matches Some((lower, c, a)) && lower@ == lowercase_of(
                trim_ws(query@),
            ) && c@ == clause && a@.len() == args.len() && forall|i: int|
                0 <= i < args.len() ==> #[trigger] a@[i]@ == args[i],
            None => r is None,
        },
{
    let trimmed = trim_str(query);
    let lower = to_lowercase(trimmed.as_str());
    match text_search_clause(lower.as_str()) {
        Some((c, a)) => Some((lower, c, a)),
        None => None,
    }
}

/// A query argument: text, or a magnitude bound (bound as a real number).
pub enum SqlArg {
    Text(String),
    Magnitude(i32),
}

/// The abstract value of a query argument.
pub enum SqlValue {
    Text(Seq<char>),
    Magnitude(int),
}

impl View for SqlArg {
    type V = SqlValue;

    open spec fn view(&self) -> SqlValue {
        match self {
            SqlArg::Text(s) => SqlValue::Text(s@),
            SqlArg::Magnitude(m) => SqlValue::Magnitude(*m as int),
        }
    }
}

pub open spec fn text_values(s: Seq<Seq<char>>) -> Seq<SqlValue> {
    s.map_values(|t: Seq<char>| SqlValue::Text(t))
}

/// How results are ordered.
#[derive(Clone, Copy, Debug, PartialEq, Eq, Structural)]
pub enum SortKey {
    /// Named objects first, by name, then by catalog number.
    ByName,
    /// By catalog rank (solar system, stars, Messier, ...), then number.
    ByCatalogId,
    /// Brightest first, popular catalogs first among equals.
    Brightness,
    /// Nearest to the sky location first (brightness when there is none).
    SkyLocation,
}

/// A sort order requested through the decrowding distance, whose negative
/// values the client uses to ask for the orders the ordering field cannot
/// carry: -1 for by name, -2 for by catalog id.
#[derive(Clone, Copy, Debug, PartialEq, Eq, Structural)]
pub enum SortOverride {
    ByName,
    ByCatalogId,
    NoOverride,
}

/// The ordering field of a request.
#[derive(Clone, Copy, Debug, PartialEq, Eq, Structural)]
pub enum RequestedOrdering {
    Brightness,
    SkyLocation,
    Other,
}

pub open spec fn sort_key_spec(over: SortOverride, ordering: Option<RequestedOrdering>) -> SortKey {
    match over {
        SortOverride::ByName => SortKey::ByName,
        SortOverride::ByCatalogId => SortKey::ByCatalogId,
        SortOverride::NoOverride => match ordering {
            Some(RequestedOrdering::SkyLocation) => SortKey::SkyLocation,
            _ => SortKey::Brightness,
        },
    }
}

/// The sort key of a request: an override wins over the ordering field;
/// anything but sky location sorts by brightness.
pub fn sort_key(over: SortOverride, ordering: Option<RequestedOrdering>) -> (r: SortKey)
    ensures
        r == sort_key_spec(over, ordering),
        over == SortOverride::ByName ==> r == SortKey::ByName,
        over == SortOverride::ByCatalogId ==> r == SortKey::ByCatalogId,
        over == SortOverride::NoOverride ==> (r == SortKey::SkyLocation <==> ordering == Some(
            RequestedOrdering::SkyLocation,
        )),
        over == SortOverride::NoOverride && ordering != Some(RequestedOrdering::SkyLocation)
            ==> r == SortKey::Brightness,
{
    match over {
        SortOverride::ByName => SortKey::ByName,
        SortOverride::ByCatalogId => SortKey::ByCatalogId,
        SortOverride::NoOverride => match ordering {
            Some(RequestedOrdering::SkyLocation) => SortKey::SkyLocation,
            _ => SortKey::Brightness,
        },
    }
}

/// The parameters of a catalog search. Conditions that depend on sky
/// geometry (`distance_condition`, `elevation_condition`) and the proximity
/// expression for `SortKey::SkyLocation` arrive already written as SQL.
pub struct CatalogQuery {
    pub text_search: Option<String>,
    pub faintest_magnitude: Option<i32>,
    pub match_catalog_label: bool,
    pub catalog_label: Vec<String>,
    pub match_object_type_label: bool,
    pub object_type_label: Vec<String>,
    pub distance_condition: Option<String>,
    pub elevation_condition: Option<String>,
    pub sort: SortKey,
    pub proximity: Option<String>,
    pub limit: Option<usize>,
}

/// Results returned when the request sets no limit.
pub const DEFAULT_QUERY_LIMIT: usize = 500;

/// `n` placeholders separated by commas.
pub open spec fn placeholders(n: nat) -> Seq<char>
    decreases n,
{
    if n == 0 {
        Seq::empty()
    } else if n == 1 {
        "?"@
    } else {
        placeholders((n - 1) as nat) + ",?"@
    }
}

/// Number of `?` placeholders in an SQL text.
pub open spec fn placeholder_count(s: Seq<char>) -> nat
    decreases s.len(),
{
    if s.len() == 0 {
        0
    } else {
        placeholder_count(s.drop_last()) + if s.last() == '?' {
            1nat
        } else {
            0nat
        }
    }
}

/// An SQL text without `?` placeholders.
pub open spec fn free_of_placeholders(s: Seq<char>) -> bool {
    forall|i: int| 0 <= i < s.len() ==> s[i] != '?'
}

pub open spec fn membership_op(matching: bool) -> Seq<char> {
    if matching {
        "IN"@
    } else {
        "NOT IN"@
    }
}

/// Catalog label to filter by for a requested label: "IAU" means the star
/// catalog and "PL" the planets (compared case-insensitively).
pub open spec fn filter_label(l: Seq<char>) -> Seq<char> {
    if uppercase_of(l) == "IAU"@ {
        "Str"@
    } else if uppercase_of(l) == "PL"@ {
        "Planet"@
    } else {
        l
    }
}

pub open spec fn catalog_label_clause(matching: bool, n: nat) -> Seq<char> {
    " AND LOWER(catalog_label) "@ + membership_op(matching) + " ("@ + placeholders(n) + ")"@
}

pub open spec fn object_type_clause(matching: bool, n: nat) -> Seq<char> {
    " AND LOWER(object_type) "@ + membership_op(matching) + " ("@ + placeholders(n) + ")"@
}

pub open spec fn magnitude_clause() -> Seq<char> {
    " AND (magnitude IS NULL OR magnitude <= ?)"@
}

pub open spec fn name_order() -> Seq<char> {
    "ORDER BY (CASE WHEN c.common_name IS NULL OR c.common_name = '' THEN 1 ELSE 0 END) ASC, c.common_name ASC, CAST(c.catalog_entry AS INTEGER) ASC NULLS LAST, c.catalog_entry ASC"@
}

pub open spec fn catalog_id_order() -> Seq<char> {
    "ORDER BY (CASE c.catalog_label WHEN 'Planet' THEN 0 WHEN 'Moon' THEN 0 WHEN 'Solar System' THEN 0 WHEN 'Str' THEN 1 WHEN 'M' THEN 2 WHEN 'C' THEN 3 WHEN 'Col' THEN 4 WHEN 'NGC' THEN 5 WHEN 'IC' THEN 6 WHEN 'Asteroid' THEN 7 WHEN 'Comet' THEN 8 WHEN 'H' THEN 9 WHEN 'B' THEN 10 WHEN 'Sh2' THEN 11 WHEN 'Abl' THEN 12 WHEN 'Arp' THEN 13 WHEN 'SaA' THEN 14 WHEN 'SaM' THEN 15 WHEN 'SaR' THEN 16 WHEN 'Ta2' THEN 17 WHEN 'Har' THEN 18 WHEN 'RDS' THEN 19 WHEN 'EGC' THEN 20 ELSE 99 END) ASC, CAST(c.catalog_entry AS INTEGER) ASC NULLS LAST, c.catalog_entry ASC"@
}

pub open spec fn brightness_order() -> Seq<char> {
    "ORDER BY c.magnitude ASC NULLS LAST, CASE c.catalog_label WHEN 'M' THEN 1 WHEN 'C' THEN 2 WHEN 'Col' THEN 3 WHEN 'NGC' THEN 4 WHEN 'IC' THEN 5 WHEN 'H' THEN 6 WHEN 'B' THEN 7 WHEN 'Sh2' THEN 8 WHEN 'Abl' THEN 9 WHEN 'Arp' THEN 10 ELSE 11 END ASC"@
}

/// The ORDER BY clause for a sort key and an optional proximity expression.
pub open spec fn order_clause_spec(sort: SortKey, proximity: Option<Seq<char>>) -> Seq<char> {
    match sort {
        SortKey::ByName => name_order(),
        SortKey::ByCatalogId => catalog_id_order(),
        SortKey::SkyLocation => match proximity {
            Some(p) => "ORDER BY "@ + p + " DESC NULLS LAST"@,
            None => brightness_order(),
        },
        SortKey::Brightness => brightness_order(),
    }
}

pub open spec fn select_prefix() -> Seq<char> {
    "SELECT c.catalog_entry, c.ra, c.dec, c.magnitude, c.catalog_label, c.object_type, c.broad_category, c.constellation, c.common_name, c.angular_size FROM catalog c WHERE "@
}

pub open spec fn opt_view(s: Option<String>) -> Option<Seq<char>> {
    match s {
        Some(t) => Some(t@),
        None => None,
    }
}

pub open spec fn strings_view(v: Seq<String>) -> Seq<Seq<char>> {
    v.map_values(|t: String| t@)
}

/// The condition appended for the text search, and its arguments; `None`
/// when the search text would make the query construction panic.
pub open spec fn text_stage(q: CatalogQuery) -> Option<(Seq<char>, Seq<SqlValue>)> {
    match q.text_search {
        None => Some((Seq::empty(), Seq::empty())),
        Some(t) => match text_search_spec(lowercase_of(trim_ws(t@))) {
            Some((clause, args)) => Some((" AND "@ + clause, text_values(args))),
            None => None,
        },
    }
}

pub open spec fn magnitude_stage(q: CatalogQuery) -> (Seq<char>, Seq<SqlValue>) {
    match q.faintest_magnitude {
        Some(m) => (magnitude_clause(), seq![SqlValue::Magnitude(m as int)]),
        None => (Seq::empty(), Seq::empty()),
    }
}

pub open spec fn catalog_label_stage(q: CatalogQuery) -> (Seq<char>, Seq<SqlValue>) {
    let labels = strings_view(q.catalog_label@);
    if labels.len() == 0 {
        (Seq::empty(), Seq::empty())
    } else {
        (
            catalog_label_clause(q.match_catalog_label, labels.len()),
            text_values(labels.map_values(|l: Seq<char>| lowercase_of(filter_label(l)))),
        )
    }
}

pub open spec fn object_type_stage(q: CatalogQuery) -> (Seq<char>, Seq<SqlValue>) {
    let labels = strings_view(q.object_type_label@);
    if labels.len() == 0 {
        (Seq::empty(), Seq::empty())
    } else {
        (
            object_type_clause(q.match_object_type_label, labels.len()),
            text_values(labels.map_values(|l: Seq<char>| lowercase_of(l))),
        )
    }
}

pub open spec fn condition_stage(c: Option<String>) -> Seq<char> {
    match c {
        Some(t) => " AND "@ + t@,
        None => Seq::empty(),
    }
}

/// The full SQL text and argument list of a catalog search; `None` when the
/// search text would make the query construction panic.
pub open spec fn catalog_query_spec(q: CatalogQuery) -> Option<(Seq<char>, Seq<SqlValue>)> {
    match text_stage(q) {
        None => None,
        Some((tc, ta)) => {
            let (mc, ma) = magnitude_stage(q);
            let (lc, la) = catalog_label_stage(q);
            let (oc, oa) = object_type_stage(q);
            let selection = "1=1"@ + tc + mc + lc + oc + condition_stage(q.distance_condition)
                + condition_stage(q.elevation_condition);
            let limit = match q.limit {
                Some(l) => l,
                None => DEFAULT_QUERY_LIMIT,
            };
            Some(
                (
                    select_prefix() + selection + " "@ + order_clause_spec(q.sort, opt_view(q.proximity))
                        + " LIMIT "@ + decimal_digits(limit as nat),
                    ta + ma + la + oa,
                ),
            )
        },
    }
}

fn placeholder_list(n: usize) -> (r: String)
    ensures
        r@ == placeholders(n as nat),
{
    let mut r = String::new();
    let mut i: usize = 0;
    while i < n
        invariant
            i <= n,
            r@ == placeholders(i as nat),
        decreases n - i,
    {
        if i == 0 {
            r.append("?");
        } else {
            r.append(",?");
        }
        i += 1;
    }
    r
}

/// The catalog label to filter by for a requested label.
pub fn map_filter_label(l: &str) -> (r: String)
    ensures
        r@ == filter_label(l@),
{
    let upper = to_uppercase(l);
    if str_equal(upper.as_str(), "IAU") {
        "Str".to_owned()
    } else if str_equal(upper.as_str(), "PL") {
        "Planet".to_owned()
    } else {
        l.to_owned()
    }
}

/// The argument values of an argument list.
pub open spec fn arg_values(v: Seq<SqlArg>) -> Seq<SqlValue> {
    v.map_values(|a: SqlArg| a@)
}

fn append_args(args: &mut Vec<SqlArg>, new_args: Vec<SqlArg>)
    ensures
        arg_values(final(args)@) == arg_values(old(args)@) + arg_values(new_args@),
{
    let mut more = new_args;
    let ghost added = more@;
    args.append(&mut more);
    assert(arg_values(args@) =~= arg_values(old(args)@) + arg_values(added));
}

/// Arguments holding each of `texts` as text.
fn text_args(texts: Vec<String>) -> (r: Vec<SqlArg>)
    ensures
        arg_values(r@) == text_values(strings_view(texts@)),
{
    let mut r: Vec<SqlArg> = Vec::new();
    let n = texts.len();
    let mut i: usize = 0;
    while i < n
        invariant
            n == texts@.len(),
            i <= n,
            r@.len() == i,
            forall|j: int| 0 <= j < i ==> #[trigger] r@[j]@ == SqlValue::Text(texts@[j]@),
        decreases n - i,
    {
        let t = texts[i].clone();
        r.push(SqlArg::Text(t));
        i += 1;
    }
    assert(arg_values(r@) =~= text_values(strings_view(texts@)));
    r
}

/// Lower-cased filter labels for the requested catalog labels.
fn catalog_filter_args(labels: &Vec<String>) -> (r: Vec<String>)
    ensures
        strings_view(r@) == strings_view(labels@).map_values(
            |l: Seq<char>| lowercase_of(filter_label(l)),
        ),
{
    let mut r: Vec<String> = Vec::new();
    let n = labels.len();
    let mut i: usize = 0;
    while i < n
        invariant
            n == labels@.len(),
            i <= n,
            r@.len() == i,
            forall|j: int|
                0 <= j < i ==> #[trigger] r@[j]@ == lowercase_of(filter_label(labels@[j]@)),
        decreases n - i,
    {
        let mapped = map_filter_label(labels[i].as_str());
        r.push(to_lowercase(mapped.as_str()));
        i += 1;
    }
    assert(strings_view(r@) =~= strings_view(labels@).map_values(
        |l: Seq<char>| lowercase_of(filter_label(l)),
    ));
    r
}

/// Lower-cased object-type labels.
fn lowercase_all(labels: &Vec<String>) -> (r: Vec<String>)
    ensures
        strings_view(r@) == strings_view(labels@).map_values(|l: Seq<char>| lowercase_of(l)),
{
    let mut r: Vec<String> = Vec::new();
    let n = labels.len();
    let mut i: usize = 0;
    while i < n
        invariant
            n == labels@.len(),
            i <= n,
            r@.len() == i,
            forall|j: int| 0 <= j < i ==> #[trigger] r@[j]@ == lowercase_of(labels@[j]@),
        decreases n - i,
    {
        r.push(to_lowercase(labels[i].as_str()));
        i += 1;
    }
    assert(strings_view(r@) =~= strings_view(labels@).map_values(|l: Seq<char>| lowercase_of(l)));
    r
}

/// The ORDER BY clause for a sort key and an optional proximity expression.
pub fn order_clause(sort: SortKey, proximity: &Option<String>) -> (r: String)
    ensures
        r@ == order_clause_spec(sort, opt_view(*proximity)),
{
    let brightness = "ORDER BY c.magnitude ASC NULLS LAST, CASE c.catalog_label WHEN 'M' THEN 1 WHEN 'C' THEN 2 WHEN 'Col' THEN 3 WHEN 'NGC' THEN 4 WHEN 'IC' THEN 5 WHEN 'H' THEN 6 WHEN 'B' THEN 7 WHEN 'Sh2' THEN 8 WHEN 'Abl' THEN 9 WHEN 'Arp' THEN 10 ELSE 11 END ASC";
    match sort {
        SortKey::ByName => "ORDER BY (CASE WHEN c.common_name IS NULL OR c.common_name = '' THEN 1 ELSE 0 END) ASC, c.common_name ASC, CAST(c.catalog_entry AS INTEGER) ASC NULLS LAST, c.catalog_entry ASC".to_owned(),
        SortKey::ByCatalogId => "ORDER BY (CASE c.catalog_label WHEN 'Planet' THEN 0 WHEN 'Moon' THEN 0 WHEN 'Solar System' THEN 0 WHEN 'Str' THEN 1 WHEN 'M' THEN 2 WHEN 'C' THEN 3 WHEN 'Col' THEN 4 WHEN 'NGC' THEN 5 WHEN 'IC' THEN 6 WHEN 'Asteroid' THEN 7 WHEN 'Comet' THEN 8 WHEN 'H' THEN 9 WHEN 'B' THEN 10 WHEN 'Sh2' THEN 11 WHEN 'Abl' THEN 12 WHEN 'Arp' THEN 13 WHEN 'SaA' THEN 14 WHEN 'SaM' THEN 15 WHEN 'SaR' THEN 16 WHEN 'Ta2' THEN 17 WHEN 'Har' THEN 18 WHEN 'RDS' THEN 19 WHEN 'EGC' THEN 20 ELSE 99 END) ASC, CAST(c.catalog_entry AS INTEGER) ASC NULLS LAST, c.catalog_entry ASC".to_owned(),
        SortKey::SkyLocation => match proximity {
            Some(p) => {
                let head = concat("ORDER BY ", p.as_str());
                concat(head.as_str(), " DESC NULLS LAST")
            },
            None => brightness.to_owned(),
        },
        SortKey::Brightness => brightness.to_owned(),
    }
}

fn append_text_stage(selection: &mut String, args: &mut Vec<SqlArg>, q: &CatalogQuery) -> (ok: bool)
    ensures
        ok == (text_stage(*q) is Some),
        ok ==> final(selection)@ == old(selection)@ + (text_stage(*q)->0).0,
        ok ==> arg_values(final(args)@) == arg_values(old(args)@) + (text_stage(*q)->0).1,
{
    match &q.text_search {
        Some(t) => match text_search_terms(t.as_str()) {
            Some((_lower, clause, texts)) => {
                selection.append(" AND ");
                selection.append(clause.as_str());
                let ghost tv = strings_view(texts@);
                assert(tv =~= (text_search_spec(lowercase_of(trim_ws(t@)))->0).1);
                append_args(args, text_args(texts));
                true
            },
            None => false,
        },
        None => {
            assert(arg_values(args@) =~= arg_values(args@) + Seq::<SqlValue>::empty());
            assert(selection@ =~= selection@ + Seq::<char>::empty());
            true
        },
    }
}

fn append_magnitude_stage(selection: &mut String, args: &mut Vec<SqlArg>, q: &CatalogQuery)
    ensures
        final(selection)@ == old(selection)@ + magnitude_stage(*q).0,
        arg_values(final(args)@) == arg_values(old(args)@) + magnitude_stage(*q).1,
{
    match q.faintest_magnitude {
        Some(m) => {
            selection.append(" AND (magnitude IS NULL OR magnitude <= ?)");
            let mut v: Vec<SqlArg> = Vec::new();
            v.push(SqlArg::Magnitude(m));
            assert(arg_values(v@) =~= seq![SqlValue::Magnitude(m as int)]);
            append_args(args, v);
        },
        None => {
            assert(arg_values(args@) =~= arg_values(args@) + Seq::<SqlValue>::empty());
            assert(selection@ =~= selection@ + Seq::<char>::empty());
        },
    }
}

fn append_membership(selection: &mut String, head: &str, matching: bool, n: usize)
    ensures
        final(selection)@ == old(selection)@ + head@ + membership_op(matching) + " ("@
            + placeholders(n as nat) + ")"@,
{
    selection.append(head);
    if matching {
        selection.append("IN");
    } else {
        selection.append("NOT IN");
    }
    selection.append(" (");
    let ph = placeholder_list(n);
    selection.append(ph.as_str());
    selection.append(")");
}

fn append_catalog_label_stage(selection: &mut String, args: &mut Vec<SqlArg>, q: &CatalogQuery)
    ensures
        final(selection)@ == old(selection)@ + catalog_label_stage(*q).0,
        arg_values(final(args)@) == arg_values(old(args)@) + catalog_label_stage(*q).1,
{
    let n = q.catalog_label.len();
    if n > 0 {
        append_membership(selection, " AND LOWER(catalog_label) ", q.match_catalog_label, n);
        let mapped = catalog_filter_args(&q.catalog_label);
        append_args(args, text_args(mapped));
        assert(selection@ =~= old(selection)@ + catalog_label_stage(*q).0);
    } else {
        assert(arg_values(args@) =~= arg_values(args@) + Seq::<SqlValue>::empty());
        assert(selection@ =~= selection@ + Seq::<char>::empty());
    }
}

fn append_object_type_stage(selection: &mut String, args: &mut Vec<SqlArg>, q: &CatalogQuery)
    ensures
        final(selection)@ == old(selection)@ + object_type_stage(*q).0,
        arg_values(final(args)@) == arg_values(old(args)@) + object_type_stage(*q).1,
{
    let n = q.object_type_label.len();
    if n > 0 {
        append_membership(selection, " AND LOWER(object_type) ", q.match_object_type_label, n);
        let lowered = lowercase_all(&q.object_type_label);
        append_args(args, text_args(lowered));
        assert(selection@ =~= old(selection)@ + object_type_stage(*q).0);
    } else {
        assert(arg_values(args@) =~= arg_values(args@) + Seq::<SqlValue>::empty());
        assert(selection@ =~= selection@ + Seq::<char>::empty());
    }
}

fn append_condition(selection: &mut String, c: &Option<String>)
    ensures
        final(selection)@ == old(selection)@ + condition_stage(*c),
{
    match c {
        Some(t) => {
            selection.append(" AND ");
            selection.append(t.as_str());
        },
        None => {
            assert(selection@ =~= selection@ + Seq::<char>::empty());
        },
    }
}

/// Builds the SQL text and arguments of a catalog search. Returns `None`
/// when the search text splits inside a multi-byte character, where building
/// the query would panic.
pub fn build_catalog_query(q: &CatalogQuery) -> (r: Option<(String, Vec<SqlArg>)>)
    ensures
        match catalog_query_spec(*q) {
            Some((sql, args)) => r matches Some((s, a)) && s@ == sql && arg_values(a@) == args,
            None => r is None,
        },
{
    let mut selection = "1=1".to_owned();
    let mut args: Vec<SqlArg> = Vec::new();
    assert(arg_values(args@) =~= Seq::<SqlValue>::empty());
    if !append_text_stage(&mut selection, &mut args, q) {
        return None;
    }
    append_magnitude_stage(&mut selection, &mut args, q);
    append_catalog_label_stage(&mut selection, &mut args, q);
    append_object_type_stage(&mut selection, &mut args, q);
    append_condition(&mut selection, &q.distance_condition);
    append_condition(&mut selection, &q.elevation_condition);
    let order = order_clause(q.sort, &q.proximity);
    let limit = match q.limit {
        Some(l) => l,
        None => DEFAULT_QUERY_LIMIT,
    };
    let mut sql = "SELECT c.catalog_entry, c.ra, c.dec, c.magnitude, c.catalog_label, c.object_type, c.broad_category, c.constellation, c.common_name, c.angular_size FROM catalog c WHERE ".to_owned();
    sql.append(selection.as_str());
    sql.append(" ");
    sql.append(order.as_str());
    sql.append(" LIMIT ");
    let limit_text = usize_to_decimal(limit);
    sql.append(limit_text.as_str());
    let ghost (tc, ta) = text_stage(*q)->0;
    let ghost (mc, ma) = magnitude_stage(*q);
    let ghost (lc, la) = catalog_label_stage(*q);
    let ghost (oc, oa) = object_type_stage(*q);
    assert(selection@ =~= "1=1"@ + tc + mc + lc + oc + condition_stage(q.distance_condition)
        + condition_stage(q.elevation_condition));
    assert(arg_values(args@) =~= ta + ma + la + oa);
    Some((sql, args))
}

/// Labels of the star and solar-system catalogs, whose entries are shown
/// without a catalog label.
pub open spec fn is_unlabelled_catalog(label: Seq<char>) -> bool {
    label == "Str"@ || label == "Planet"@ || label == "Asteroid"@ || label == "Comet"@
}

/// The designation a row is shown under: the entry alone for unlabelled
/// catalogs, label and entry otherwise.
pub open spec fn designation(label: Seq<char>, entry: Seq<char>) -> Seq<char> {
    if is_unlabelled_catalog(label) {
        entry
    } else {
        label + entry
    }
}

/// The common name shown for a row: none when it is empty or merely
/// restates the designation (ignoring spaces and case).
pub open spec fn shown_common_name(label: Seq<char>, entry: Seq<char>, common: Seq<char>) -> Option<
    Seq<char>,
> {
    if common.len() == 0 {
        None
    } else if lowercase_of(without_spaces(common)) == lowercase_of(
        without_spaces(designation(label, entry)),
    ) {
        None
    } else {
        Some(common)
    }
}

/// The catalog label shown for a row.
pub open spec fn shown_label(label: Seq<char>) -> Seq<char> {
    if is_unlabelled_catalog(label) {
        Seq::empty()
    } else {
        label
    }
}

/// The text parts of a catalog row as they are shown.
pub struct ShownEntry {
    pub catalog_label: String,
    pub catalog_entry: String,
    pub common_name: Option<String>,
    pub constellation: Option<String>,
}

/// Applies the display rules to the text columns of a catalog row: star and
/// solar-system entries lose their catalog label, a common name that only
/// restates the designation is dropped, and an empty constellation is none.
pub fn shown_entry(label: &str, entry: &str, common: &str, constellation: &str) -> (r: ShownEntry)
    ensures
        r.catalog_label@ == shown_label(label@),
        r.catalog_entry@ == entry@,
        opt_view(r.common_name) == shown_common_name(label@, entry@, common@),
        opt_view(r.constellation) == (if constellation@.len() == 0 {
            None
        } else {
            Some(constellation@)
        }),
{
    let unlabelled = str_equal(label, "Str") || str_equal(label, "Planet") || str_equal(
        label,
        "Asteroid",
    ) || str_equal(label, "Comet");
    let common_name = if common.unicode_len() == 0 {
        None
    } else {
        let desig = if unlabelled {
            entry.to_owned()
        } else {
            concat(label, entry)
        };
        let common_norm = to_lowercase(remove_spaces(common).as_str());
        let desig_norm = to_lowercase(remove_spaces(desig.as_str()).as_str());
        if str_equal(common_norm.as_str(), desig_norm.as_str()) {
            None
        } else {
            Some(common.to_owned())
        }
    };
    let shown_label = if unlabelled {
        String::new()
    } else {
        label.to_owned()
    };
    let constellation = if constellation.unicode_len() == 0 {
        None
    } else {
        Some(constellation.to_owned())
    };
    ShownEntry {
        catalog_label: shown_label,
        catalog_entry: entry.to_owned(),
        common_name,
        constellation,
    }
}

} // verus!

