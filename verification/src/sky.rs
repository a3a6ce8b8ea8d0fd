//! Selection rules of the in-memory sky catalog: which entries a search
//! keeps, how an entry key is resolved, and constellation names.
use vstd::prelude::*;
use crate::strings::{lowercase_of, to_lowercase};
use crate::text::str_equal;

verus! {

/// `needle` occurs in `hay` (the empty string occurs everywhere).
pub open spec fn occurs_in(hay: Seq<char>, needle: Seq<char>) -> bool {
    exists|i: int| 0 <= i <= hay.len() - needle.len() && #[trigger] hay.subrange(i, i + needle.len()) == needle
}

fn chars_of(s: &str) -> (r: Vec<char>)
    ensures
        r@ == s@,
{
    let n = s.unicode_len();
    let mut r: Vec<char> = Vec::new();
    let mut i: usize = 0;
    while i < n
        invariant
            n == s@.len(),
            i <= n,
            r@ == s@.take(i as int),
        decreases n - i,
    {
        r.push(s.get_char(i));
        i += 1;
        assert(r@ =~= s@.take(i as int));
    }
    assert(s@.take(n as int) =~= s@);
    r
}

fn matches_at(hay: &Vec<char>, needle: &Vec<char>, i: usize) -> (r: bool)
    requires
        i + needle@.len() <= hay@.len(),
    ensures
        r == (hay@.subrange(i as int, i + needle@.len()) == needle@),
{
    let m = needle.len();
    let hl = hay.len();
    let mut j: usize = 0;
    while j < m
        invariant
            m == needle@.len(),
            hl == hay@.len(),
            i + m <= hay@.len(),
            j <= m,
            forall|t: int| 0 <= t < j ==> hay@[i + t] == needle@[t],
        decreases m - j,
    {
        if hay[i + j] != needle[j] {
            assert(hay@.subrange(i as int, i + m)[j as int] != needle@[j as int]);
            return false;
        }
        j += 1;
    }
    assert(hay@.subrange(i as int, i + m) =~= needle@);
    true
}

/// `str::contains` for a string pattern.
pub fn contains_str(hay: &str, needle: &str) -> (r: bool)
    ensures
        r == occurs_in(hay@, needle@),
{
    let h = chars_of(hay);
    let nd = chars_of(needle);
    let hn = h.len();
    let nn = nd.len();
    if nn > hn {
        return false;
    }
    let mut i: usize = 0;
    while i <= hn - nn
        invariant_except_break
            hn == h@.len(),
            nn == nd@.len(),
            nn <= hn,
            i <= hn - nn,
            h@ == hay@,
            nd@ == needle@,
            forall|t: int| 0 <= t < i ==> #[trigger] h@.subrange(t, t + nn) != nd@,
        ensures
            hn == h@.len(),
            nn == nd@.len(),
            h@ == hay@,
            nd@ == needle@,
            forall|t: int| 0 <= t <= hn - nn ==> #[trigger] h@.subrange(t, t + nn) != nd@,
        decreases hn - nn - i,
    {
        if matches_at(&h, &nd, i) {
            return true;
        }
        if i == hn - nn {
            break;
        }
        i += 1;
    }
    proof {
        assert forall|t: int| 0 <= t <= hay@.len() - needle@.len() implies #[trigger] hay@.subrange(
            t,
            t + needle@.len(),
        ) != needle@ by {
            assert(h@.subrange(t, t + nn) != nd@);
        }
    }
    false
}

/// Whether the lower-cased `text` occurs in the lower-cased field.
pub open spec fn text_matches(field: Seq<char>, text: Seq<char>) -> bool {
    occurs_in(lowercase_of(field), lowercase_of(text))
}

/// `list` holds `s`.
pub open spec fn holds(list: Seq<String>, s: Seq<char>) -> bool {
    exists|i: int| 0 <= i < list.len() && #[trigger] list[i]@ == s
}

fn list_holds(list: &Vec<String>, s: &str) -> (r: bool)
    ensures
        r == holds(list@, s@),
{
    let n = list.len();
    let mut i: usize = 0;
    while i < n
        invariant
            n == list@.len(),
            i <= n,
            forall|t: int| 0 <= t < i ==> #[trigger] list@[t]@ != s@,
        decreases n - i,
    {
        if str_equal(list[i].as_str(), s) {
            return true;
        }
        i += 1;
    }
    false
}

/// The search-filter settings of a sky-catalog query.
pub struct SkyFilter {
    pub match_catalog_label: bool,
    pub catalog_label: Vec<String>,
    pub match_object_type_label: bool,
    pub object_type_label: Vec<String>,
    pub text_search: Option<String>,
}

/// Whether the search keeps an entry: it is not fainter than the limit
/// (`too_faint`), its catalog and broad category are among the requested
/// ones when those filters are on, and the search text occurs (ignoring
/// case) in its catalog label, entry or common name.
pub open spec fn sky_entry_kept(
    f: SkyFilter,
    too_faint: bool,
    label: Seq<char>,
    entry: Seq<char>,
    broad_category: Seq<char>,
    common_name: Option<Seq<char>>,
) -> bool {
    &&& !too_faint
    &&& f.match_catalog_label ==> holds(f.catalog_label@, label)
    &&& f.match_object_type_label ==> holds(f.object_type_label@, broad_category)
    &&& match f.text_search {
        Some(t) => text_matches(label, t@) || text_matches(entry, t@) || match common_name {
            Some(c) => text_matches(c, t@),
            None => false,
        },
        None => true,
    }
}

fn lower_contains(field: &str, lower_text: &str) -> (r: bool)
    ensures
        r == occurs_in(lowercase_of(field@), lower_text@),
{
    let lf = to_lowercase(field);
    contains_str(lf.as_str(), lower_text)
}

/// Applies the search filters to one catalog entry.
pub fn sky_entry_passes(
    f: &SkyFilter,
    too_faint: bool,
    label: &str,
    entry: &str,
    broad_category: &str,
    common_name: Option<&str>,
) -> (r: bool)
    ensures
        r == sky_entry_kept(
            *f,
            too_faint,
            label@,
            entry@,
            broad_category@,
            match common_name {
                Some(c) => Some(c@),
                None => None,
            },
        ),
{
    if too_faint {
        return false;
    }
    if f.match_catalog_label && !list_holds(&f.catalog_label, label) {
        return false;
    }
    if f.match_object_type_label && !list_holds(&f.object_type_label, broad_category) {
        return false;
    }
    match &f.text_search {
        Some(text) => {
            let lower = to_lowercase(text.as_str());
            let mut matched = false;
            if lower_contains(label, lower.as_str()) {
                matched = true;
            }
            if lower_contains(entry, lower.as_str()) {
                matched = true;
            }
            match common_name {
                Some(c) => {
                    if lower_contains(c, lower.as_str()) {
                        matched = true;
                    }
                },
                None => {},
            }
            matched
        },
        None => true,
    }
}

/// Where an entry key was found.
#[derive(Clone, Copy, Debug, PartialEq, Eq, Structural)]
pub enum EntryLocation {
    /// At this index of the solar-system cache.
    SolarSystem(usize),
    /// At this index of the catalog.
    Catalog(usize),
    NotFound,
}

/// First index `i` with `entries[i] == entry` (and `labels[i] == label` when
/// labels are given).
pub open spec fn first_match(
    labels: Option<Seq<String>>,
    entries: Seq<String>,
    label: Seq<char>,
    entry: Seq<char>,
    i: int,
) -> bool {
    &&& 0 <= i < entries.len()
    &&& entries[i]@ == entry
    &&& labels matches Some(ls) ==> ls[i]@ == label
    &&& forall|j: int|
        0 <= j < i ==> !(#[trigger] entries[j]@ == entry && (labels matches Some(ls) ==> ls[j]@
            == label))
}

pub open spec fn any_match(
    labels: Option<Seq<String>>,
    entries: Seq<String>,
    label: Seq<char>,
    entry: Seq<char>,
) -> bool {
    exists|i: int|
        0 <= i < entries.len() && #[trigger] entries[i]@ == entry && (labels matches Some(ls)
            ==> ls[i]@ == label)
}

/// Resolution of an entry key: keys of the "SYS" catalog are looked up by
/// entry name in the solar-system cache first; then the catalog is searched
/// for the first entry with the same label and entry.
pub open spec fn entry_location_spec(
    solar_entries: Seq<String>,
    labels: Seq<String>,
    entries: Seq<String>,
    key_label: Seq<char>,
    key_entry: Seq<char>,
    r: EntryLocation,
) -> bool {
    let solar_hit = key_label == "SYS"@ && any_match(None, solar_entries, key_label, key_entry);
    let catalog_hit = any_match(Some(labels), entries, key_label, key_entry);
    if solar_hit {
        r matches EntryLocation::SolarSystem(i) && first_match(
            None,
            solar_entries,
            key_label,
            key_entry,
            i as int,
        )
    } else if catalog_hit {
        r matches EntryLocation::Catalog(i) && first_match(
            Some(labels),
            entries,
            key_label,
            key_entry,
            i as int,
        )
    } else {
        r == EntryLocation::NotFound
    }
}

/// Resolves an entry key against the solar-system cache and the catalog
/// (`labels[i]`, `entries[i]` describe catalog entry `i`).
pub fn locate_entry(
    solar_entries: &Vec<String>,
    labels: &Vec<String>,
    entries: &Vec<String>,
    key_label: &str,
    key_entry: &str,
) -> (r: EntryLocation)
    requires
        labels@.len() == entries@.len(),
    ensures
        entry_location_spec(solar_entries@, labels@, entries@, key_label@, key_entry@, r),
{
    let is_sys = str_equal(key_label, "SYS");
    if is_sys {
        let n = solar_entries.len();
        let mut i: usize = 0;
        while i < n
            invariant
                n == solar_entries@.len(),
                i <= n,
                key_label@ == "SYS"@,
                forall|j: int| 0 <= j < i ==> #[trigger] solar_entries@[j]@ != key_entry@,
            decreases n - i,
        {
            if str_equal(solar_entries[i].as_str(), key_entry) {
                assert(any_match(None, solar_entries@, key_label@, key_entry@));
                assert(first_match(None, solar_entries@, key_label@, key_entry@, i as int));
                return EntryLocation::SolarSystem(i);
            }
            i += 1;
        }
    }
    assert(!(key_label@ == "SYS"@ && any_match(None, solar_entries@, key_label@, key_entry@)));
    let n = entries.len();
    let mut i: usize = 0;
    while i < n
        invariant
            n == entries@.len(),
            n == labels@.len(),
            i <= n,
            !(key_label@ == "SYS"@ && any_match(None, solar_entries@, key_label@, key_entry@)),
            forall|j: int|
                0 <= j < i ==> !(#[trigger] entries@[j]@ == key_entry@ && labels@[j]@
                    == key_label@),
        decreases n - i,
    {
        if str_equal(labels[i].as_str(), key_label) && str_equal(entries[i].as_str(), key_entry) {
            assert(any_match(Some(labels@), entries@, key_label@, key_entry@));
            assert(first_match(Some(labels@), entries@, key_label@, key_entry@, i as int));
            return EntryLocation::Catalog(i);
        }
        i += 1;
    }
    EntryLocation::NotFound
}

/// Full name of a constellation for its IAU abbreviation, as the
/// constellation table of `starfield` gives it.
pub uninterp spec fn constellation_full_name(abbreviation: Seq<char>) -> Option<Seq<char>>;

/// Entry `index` of the constellation table of `starfield`: an IAU
/// abbreviation and its full name.
pub uninterp spec fn constellation_entry(index: int) -> (Seq<char>, Seq<char>);

/// Number of constellations in the table.
pub const CONSTELLATION_COUNT: usize = 88;

/// `starfield::constellationlib::ConstellationMap::full_name`: looks the
/// abbreviation up in the fixed table of the 88 IAU constellations, so only
/// an abbreviation of the table has a full name.
#[verifier::external_body]
fn full_constellation_name(abbreviation: &str) -> (r: Option<String>)
    ensures
        match r {
            Some(n) => constellation_full_name(abbreviation@) == Some(n@),
            None => constellation_full_name(abbreviation@) is None,
        },
        r is Some ==> exists|j: int|
            0 <= j < CONSTELLATION_COUNT && #[trigger] constellation_entry(j).0 == abbreviation@,
{
    starfield::constellationlib::ConstellationMap::full_name(abbreviation).map(|n| n.to_string())
}

/// `starfield::constellationlib::ConstellationMap::all_names`, entry
/// `index`: the table's abbreviations are distinct, so looking the entry's
/// abbreviation up gives the entry's own full name.
#[verifier::external_body]
fn constellation_at(index: usize) -> (r: (String, String))
    requires
        index < CONSTELLATION_COUNT,
    ensures
        (r.0@, r.1@) == constellation_entry(index as int),
        constellation_full_name(r.0@) == Some(r.1@),
        forall|j: int|
            0 <= j < CONSTELLATION_COUNT && j != index ==> #[trigger] constellation_entry(j).0
                != r.0@,
{
    let (abbreviation, name) = starfield::constellationlib::ConstellationMap::all_names()[index];
    (abbreviation.to_string(), name.to_string())
}

/// A constellation's abbreviation and full name.
pub struct ConstellationName {
    pub label: String,
    pub name: String,
}

/// The constellation shown for an entry's abbreviation: the abbreviation,
/// and its full name or an empty name when the table lacks it.
pub fn constellation_of(abbreviation: &str) -> (r: ConstellationName)
    ensures
        r.label@ == abbreviation@,
        r.name@ == match constellation_full_name(abbreviation@) {
            Some(n) => n,
            None => Seq::empty(),
        },
{
    let name = match full_constellation_name(abbreviation) {
        Some(n) => n,
        None => String::new(),
    };
    ConstellationName { label: abbreviation.to_owned(), name }
}

/// All 88 constellations in the order of the table, each once, with its
/// full name.
pub fn all_constellations() -> (r: Vec<ConstellationName>)
    ensures
        r@.len() == CONSTELLATION_COUNT,
        forall|i: int|
            0 <= i < r@.len() ==> (#[trigger] r@[i].label@, r@[i].name@) == constellation_entry(i),
        forall|i: int|
            0 <= i < r@.len() ==> constellation_full_name(#[trigger] r@[i].label@) == Some(
                r@[i].name@,
            ),
        forall|i: int, j: int|
            0 <= i < j < r@.len() ==> #[trigger] r@[i].label@ != #[trigger] r@[j].label@,
{
    let mut r: Vec<ConstellationName> = Vec::new();
    let mut i: usize = 0;
    while i < CONSTELLATION_COUNT
        invariant
            i <= CONSTELLATION_COUNT,
            r@.len() == i,
            forall|j: int|
                0 <= j < i ==> (#[trigger] r@[j].label@, r@[j].name@) == constellation_entry(j),
            forall|j: int|
                0 <= j < i ==> constellation_full_name(#[trigger] r@[j].label@) == Some(
                    r@[j].name@,
                ),
            forall|j: int, k: int|
                0 <= j < i && 0 <= k < CONSTELLATION_COUNT && j != k ==> #[trigger] r@[j].label@
                    != #[trigger] constellation_entry(k).0,
        decreases CONSTELLATION_COUNT - i,
    {
        let (label, name) = constellation_at(i);
        let ghost before = r@;
        r.push(ConstellationName { label, name });
        proof {
            assert forall|j: int, k: int|
                0 <= j < i + 1 && 0 <= k < CONSTELLATION_COUNT && j != k implies #[trigger] r@[j].label@
                != #[trigger] constellation_entry(k).0 by {
                if j < i {
                    assert(r@[j] == before[j]);
                }
            }
        }
        i += 1;
    }
    assert forall|i: int, j: int| 0 <= i < j < r@.len() implies #[trigger] r@[i].label@
        != #[trigger] r@[j].label@ by {
        assert(r@[j].label@ == constellation_entry(j).0);
    }
    r
}

} // verus!
