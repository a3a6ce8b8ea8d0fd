//! Catalog metadata: descriptions of the catalogs, object types,
//! constellations, and the text columns of solar-system rows.
use vstd::prelude::*;
use crate::catalog_query::opt_view;
use crate::strings::concat;

verus! {

/// Description of one catalog.
pub struct CatalogDescriptionInfo {
    pub label: String,
    pub name: String,
    pub description: String,
    pub source: String,
    pub copyright: Option<String>,
    pub license: Option<String>,
}

/// A catalog description read from the database: the stored description
/// serves as both name and description; no source, copyright or license.
pub fn description_from_row(label: String, description: String) -> (r: CatalogDescriptionInfo)
    ensures
        r.label@ == label@,
        r.name@ == description@,
        r.description@ == description@,
        r.source@ == Seq::<char>::empty(),
        r.copyright is None,
        r.license is None,
{
    CatalogDescriptionInfo {
        label,
        name: description.clone(),
        description,
        source: String::new(),
        copyright: None,
        license: None,
    }
}

/// An object type and its broad category.
pub struct ObjectTypeInfo {
    pub label: String,
    pub broad_category: String,
}

/// A constellation read from the database, named by its label.
pub fn constellation_from_row(label: String) -> (r: (String, String))
    ensures
        r.0@ == label@,
        r.1@ == label@,
{
    (label.clone(), label)
}

fn make_description(label: &str, name: &str, text: &str, source: &str, copyright: Option<&str>) -> (r: CatalogDescriptionInfo)
    ensures
        r.label@ == label@,
        r.name@ == name@,
        r.description@ == text@,
        r.source@ == source@,
        opt_view(r.copyright) == match copyright {
            Some(c) => Some(c@),
            None => None,
        },
        r.license is None,
{
    CatalogDescriptionInfo {
        label: label.to_owned(),
        name: name.to_owned(),
        description: text.to_owned(),
        source: source.to_owned(),
        copyright: match copyright {
            Some(c) => Some(c.to_owned()),
            None => None,
        },
        license: None,
    }
}

/// The catalogs of the built-in sky catalog, in display order: labels,
/// names, descriptions, sources and copyrights.
pub open spec fn builtin_catalog_description(i: int) -> (Seq<char>, Seq<char>, Seq<char>, Seq<char>, Option<Seq<char>>) {
    if i == 0 {
        ("NGC"@, "New General Catalogue"@, "The Complete New General Catalogue"@, "Sky Publishing Corporation"@, Some("Sky Publishing Corporation"@))
    } else if i == 1 {
        ("IC"@, "Index Catalogue"@, "Index Catalogue"@, "Sky Publishing Corporation"@, Some("Sky Publishing Corporation"@))
    } else if i == 2 {
        ("M"@, "Messier"@, "Messier catalog"@, "Public Domain"@, None)
    } else if i == 3 {
        ("C"@, "Caldwell"@, "Caldwell catalog"@, "Public Domain"@, None)
    } else if i == 4 {
        ("H"@, "Herschel 400"@, "Herschel 400 catalogue"@, "Public Domain"@, None)
    } else if i == 5 {
        ("Str"@, "Named Bright Stars"@, "Named Bright Stars"@, "Public Domain"@, None)
    } else if i == 6 {
        ("WDS"@, "Washington Double Stars"@, "WDS double star catalog"@, "USNO"@, None)
    } else {
        ("SYS"@, "Solar System"@, "Real-time ephemeris of the solar system"@, "JPL DE440"@, None)
    }
}

/// The descriptions of the catalogs the built-in sky catalog holds.
pub fn builtin_catalog_descriptions() -> (r: Vec<CatalogDescriptionInfo>)
    ensures
        r@.len() == 8,
        forall|i: int|
            0 <= i < 8 ==> {
                let (l, n, d, s, c) = builtin_catalog_description(i);
                &&& #[trigger] r@[i].label@ == l
                &&& r@[i].name@ == n
                &&& r@[i].description@ == d
                &&& r@[i].source@ == s
                &&& opt_view(r@[i].copyright) == c
                &&& r@[i].license is None
            },
{
    let mut r: Vec<CatalogDescriptionInfo> = Vec::new();
    r.push(make_description("NGC", "New General Catalogue", "The Complete New General Catalogue", "Sky Publishing Corporation", Some("Sky Publishing Corporation")));
    r.push(make_description("IC", "Index Catalogue", "Index Catalogue", "Sky Publishing Corporation", Some("Sky Publishing Corporation")));
    r.push(make_description("M", "Messier", "Messier catalog", "Public Domain", None));
    r.push(make_description("C", "Caldwell", "Caldwell catalog", "Public Domain", None));
    r.push(make_description("H", "Herschel 400", "Herschel 400 catalogue", "Public Domain", None));
    r.push(make_description("Str", "Named Bright Stars", "Named Bright Stars", "Public Domain", None));
    r.push(make_description("WDS", "Washington Double Stars", "WDS double star catalog", "USNO", None));
    r.push(make_description("SYS", "Solar System", "Real-time ephemeris of the solar system", "JPL DE440", None));
    r
}

/// The object types of the built-in sky catalog: label and broad category.
pub open spec fn builtin_object_type(i: int) -> (Seq<char>, Seq<char>) {
    if i == 0 {
        ("star"@, "star"@)
    } else if i == 1 {
        ("planet"@, "solar_system"@)
    } else if i == 2 {
        ("galaxy"@, "galaxy"@)
    } else if i == 3 {
        ("cluster"@, "cluster"@)
    } else {
        ("nebula"@, "nebula"@)
    }
}

fn object_type(label: &str, broad: &str) -> (r: ObjectTypeInfo)
    ensures
        r.label@ == label@,
        r.broad_category@ == broad@,
{
    ObjectTypeInfo { label: label.to_owned(), broad_category: broad.to_owned() }
}

/// The object types of the built-in sky catalog.
pub fn builtin_object_types() -> (r: Vec<ObjectTypeInfo>)
    ensures
        r@.len() == 5,
        forall|i: int|
            0 <= i < 5 ==> #[trigger] r@[i].label@ == builtin_object_type(i).0
                && r@[i].broad_category@ == builtin_object_type(i).1,
{
    let mut r: Vec<ObjectTypeInfo> = Vec::new();
    r.push(object_type("star", "star"));
    r.push(object_type("planet", "solar_system"));
    r.push(object_type("galaxy", "galaxy"));
    r.push(object_type("cluster", "cluster"));
    r.push(object_type("nebula", "nebula"));
    r
}

/// Kinds of solar-system body stored in the catalog table.
#[derive(Clone, Copy, Debug, PartialEq, Eq, Structural)]
pub enum SolarBodyKind {
    Planet,
    Asteroid,
    Comet,
}

/// Text columns of a solar-system row.
pub struct SolarRowText {
    pub catalog_label: String,
    pub catalog_entry: String,
    pub object_type: String,
    pub broad_category: String,
    pub common_name: Option<String>,
    pub description: Option<String>,
}

pub open spec fn kind_label(kind: SolarBodyKind) -> Seq<char> {
    match kind {
        SolarBodyKind::Planet => "Planet"@,
        SolarBodyKind::Asteroid => "Asteroid"@,
        SolarBodyKind::Comet => "Comet"@,
    }
}

pub open spec fn kind_category(kind: SolarBodyKind) -> Seq<char> {
    match kind {
        SolarBodyKind::Planet => "planet"@,
        SolarBodyKind::Asteroid => "asteroid"@,
        SolarBodyKind::Comet => "comet"@,
    }
}

pub open spec fn kind_description_prefix(kind: SolarBodyKind) -> Seq<char> {
    match kind {
        SolarBodyKind::Planet => "The planet "@,
        SolarBodyKind::Asteroid => "The asteroid "@,
        SolarBodyKind::Comet => "The comet "@,
    }
}

/// The text columns of a solar-system row: the kind as label and object type,
/// its lower-case form as broad category, the catalog id (empty when
/// missing) as entry, and a description naming the body by its common name.
pub fn solar_row_text(kind: SolarBodyKind, catalog_id: Option<String>, common_name: Option<String>) -> (r: SolarRowText)
    ensures
        r.catalog_label@ == kind_label(kind),
        r.object_type@ == kind_label(kind),
        r.broad_category@ == kind_category(kind),
        r.catalog_entry@ == match catalog_id {
            Some(c) => c@,
            None => Seq::<char>::empty(),
        },
        opt_view(r.common_name) == opt_view(common_name),
        opt_view(r.description) == match common_name {
            Some(n) => Some(kind_description_prefix(kind) + n@),
            None => None,
        },
{
    let (label, category, prefix) = match kind {
        SolarBodyKind::Planet => ("Planet", "planet", "The planet "),
        SolarBodyKind::Asteroid => ("Asteroid", "asteroid", "The asteroid "),
        SolarBodyKind::Comet => ("Comet", "comet", "The comet "),
    };
    let entry = match catalog_id {
        Some(c) => c,
        None => String::new(),
    };
    let description = match &common_name {
        Some(n) => Some(concat(prefix, n.as_str())),
        None => None,
    };
    SolarRowText {
        catalog_label: label.to_owned(),
        catalog_entry: entry,
        object_type: label.to_owned(),
        broad_category: category.to_owned(),
        common_name,
        description,
    }
}

/// The planetary bodies looked up in the ephemeris kernel: kernel target
/// name and the common name.
pub open spec fn planet_target(i: int) -> (Seq<char>, Seq<char>) {
    if i == 0 {
        ("MERCURY BARYCENTER"@, "Mercury"@)
    } else if i == 1 {
        ("VENUS BARYCENTER"@, "Venus"@)
    } else if i == 2 {
        ("MOON"@, "Moon"@)
    } else if i == 3 {
        ("MARS BARYCENTER"@, "Mars"@)
    } else if i == 4 {
        ("JUPITER BARYCENTER"@, "Jupiter"@)
    } else if i == 5 {
        ("SATURN BARYCENTER"@, "Saturn"@)
    } else if i == 6 {
        ("URANUS BARYCENTER"@, "Uranus"@)
    } else if i == 7 {
        ("NEPTUNE BARYCENTER"@, "Neptune"@)
    } else {
        ("PLUTO BARYCENTER"@, "Pluto"@)
    }
}

/// The planetary bodies looked up in the ephemeris kernel.
pub fn planet_targets() -> (r: Vec<(&'static str, &'static str)>)
    ensures
        r@.len() == 9,
        forall|i: int| 0 <= i < 9 ==> #[trigger] r@[i].0@ == planet_target(i).0 && r@[i].1@ == planet_target(i).1,
{
    let mut r: Vec<(&'static str, &'static str)> = Vec::new();
    r.push(("MERCURY BARYCENTER", "Mercury"));
    r.push(("VENUS BARYCENTER", "Venus"));
    r.push(("MOON", "Moon"));
    r.push(("MARS BARYCENTER", "Mars"));
    r.push(("JUPITER BARYCENTER", "Jupiter"));
    r.push(("SATURN BARYCENTER", "Saturn"));
    r.push(("URANUS BARYCENTER", "Uranus"));
    r.push(("NEPTUNE BARYCENTER", "Neptune"));
    r.push(("PLUTO BARYCENTER", "Pluto"));
    r
}

} // verus!
