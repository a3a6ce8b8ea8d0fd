use cypress_astro::catalog_meta::{
    builtin_catalog_descriptions, builtin_object_types, constellation_from_row,
    description_from_row, planet_targets, solar_row_text, SolarBodyKind,
};
use cypress_astro::catalog_query::{
    build_catalog_query, lookup_catalog_alias, map_filter_label, order_clause, shown_entry,
    text_search_clause, text_search_terms, CatalogQuery, SortKey, SqlArg,
};
use cypress_astro::strings::{
    remove_spaces, split_fields_exactly, split_on_commas, trim_str, usize_to_decimal,
};

const BASE: &str = "(catalog_label || ' ' || catalog_entry LIKE ? OR REPLACE(catalog_label || catalog_entry, ' ', '') LIKE ? OR common_name LIKE ? OR catalog_entry = ?)";
const BRIGHTNESS: &str = "ORDER BY c.magnitude ASC NULLS LAST, CASE c.catalog_label WHEN 'M' THEN 1 WHEN 'C' THEN 2 WHEN 'Col' THEN 3 WHEN 'NGC' THEN 4 WHEN 'IC' THEN 5 WHEN 'H' THEN 6 WHEN 'B' THEN 7 WHEN 'Sh2' THEN 8 WHEN 'Abl' THEN 9 WHEN 'Arp' THEN 10 ELSE 11 END ASC";
const SELECT: &str = "SELECT c.catalog_entry, c.ra, c.dec, c.magnitude, c.catalog_label, c.object_type, c.broad_category, c.constellation, c.common_name, c.angular_size FROM catalog c WHERE ";

fn texts(v: &[&str]) -> Vec<String> {
    v.iter().map(|s| s.to_string()).collect()
}

fn query() -> CatalogQuery {
    CatalogQuery {
        text_search: None,
        faintest_magnitude: None,
        match_catalog_label: true,
        catalog_label: vec![],
        match_object_type_label: true,
        object_type_label: vec![],
        distance_condition: None,
        elevation_condition: None,
        sort: SortKey::Brightness,
        proximity: None,
        limit: None,
    }
}

fn arg_texts(args: &[SqlArg]) -> Vec<String> {
    args.iter()
        .map(|a| match a {
            SqlArg::Text(t) => t.clone(),
            SqlArg::Magnitude(m) => format!("#{}", m),
        })
        .collect()
}

#[test]
fn catalog_and_number_search() {
    let (lower, clause, args) = text_search_terms("  Messier 31 ").unwrap();
    assert_eq!(lower, "messier 31");
    assert_eq!(clause, format!("({} OR (catalog_label = ? AND catalog_entry = ?))", BASE));
    assert_eq!(
        args,
        texts(&["%messier 31%", "%messier31%", "%messier 31%", "messier 31", "M", "31"])
    );
}

#[test]
fn catalog_name_alone() {
    let (_, clause, args) = text_search_terms("NGC").unwrap();
    assert_eq!(clause, format!("({} OR catalog_label = ?)", BASE));
    assert_eq!(args, texts(&["%ngc%", "%ngc%", "%ngc%", "ngc", "NGC"]));
}

#[test]
fn plain_text_search() {
    let (_, clause, args) = text_search_terms("Orion Nebula").unwrap();
    assert_eq!(clause, BASE);
    assert_eq!(args, texts(&["%orion nebula%", "%orionnebula%", "%orion nebula%", "orion nebula"]));
}

#[test]
fn number_without_known_catalog() {
    let (_, clause, args) = text_search_terms("xyz 12").unwrap();
    assert_eq!(clause, BASE);
    assert_eq!(args.len(), 4);
    // The split happens at the first digit, which here is inside the catalog name.
    let (clause, args) = text_search_clause("sh2-155").unwrap();
    assert_eq!(clause, format!("({} OR (catalog_label = ? AND catalog_entry = ?))", BASE));
    assert_eq!(args[3], "sh2-155");
    assert_eq!(args[4], "Sh2");
    assert_eq!(args[5], "2-155");
}

#[test]
fn split_inside_a_character_is_refused() {
    // The digit is the second character, but byte 1 lies inside 'é'.
    assert!(text_search_terms("é1").is_none());
    // Here byte 2 is a boundary: the prefix is "é" and the rest "a1".
    let (_, clause, args) = text_search_terms("éa1").unwrap();
    assert_eq!(clause, BASE);
    assert_eq!(args.len(), 4);
}

#[test]
fn aliases() {
    for (p, l) in [("messier", "M"), ("m", "M"), ("caldwell", "C"), ("cr", "Col"), ("ic", "IC"), ("h", "H"), ("barnard", "B"), ("sh", "Sh2"), ("abell", "Abl"), ("arp", "Arp")] {
        assert_eq!(lookup_catalog_alias(p), Some(l.to_string()));
    }
    assert_eq!(lookup_catalog_alias("M"), None);
    assert_eq!(lookup_catalog_alias("xyz"), None);
}

#[test]
fn filter_labels() {
    assert_eq!(map_filter_label("iau"), "Str");
    assert_eq!(map_filter_label("Pl"), "Planet");
    assert_eq!(map_filter_label("NGC"), "NGC");
}

#[test]
fn default_query() {
    let (sql, args) = build_catalog_query(&query()).unwrap();
    assert_eq!(sql, format!("{}1=1 {} LIMIT 500", SELECT, BRIGHTNESS));
    assert!(args.is_empty());
}

#[test]
fn full_query() {
    let mut q = query();
    q.text_search = Some("M 42".to_string());
    q.faintest_magnitude = Some(9);
    q.catalog_label = texts(&["IAU", "NGC"]);
    q.match_object_type_label = false;
    q.object_type_label = texts(&["Galaxy"]);
    q.distance_condition = Some("D".to_string());
    q.elevation_condition = Some("E".to_string());
    q.sort = SortKey::SkyLocation;
    q.proximity = Some("P".to_string());
    q.limit = Some(25);
    let (sql, args) = build_catalog_query(&q).unwrap();
    let expected = format!(
        "{}1=1 AND ({} OR (catalog_label = ? AND catalog_entry = ?)) AND (magnitude IS NULL OR magnitude <= ?) AND LOWER(catalog_label) IN (?,?) AND LOWER(object_type) NOT IN (?) AND D AND E ORDER BY P DESC NULLS LAST LIMIT 25",
        SELECT, BASE
    );
    assert_eq!(sql, expected);
    assert_eq!(
        arg_texts(&args),
        texts(&["%m 42%", "%m42%", "%m 42%", "m 42", "M", "42", "#9", "str", "ngc", "galaxy"])
    );
}

#[test]
fn unsplittable_query_is_refused() {
    let mut q = query();
    q.text_search = Some("é1".to_string());
    assert!(build_catalog_query(&q).is_none());
}

#[test]
fn orders() {
    assert_eq!(order_clause(SortKey::Brightness, &None), BRIGHTNESS);
    assert_eq!(order_clause(SortKey::SkyLocation, &None), BRIGHTNESS);
    assert_eq!(order_clause(SortKey::SkyLocation, &Some("X".to_string())), "ORDER BY X DESC NULLS LAST");
    assert!(order_clause(SortKey::ByName, &None).starts_with("ORDER BY (CASE WHEN c.common_name IS NULL"));
    assert!(order_clause(SortKey::ByCatalogId, &None).contains("WHEN 'EGC' THEN 20 ELSE 99 END"));
}

#[test]
fn shown_entries() {
    let e = shown_entry("NGC", "5340", "NGC 5340", "");
    assert_eq!(e.catalog_label, "NGC");
    assert_eq!(e.common_name, None);
    assert_eq!(e.constellation, None);
    let e = shown_entry("Str", "Sirius", "sirius", "CMa");
    assert_eq!(e.catalog_label, "");
    assert_eq!(e.common_name, None);
    assert_eq!(e.constellation, Some("CMa".to_string()));
    let e = shown_entry("M", "31", "Andromeda Galaxy", "And");
    assert_eq!(e.catalog_label, "M");
    assert_eq!(e.catalog_entry, "31");
    assert_eq!(e.common_name, Some("Andromeda Galaxy".to_string()));
    let e = shown_entry("Planet", "Mars", "", "");
    assert_eq!(e.common_name, None);
    assert_eq!(e.catalog_label, "");
}

#[test]
fn string_helpers() {
    assert_eq!(trim_str("\u{3000} a b \t"), "a b");
    assert_eq!(trim_str("   "), "");
    assert_eq!(remove_spaces(" a b  c "), "abc");
    assert_eq!(cypress_astro::strings::concat("ab", "cd"), "abcd");
    assert_eq!(usize_to_decimal(0), "0");
    assert_eq!(usize_to_decimal(1234), "1234");
    assert_eq!(usize_to_decimal(usize::MAX), usize::MAX.to_string());
    assert_eq!(split_on_commas("a,,b,"), texts(&["a", "", "b", ""]));
    assert_eq!(split_on_commas(""), texts(&[""]));
    assert_eq!(
        split_fields_exactly(" 0.1,0.2,0.3,0.9,0.5\n", 5),
        Some(texts(&["0.1", "0.2", "0.3", "0.9", "0.5"]))
    );
    assert_eq!(split_fields_exactly("1,2,3,4", 5), None);
}

#[test]
fn catalog_metadata() {
    let d = description_from_row("M".to_string(), "Messier objects".to_string());
    assert_eq!((d.label.as_str(), d.name.as_str(), d.description.as_str(), d.source.as_str()), ("M", "Messier objects", "Messier objects", ""));
    assert!(d.copyright.is_none() && d.license.is_none());
    assert_eq!(constellation_from_row("Ori".to_string()), ("Ori".to_string(), "Ori".to_string()));
    let all = builtin_catalog_descriptions();
    let labels: Vec<&str> = all.iter().map(|d| d.label.as_str()).collect();
    assert_eq!(labels, vec!["NGC", "IC", "M", "C", "H", "Str", "WDS", "SYS"]);
    assert_eq!(all[0].copyright.as_deref(), Some("Sky Publishing Corporation"));
    assert_eq!(all[7].source, "JPL DE440");
    let types = builtin_object_types();
    assert_eq!(types.len(), 5);
    assert_eq!((types[1].label.as_str(), types[1].broad_category.as_str()), ("planet", "solar_system"));
    assert_eq!(planet_targets()[2], ("MOON", "Moon"));
    assert_eq!(planet_targets().len(), 9);
}

#[test]
fn solar_rows() {
    let r = solar_row_text(SolarBodyKind::Planet, Some("Mars".to_string()), Some("Mars".to_string()));
    assert_eq!((r.catalog_label.as_str(), r.catalog_entry.as_str(), r.object_type.as_str(), r.broad_category.as_str()), ("Planet", "Mars", "Planet", "planet"));
    assert_eq!(r.description.as_deref(), Some("The planet Mars"));
    let r = solar_row_text(SolarBodyKind::Asteroid, None, None);
    assert_eq!(r.catalog_entry, "");
    assert_eq!(r.description, None);
    let r = solar_row_text(SolarBodyKind::Comet, Some("C/2020 F3".to_string()), Some("NEOWISE".to_string()));
    assert_eq!(r.description.as_deref(), Some("The comet NEOWISE"));
    assert_eq!(r.broad_category, "comet");
}

#[test]
fn every_placeholder_has_an_argument() {
    let mut q = query();
    q.text_search = Some("  Messier 31 ".to_string());
    q.faintest_magnitude = Some(9);
    q.catalog_label = texts(&["M", "NGC"]);
    q.match_object_type_label = false;
    q.object_type_label = texts(&["galaxy"]);
    q.distance_condition = Some("ra > 1".to_string());
    q.sort = SortKey::SkyLocation;
    q.proximity = Some("ABS(ra - 10)".to_string());
    q.limit = Some(7);
    let (sql, args) = build_catalog_query(&q).unwrap();
    assert_eq!(sql.matches('?').count(), args.len());
    assert_eq!(args.len(), 6 + 1 + 2 + 1);
}
