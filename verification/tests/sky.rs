use cypress_astro::decrowd::{decrowd, group_members, paginate, DEFAULT_PAGE_LIMIT};
use cypress_astro::sky::{
    all_constellations, constellation_of, contains_str, locate_entry, sky_entry_passes,
    EntryLocation, SkyFilter,
};

fn texts(v: &[&str]) -> Vec<String> {
    v.iter().map(|s| s.to_string()).collect()
}

/// Closeness rows for points on a line, close when nearer than `d`.
fn closeness(points: &[i32], d: i32) -> Vec<Vec<bool>> {
    (0..points.len())
        .map(|k| (0..k).map(|j| (points[k] - points[j]).abs() < d).collect())
        .collect()
}

#[test]
fn decrowding_groups_by_first_close_leader() {
    let close = closeness(&[0, 1, 10, 2, 11, 30], 3);
    let (leaders, group_of) = decrowd(&close);
    assert_eq!(leaders, vec![0, 2, 5]);
    assert_eq!(group_of, vec![0, 0, 1, 0, 1, 2]);
}

#[test]
fn decrowding_compares_only_with_leaders() {
    // Row 2 is close to row 1 but row 1 is not a leader; row 2 is far from row 0.
    let close = closeness(&[0, 2, 4], 3);
    let (leaders, group_of) = decrowd(&close);
    assert_eq!(leaders, vec![0, 2]);
    assert_eq!(group_of, vec![0, 0, 1]);
}

#[test]
fn decrowding_nothing() {
    let (leaders, group_of) = decrowd(&vec![]);
    assert!(leaders.is_empty() && group_of.is_empty());
}

#[test]
fn decrowding_leaders_are_apart() {
    let points = [5, 7, 20, 6, 40, 21, 41, 100];
    let close = closeness(&points, 4);
    let (leaders, group_of) = decrowd(&close);
    for a in 0..leaders.len() {
        for b in 0..a {
            assert!((points[leaders[a]] - points[leaders[b]]).abs() >= 4);
        }
    }
    for (k, g) in group_of.iter().enumerate() {
        assert!((points[k] - points[leaders[*g]]).abs() < 4);
    }
}

#[test]
fn pagination() {
    let mut v = vec![1, 2, 3, 4, 5];
    assert_eq!(paginate(&mut v, 3), 2);
    assert_eq!(v, vec![1, 2, 3]);
    let mut v = vec![1, 2];
    assert_eq!(paginate(&mut v, DEFAULT_PAGE_LIMIT), 0);
    assert_eq!(v, vec![1, 2]);
}

fn filter() -> SkyFilter {
    SkyFilter {
        match_catalog_label: false,
        catalog_label: vec![],
        match_object_type_label: false,
        object_type_label: vec![],
        text_search: None,
    }
}

#[test]
fn sky_filters() {
    let f = filter();
    assert!(sky_entry_passes(&f, false, "NGC", "224", "galaxy", None));
    assert!(!sky_entry_passes(&f, true, "NGC", "224", "galaxy", None));
    let mut f = filter();
    f.match_catalog_label = true;
    f.catalog_label = texts(&["M", "IC"]);
    assert!(!sky_entry_passes(&f, false, "NGC", "224", "galaxy", None));
    assert!(sky_entry_passes(&f, false, "IC", "434", "nebula", None));
    let mut f = filter();
    f.match_object_type_label = true;
    f.object_type_label = texts(&["nebula"]);
    assert!(!sky_entry_passes(&f, false, "NGC", "224", "galaxy", None));
    let mut f = filter();
    f.text_search = Some("ANDRO".to_string());
    assert!(sky_entry_passes(&f, false, "NGC", "224", "galaxy", Some("Andromeda Galaxy")));
    assert!(!sky_entry_passes(&f, false, "NGC", "224", "galaxy", None));
    f.text_search = Some("ngc".to_string());
    assert!(sky_entry_passes(&f, false, "NGC", "224", "galaxy", None));
    f.text_search = Some("22".to_string());
    assert!(sky_entry_passes(&f, false, "NGC", "224", "galaxy", None));
}

#[test]
fn substring_search() {
    assert!(contains_str("andromeda", "drom"));
    assert!(contains_str("abc", ""));
    assert!(contains_str("", ""));
    assert!(!contains_str("ab", "abc"));
    assert!(!contains_str("abc", "ac"));
}

#[test]
fn entry_lookup() {
    let solar = texts(&["Mars", "Venus"]);
    let labels = texts(&["M", "NGC", "M"]);
    let entries = texts(&["31", "224", "31"]);
    assert_eq!(locate_entry(&solar, &labels, &entries, "SYS", "Venus"), EntryLocation::SolarSystem(1));
    assert_eq!(locate_entry(&solar, &labels, &entries, "M", "31"), EntryLocation::Catalog(0));
    assert_eq!(locate_entry(&solar, &labels, &entries, "NGC", "224"), EntryLocation::Catalog(1));
    assert_eq!(locate_entry(&solar, &labels, &entries, "NGC", "31"), EntryLocation::NotFound);
    assert_eq!(locate_entry(&solar, &labels, &entries, "M", "Venus"), EntryLocation::NotFound);
    assert_eq!(locate_entry(&solar, &labels, &entries, "SYS", "Pluto"), EntryLocation::NotFound);
}

#[test]
fn constellation_names() {
    let c = constellation_of("Ori");
    assert_eq!((c.label.as_str(), c.name.as_str()), ("Ori", "Orion"));
    let c = constellation_of("Xyz");
    assert_eq!((c.label.as_str(), c.name.as_str()), ("Xyz", ""));
    let all = all_constellations();
    assert_eq!(all.len(), 88);
    assert_eq!((all[0].label.as_str(), all[0].name.as_str()), ("And", "Andromeda"));
    assert_eq!((all[1].label.as_str(), all[1].name.as_str()), ("Ant", "Antlia"));
    assert_eq!((all[87].label.as_str(), all[87].name.as_str()), ("Vul", "Vulpecula"));
    for c in &all {
        assert_eq!(constellation_of(&c.label).name, c.name);
    }
    let mut labels: Vec<&str> = all.iter().map(|c| c.label.as_str()).collect();
    labels.sort();
    labels.dedup();
    assert_eq!(labels.len(), 88);
}

#[test]
fn group_members_list_crowded_rows_in_order() {
    // Rows 1 and 3 are close to row 0; row 2 is apart.
    let close = vec![vec![], vec![true], vec![false, false], vec![true, false, true]];
    let (leaders, group_of) = decrowd(&close);
    assert_eq!(leaders, vec![0, 2]);
    let members = group_members(&leaders, &group_of);
    assert_eq!(members, vec![vec![1, 3], vec![]]);
    assert!(group_members(&vec![], &vec![]).is_empty());
}
