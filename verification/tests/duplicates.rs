use spotify_duplicates::duplicates::{
    any_alias_recorded, detect, group_by_name, keep_duplicates, DuplicateGroup, DuplicateReport,
};
use spotify_duplicates::spotify::Track;
use spotify_duplicates::trackmap::{contains_text, Trackmap};

fn track(id: &str, name: &str) -> Track {
    Track { id: id.to_string(), name: name.to_string() }
}

fn group(name: &str, ids: &[&str]) -> DuplicateGroup {
    DuplicateGroup { name: name.to_string(), ids: ids.iter().map(|s| s.to_string()).collect() }
}

fn table(entries: &[(&str, &[&str])]) -> Trackmap {
    let mut map = Trackmap::new();
    for (name, ids) in entries {
        map.insert(name.to_string(), ids.iter().map(|s| s.to_string()).collect());
    }
    map
}

#[test]
fn two_ids_under_one_name_are_reported() {
    let tracks = vec![track("a", "X"), track("b", "X"), track("c", "Y")];
    let report = detect(&tracks, &Trackmap::new());
    assert_eq!(report, DuplicateReport { groups: vec![group("X", &["a", "b"])] });
    assert!(!report.is_empty());
}

#[test]
fn known_aliases_are_not_reported() {
    let tracks = vec![track("a", "X"), track("b", "X")];
    let report = detect(&tracks, &table(&[("X", &["a", "b"])]));
    assert_eq!(report.groups, vec![]);
    assert!(report.is_empty());
}

#[test]
fn detecting_twice_gives_the_same_report() {
    let tracks = vec![
        track("a", "X"),
        track("b", "Y"),
        track("c", "X"),
        track("d", "Y"),
        track("e", "Z"),
    ];
    let map = table(&[("Y", &["b"])]);
    let first = detect(&tracks, &map);
    let second = detect(&tracks, &map);
    assert_eq!(first, second);
    assert_eq!(first.groups, vec![group("X", &["a", "c"])]);
}

#[test]
fn no_tracks_give_an_empty_report() {
    let report = detect(&Vec::new(), &table(&[("X", &["a", "b"])]));
    assert!(report.groups.is_empty());
    let report = detect(&Vec::new(), &Trackmap::new());
    assert!(report.groups.is_empty());
}

#[test]
fn a_name_met_once_is_left_out() {
    let tracks = vec![track("a", "X")];
    assert!(detect(&tracks, &Trackmap::new()).groups.is_empty());
    assert!(detect(&tracks, &table(&[("X", &["a"])])).groups.is_empty());
    assert!(detect(&tracks, &table(&[("X", &["q", "r"])])).groups.is_empty());
}

#[test]
fn the_same_id_twice_is_recorded_once() {
    let tracks = vec![track("a", "X"), track("a", "X")];
    assert!(detect(&tracks, &Trackmap::new()).groups.is_empty());
    let tracks = vec![track("a", "X"), track("a", "X"), track("b", "X"), track("b", "X")];
    assert_eq!(detect(&tracks, &Trackmap::new()).groups, vec![group("X", &["a", "b"])]);
}

#[test]
fn groups_come_in_the_order_of_first_occurrence() {
    let tracks = vec![
        track("1", "B"),
        track("2", "A"),
        track("3", "C"),
        track("4", "A"),
        track("5", "B"),
        track("6", "B"),
    ];
    let report = detect(&tracks, &Trackmap::new());
    assert_eq!(report.groups, vec![group("B", &["1", "5", "6"]), group("A", &["2", "4"])]);
}

#[test]
fn an_alias_suppresses_only_once_it_is_recorded() {
    let tracks = vec![track("a", "X"), track("b", "X"), track("c", "X")];
    // "b" is no alias of anything recorded when it arrives; "c" arrives after "b".
    let report = detect(&tracks, &table(&[("X", &["b"])]));
    assert_eq!(report.groups, vec![group("X", &["a", "b"])]);
    // "a" is recorded first, and from then on everything under "X" is known.
    let report = detect(&tracks, &table(&[("X", &["a"])]));
    assert!(report.groups.is_empty());
    // An alias that never occurs suppresses nothing.
    let report = detect(&tracks, &table(&[("X", &["z"])]));
    assert_eq!(report.groups, vec![group("X", &["a", "b", "c"])]);
}

#[test]
fn aliases_of_another_name_do_not_count() {
    let tracks = vec![track("a", "X"), track("b", "X")];
    let report = detect(&tracks, &table(&[("Y", &["a", "b"])]));
    assert_eq!(report.groups, vec![group("X", &["a", "b"])]);
}

#[test]
fn grouping_keeps_single_ids_and_filtering_drops_them() {
    let tracks = vec![track("a", "X"), track("b", "Y"), track("c", "Y")];
    let groups = group_by_name(&tracks, &Trackmap::new());
    assert_eq!(groups, vec![group("X", &["a"]), group("Y", &["b", "c"])]);
    let report = keep_duplicates(&groups);
    assert_eq!(report.groups, vec![group("Y", &["b", "c"])]);
}

#[test]
fn any_alias_recorded_looks_at_every_alias() {
    let recorded = vec!["a".to_string(), "b".to_string()];
    assert!(any_alias_recorded(&vec!["z".to_string(), "b".to_string()], &recorded));
    assert!(!any_alias_recorded(&vec!["z".to_string()], &recorded));
    assert!(!any_alias_recorded(&Vec::new(), &recorded));
    assert!(!any_alias_recorded(&vec!["a".to_string()], &Vec::new()));
}

#[test]
fn contains_text_compares_whole_strings() {
    let list = vec!["ab".to_string(), "c".to_string()];
    assert!(contains_text(&list, &"c".to_string()));
    assert!(contains_text(&list, &"ab".to_string()));
    assert!(!contains_text(&list, &"a".to_string()));
    assert!(!contains_text(&Vec::new(), &"a".to_string()));
}

#[test]
fn the_last_entry_of_a_name_counts() {
    let mut map = Trackmap::new();
    assert!(map.get(&"X".to_string()).is_none());
    map.insert("X".to_string(), vec!["a".to_string()]);
    map.insert("Y".to_string(), vec!["c".to_string()]);
    map.insert("X".to_string(), vec!["b".to_string()]);
    assert_eq!(map.get(&"X".to_string()).unwrap().ids, vec!["b".to_string()]);
    assert_eq!(map.get(&"Y".to_string()).unwrap().ids, vec!["c".to_string()]);
    assert!(map.get(&"Z".to_string()).is_none());
}
