use onetagger::youtube_tracklist::{
    clean_basic_timestamp, extract_structured_tracklist, extract_tracklist_from_description, find_tracklist_section,
};

fn s(x: &str) -> String {
    x.to_string()
}

fn v(items: &[&str]) -> Vec<String> {
    items.iter().map(|x| s(x)).collect()
}

#[test]
fn structured_list_wins() {
    let d = "Tracklist:\n1. 00:00 Artist One - Track One\n2. 05:30 Artist Two - Track Two\n3. 10:45 Artist Three - Track Three";
    let expected = v(&["Artist One - Track One", "Artist Two - Track Two", "Artist Three - Track Three"]);
    assert_eq!(extract_structured_tracklist(d), expected);
    assert_eq!(extract_tracklist_from_description(d), expected);
}

#[test]
fn structured_list_needs_three_lines() {
    let d = "Tracklist:\n1. 00:00 Artist One - Track One\n2. 05:30 Artist Two - Track Two";
    assert!(extract_structured_tracklist(d).is_empty());
}

#[test]
fn timestamped_dash_lines() {
    let d = "Great mix\n00:00 Alpha - One\n03:00 Bravo - Two\n06:00 Charlie - Three\n09:00 Delta - Four\n12:00 Echo - Five\n";
    assert_eq!(
        extract_tracklist_from_description(d),
        v(&["Alpha - One", "Bravo - Two", "Charlie - Three", "Delta - Four", "Echo - Five"])
    );
}

#[test]
fn timestamp_lines_without_dashes() {
    let d = "00:00 Alpha\n03:00 Bravo\n06:00 Charlie\n09:00 Delta\n12:00 Echo";
    assert_eq!(extract_tracklist_from_description(d), v(&["Alpha", "Bravo", "Charlie", "Delta", "Echo"]));
}

#[test]
fn empty_description_has_no_tracks() {
    assert!(extract_tracklist_from_description("").is_empty());
}

#[test]
fn section_markers() {
    assert_eq!(find_tracklist_section("Intro\nTracklist:\nA - B"), Some(s("Tracklist:\nA - B")));
    assert_eq!(find_tracklist_section("Some text 1. Foo"), Some(s("1. Foo")));
    assert_eq!(find_tracklist_section("See Music: here"), Some(s("See Music: here")));
}

#[test]
fn basic_timestamp_cleanup() {
    assert_eq!(clean_basic_timestamp("1. 03:15 Alpha"), "Alpha");
}
