use onetagger::tracklist::{
    clean_track_text, extract_artist_title_with_remix, extract_tracklist_from_description, extract_tracks_line_by_line,
    find_tracklist_section, fix_artist_names, looks_like_track_entry, min, parse_track_line, sanitize_filename,
    squeeze_spaces, trim_char,
};
use onetagger::text::text_lines;

fn s(x: &str) -> String {
    x.to_string()
}

#[test]
fn min_of_two() {
    assert_eq!(min(3, 5), 3);
    assert_eq!(min(5, 3), 3);
    assert_eq!(min(4, 4), 4);
}

#[test]
fn lines_like_str_lines() {
    assert_eq!(text_lines("a\r\nb\n\nc\n"), vec![s("a"), s("b"), s(""), s("c")]);
    assert_eq!(text_lines(""), Vec::<String>::new());
    assert_eq!(text_lines("x"), vec![s("x")]);
}

#[test]
fn track_lines() {
    assert_eq!(parse_track_line("00:00 Artist - Title"), Some(s("Artist - Title")));
    assert_eq!(parse_track_line("1) 03:09 Baka G - Delta Leonids [Label]"), Some(s("Baka G - Delta Leonids Label")));
    assert_eq!(parse_track_line("No timestamp here"), None);
}

#[test]
fn tracklist_of_description() {
    let d = "Intro text\n00:00 Not - Counted\nTracklist:\n00:00 A - B\n03:10 C - D\n\nOther\n05:00 E - F";
    assert_eq!(extract_tracklist_from_description(d), vec![s("A - B"), s("C - D")]);
    assert!(extract_tracklist_from_description("no list at all").is_empty());
}

#[test]
fn track_entries() {
    assert!(looks_like_track_entry("A - B"));
    assert!(looks_like_track_entry("12. Song"));
    assert!(looks_like_track_entry("at 3:45"));
    assert!(!looks_like_track_entry("hello"));
}

#[test]
fn folder_names() {
    assert_eq!(sanitize_filename("  My: Video / Title?.. "), "My Video Title ");
    assert_eq!(sanitize_filename("..."), "Unknown_Title");
    assert_eq!(trim_char("..a.b..", '.'), "a.b");
    assert_eq!(trim_char("....", '.'), "");
}

#[test]
fn tracklist_section() {
    assert_eq!(find_tracklist_section("Hello\nTRACKLIST:\n1. A - B"), Some(s("TRACKLIST:\n1. A - B")));
    assert_eq!(find_tracklist_section("Songs: x\nTracklist: y"), Some(s("Tracklist: y")));
    assert_eq!(find_tracklist_section("nothing"), Some(s("nothing")));
}

#[test]
fn artist_commas() {
    assert_eq!(fix_artist_names("Aberton JazzedUp & Co"), "Aberton, JazzedUp & Co");
    assert_eq!(fix_artist_names("John Smith Jane"), "John Smith, Jane");
    assert_eq!(fix_artist_names("DJ Koze"), "DJ Koze");
}

#[test]
fn artist_and_title() {
    assert_eq!(extract_artist_title_with_remix("Milan93 - Just To Relax (Cabriolet)"), Some(s("Milan93 - Just To Relax")));
    assert_eq!(extract_artist_title_with_remix("no dash here"), None);
}

#[test]
fn cleaning_tracks() {
    assert_eq!(clean_track_text("Intro Music"), "Intro Music");
    assert_eq!(clean_track_text("Song   Name (Club Mix) @dj"), "Song Name (Club Mix)");
    assert_eq!(clean_track_text("12:30 Intro Music"), "Intro Music");
    assert_eq!(squeeze_spaces("a \t b  c"), "a b c");
}

#[test]
fn line_by_line_entries() {
    let mut tracks = vec![];
    let mut seen = vec![];
    extract_tracks_line_by_line("Intro\n12:30 Intro Music\nabc\n99:99 Intro Music\n", &mut tracks, &mut seen);
    assert_eq!(tracks, vec![s("Intro Music")]);
    assert_eq!(seen, vec![s("Intro Music")]);
}
