use vstd::prelude::*;
use vstd::utf8::encode_utf8;
use crate::patterns::{all_group_texts, captures, captures_all, group_texts, regex_all_captures, regex_captures, regex_replaced, replace_all};
use crate::text::{lines_of, replace_text, replaced, text_lines, texts, trim_text, trimmed};
use crate::tracklist::{
    artist_title_of, extract_artist_title_with_remix, group, has_text, looks_like_track_entry, section_from,
    find_tracklist_section, squeeze_from, squeeze_spaces, take_group, track_entry,
};

verus! {

/// A track text cleaned up the simpler way: "Artist - Title" where the
/// pattern reads it; otherwise a leading number and timestamp and social
/// handles are removed, bracketed parts are dropped (a remix part is put back
/// at the end), and whitespace runs are squeezed.
pub open spec fn simply_cleaned(track: Seq<char>) -> Seq<char> {
    match artist_title_of(track) {
        Some(c) => c,
        None => {
            let a = regex_replaced("^\\s*\\d+[\\.\\):]?\\s*\\d*:?\\d+\\s+"@, track, ""@);
            let b = regex_replaced("@\\w+|ÔÇ¬ÔÇ¼X?|X$|X\\s*$"@, a, ""@);
            let remix = match group(regex_captures("\\(([^)]*(?:Remix|Mix|Dub|Edit)[^)]*)\\)"@, b), 1) {
                Some(g) => " ("@ + g + ")"@,
                None => Seq::empty(),
            };
            let c = regex_replaced("\\([^)]*\\)"@, b, ""@);
            let d = replaced(replaced(c, "├©"@, "ø"@), "Sc├©tt"@, "Scott"@);
            squeeze_from(trimmed(d), 0, false) + remix
        },
    }
}

/// A track text cleaned up the simpler way (see `simply_cleaned`).
pub fn clean_track_text(track: &str) -> (r: String)
    ensures
        r@ == simply_cleaned(track@),
{
    match extract_artist_title_with_remix(track) {
        Some(c) => return c,
        None => {},
    }
    proof {
        reveal_strlit("├©");
        reveal_strlit("Sc├©tt");
    }
    let a = replace_all("^\\s*\\d+[\\.\\):]?\\s*\\d*:?\\d+\\s+", track, "");
    let b = replace_all("@\\w+|ÔÇ¬ÔÇ¼X?|X$|X\\s*$", a.as_str(), "");
    let remix = match take_group(captures("\\(([^)]*(?:Remix|Mix|Dub|Edit)[^)]*)\\)", b.as_str()), 1) {
        Some(g) => String::from_str(" (").concat(g.as_str()).concat(")"),
        None => String::new(),
    };
    let c = replace_all("\\([^)]*\\)", b.as_str(), "");
    let d = replace_text(c.as_str(), "├©", "ø");
    let d = replace_text(d.as_str(), "Sc├©tt", "Scott");
    let t = trim_text(d.as_str());
    squeeze_spaces(t.as_str()).concat(remix.as_str())
}

/// The tracks and seen tracks after the lines from `i` on, cleaned the
/// simpler way (as `line_entries` in the tracklist module does).
pub open spec fn simple_line_entries(
    lines: Seq<Seq<char>>,
    i: int,
    tracks: Seq<Seq<char>>,
    seen: Seq<Seq<char>>,
) -> (Seq<Seq<char>>, Seq<Seq<char>>)
    decreases lines.len() - i,
{
    if i < 0 || i >= lines.len() {
        (tracks, seen)
    } else {
        let t = trimmed(lines[i]);
        if t.len() == 0 || (encode_utf8(t).len() as usize) < 5 || !track_entry(t) {
            simple_line_entries(lines, i + 1, tracks, seen)
        } else {
            let c = simply_cleaned(t);
            if seen.contains(c) {
                simple_line_entries(lines, i + 1, tracks, seen)
            } else {
                simple_line_entries(lines, i + 1, tracks.push(c), seen.push(c))
            }
        }
    }
}

/// Adds the track entries of `text`, line by line, cleaned the simpler way
/// (see `simple_line_entries`).
pub fn extract_tracks_line_by_line(text: &str, tracks: &mut Vec<String>, seen_tracks: &mut Vec<String>)
    ensures
        (texts(final(tracks)@), texts(final(seen_tracks)@)) == simple_line_entries(
            lines_of(text@),
            0,
            texts(old(tracks)@),
            texts(old(seen_tracks)@),
        ),
{
    let lines = text_lines(text);
    let ghost lv = texts(lines@);
    let mut i: usize = 0;
    while i < lines.len()
        invariant
            lv == texts(lines@),
            lv == lines_of(text@),
            i <= lines@.len(),
            simple_line_entries(lv, 0, texts(old(tracks)@), texts(old(seen_tracks)@)) == simple_line_entries(
                lv,
                i as int,
                texts(tracks@),
                texts(seen_tracks@),
            ),
        decreases lines.len() - i,
    {
        let t = trim_text(lines[i].as_str());
        assert(lv[i as int] == lines@[i as int]@);
        if t.unicode_len() == 0 || t.as_str().len() < 5 || !looks_like_track_entry(t.as_str()) {
        } else {
            let c = clean_track_text(t.as_str());
            if !has_text(seen_tracks, &c) {
                let ghost bt = texts(tracks@);
                let ghost bs = texts(seen_tracks@);
                seen_tracks.push(String::from_str(c.as_str()));
                tracks.push(c);
                assert(texts(tracks@) =~= bt.push(simply_cleaned(t@)));
                assert(texts(seen_tracks@) =~= bs.push(simply_cleaned(t@)));
            }
        }
        i = i + 1;
    }
}

/// A numbered, timestamped line, its track text captured.
pub open spec fn numbered_entry_pattern() -> Seq<char> {
    "(?m)^\\s*\\d+[\\.\\)]\\s*(?:\\d+:)?\\d+:\\d+\\s+(.+?)\\s*$"@
}

/// The tracks of the first `n` numbered entries, cleaned the simpler way,
/// each added where not seen before.
pub open spec fn numbered_entries(caps: Seq<Seq<Option<Seq<char>>>>, n: int) -> Seq<Seq<char>>
    decreases n,
{
    if n <= 0 || n > caps.len() {
        Seq::empty()
    } else {
        let prev = numbered_entries(caps, n - 1);
        match group(Some(caps[n - 1]), 1) {
            Some(g) => {
                let c = simply_cleaned(trimmed(g));
                if prev.contains(c) {
                    prev
                } else {
                    prev.push(c)
                }
            },
            None => prev,
        }
    }
}

/// The tracklist of a video description: the numbered, timestamped entries
/// of its tracklist section, and, where fewer than fifteen are found, the
/// track entries of the section read line by line.
pub open spec fn folder_tracklist(description: Seq<char>) -> Seq<Seq<char>> {
    let section = section_from(description, 0);
    let caps = regex_all_captures(numbered_entry_pattern(), section);
    let first = numbered_entries(caps, caps.len() as int);
    if first.len() < 15 {
        simple_line_entries(lines_of(section), 0, first, first).0
    } else {
        first
    }
}

/// The tracklist of a video description (see `folder_tracklist`).
pub fn extract_tracklist(description: &str) -> (r: Vec<String>)
    ensures
        texts(r@) == folder_tracklist(description@),
{
    let section = match find_tracklist_section(description) {
        Some(s) => s,
        None => String::from_str(description),
    };
    assert(section@ == section_from(description@, 0));
    let caps = captures_all("(?m)^\\s*\\d+[\\.\\)]\\s*(?:\\d+:)?\\d+:\\d+\\s+(.+?)\\s*$", section.as_str());
    let ghost cv = all_group_texts(caps@);
    let mut tracks: Vec<String> = Vec::new();
    let mut seen: Vec<String> = Vec::new();
    let mut i: usize = 0;
    assert(texts(tracks@) =~= Seq::<Seq<char>>::empty());
    while i < caps.len()
        invariant
            cv == all_group_texts(caps@),
            i <= caps@.len(),
            texts(tracks@) == numbered_entries(cv, i as int),
            texts(seen@) == texts(tracks@),
        decreases caps.len() - i,
    {
        assert(cv[i as int] == group_texts(caps@[i as int]@));
        match take_group(Some(caps[i].clone()), 1) {
            Some(g) => {
                let t = trim_text(g.as_str());
                let c = clean_track_text(t.as_str());
                if !has_text(&seen, &c) {
                    let ghost bt = texts(tracks@);
                    seen.push(String::from_str(c.as_str()));
                    tracks.push(c);
                    assert(texts(tracks@) =~= bt.push(simply_cleaned(t@)));
                    assert(texts(seen@) =~= bt.push(simply_cleaned(t@)));
                }
            },
            None => {},
        }
        i = i + 1;
    }
    if tracks.len() < 15 {
        extract_tracks_line_by_line(section.as_str(), &mut tracks, &mut seen);
    }
    tracks
}

} // verus!
