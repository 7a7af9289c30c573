use vstd::prelude::*;
use vstd::utf8::encode_utf8;
use crate::patterns::{
    all_group_texts, captures, captures_all, find_all, group_texts, is_match, pair_texts, regex_all_captures,
    regex_captures, regex_finds, regex_matches, regex_replaced, replace_all,
};
use crate::text::{
    find_chars, first_at, has_substring, lines_of, lower_of, lowercase, str_contains,
    substring, text_lines, texts, to_chars, trim_text, trimmed,
};
use crate::tracklist::{clean_track_text, cleaned_track, group, has_text, take_group};

verus! {

/// The section markers of a video description, in the order they are tried.
pub open spec fn section_marker(k: int) -> Seq<char> {
    if k == 0 { "Tracklist:"@ }
    else if k == 1 { "Track list:"@ }
    else if k == 2 { "Tracks:"@ }
    else if k == 3 { "Songs:"@ }
    else if k == 4 { "Music:"@ }
    else if k == 5 { "Playlist:"@ }
    else if k == 6 { "Track List"@ }
    else if k == 7 { "TRACKLIST"@ }
    else if k == 8 { "00:00"@ }
    else if k == 9 { "0:00"@ }
    else if k == 10 { "1. "@ }
    else if k == 11 { "01. "@ }
    else if k == 12 { "1) "@ }
    else if k == 13 { "01) "@ }
    else if k == 14 { "1 - "@ }
    else { "01 - "@ }
}

/// The number of section markers.
pub const MARKER_COUNT: usize = 16;

fn section_marker_exec(k: usize) -> (r: &'static str)
    requires
        k < MARKER_COUNT,
    ensures
        r@ == section_marker(k as int),
{
    if k == 0 { "Tracklist:" }
    else if k == 1 { "Track list:" }
    else if k == 2 { "Tracks:" }
    else if k == 3 { "Songs:" }
    else if k == 4 { "Music:" }
    else if k == 5 { "Playlist:" }
    else if k == 6 { "Track List" }
    else if k == 7 { "TRACKLIST" }
    else if k == 8 { "00:00" }
    else if k == 9 { "0:00" }
    else if k == 10 { "1. " }
    else if k == 11 { "01. " }
    else if k == 12 { "1) " }
    else if k == 13 { "01) " }
    else if k == 14 { "1 - " }
    else { "01 - " }
}

/// Markers that start with a digit count wherever they stand in a line.
pub open spec fn starts_with_digit(m: Seq<char>) -> bool {
    m.len() > 0 && '0' <= m[0] && m[0] <= '9'
}

/// Where the line holding position `pos` starts.
pub open spec fn line_start(d: Seq<char>, pos: int) -> int
    decreases pos,
{
    if pos <= 0 {
        0
    } else if d[pos - 1] == '\n' {
        pos
    } else {
        line_start(d, pos - 1)
    }
}

/// A numbered timestamp at the start of a line.
pub open spec fn numbered_time_pattern() -> Seq<char> {
    "(?m)^\\s*\\d+[.)\\s]*\\d{1,2}:\\d{2}"@
}

/// The tracklist part of a long description from marker `k` on: the text
/// from the first marker found (ignoring case) that starts its line, or that
/// starts with a digit; failing all markers, from the first numbered
/// timestamp at a line start; failing that, all of it.
pub open spec fn section_from_marker(d: Seq<char>, k: int) -> Seq<char>
    decreases 16 - k,
{
    if k < 0 || k >= 16 {
        let f = regex_finds(numbered_time_pattern(), d);
        if f.len() > 0 && f[0].0.len() <= d.len() {
            d.subrange(f[0].0.len() as int, d.len() as int)
        } else {
            d
        }
    } else {
        match first_at(lower_of(d), lower_of(section_marker(k)), 0) {
            Some(pos) => if pos <= d.len() && (trimmed(d.subrange(line_start(d, pos), pos)).len() == 0
                || starts_with_digit(section_marker(k))) {
                d.subrange(pos, d.len() as int)
            } else {
                section_from_marker(d, k + 1)
            },
            None => section_from_marker(d, k + 1),
        }
    }
}

proof fn lemma_line_start_range(d: Seq<char>, pos: int)
    requires
        0 <= pos <= d.len(),
    ensures
        0 <= line_start(d, pos) <= pos,
    decreases pos,
{
    if pos > 0 && d[pos - 1] != '\n' {
        lemma_line_start_range(d, pos - 1);
    }
}

fn line_start_exec(d: &Vec<char>, pos: usize) -> (r: usize)
    requires
        pos <= d@.len(),
    ensures
        r == line_start(d@, pos as int),
{
    let mut p = pos;
    while p > 0 && d[p - 1] != '\n'
        invariant
            p <= pos <= d@.len(),
            line_start(d@, pos as int) == line_start(d@, p as int),
        decreases p,
    {
        p = p - 1;
    }
    p
}

/// The part of a description where its tracklist starts (see `section_from_marker`).
pub fn find_tracklist_section(description: &str) -> (r: Option<String>)
    ensures
        r matches Some(t) && t@ == section_from_marker(description@, 0),
{
    let dc = to_chars(description);
    let n = dc.len();
    let low = to_chars(lowercase(description).as_str());
    let mut k: usize = 0;
    while k < MARKER_COUNT
        invariant
            n == description@.len(),
            dc@ == description@,
            low@ == lower_of(description@),
            k <= 16,
            section_from_marker(description@, 0) == section_from_marker(description@, k as int),
        decreases 16 - k,
    {
        let marker = section_marker_exec(k);
        let m = to_chars(lowercase(marker).as_str());
        match find_chars(&low, &m) {
            Some(pos) => {
                if pos <= n {
                    let ls = line_start_exec(&dc, pos);
                    proof {
                        lemma_line_start_range(description@, pos as int);
                    }
                    let prefix = trim_text(substring(description, ls, pos).as_str());
                    proof {
                        reveal_strlit("Tracklist:");
                        reveal_strlit("Track list:");
                        reveal_strlit("Tracks:");
                        reveal_strlit("Songs:");
                        reveal_strlit("Music:");
                        reveal_strlit("Playlist:");
                        reveal_strlit("Track List");
                        reveal_strlit("TRACKLIST");
                        reveal_strlit("00:00");
                        reveal_strlit("0:00");
                        reveal_strlit("1. ");
                        reveal_strlit("01. ");
                        reveal_strlit("1) ");
                        reveal_strlit("01) ");
                        reveal_strlit("1 - ");
                        reveal_strlit("01 - ");
                    }
                    assert(marker@.len() > 0);
                    let first = marker.get_char(0);
                    if prefix.unicode_len() == 0 || ('0' <= first && first <= '9') {
                        return Some(substring(description, pos, n));
                    }
                }
            },
            None => {},
        }
        k = k + 1;
    }
    let f = find_all("(?m)^\\s*\\d+[.)\\s]*\\d{1,2}:\\d{2}", description);
    if f.len() > 0 {
        let start = f[0].0.unicode_len();
        assert(pair_texts(f@)[0].0 == f@[0].0@);
        if start <= n {
            return Some(substring(description, start, n));
        }
    }
    Some(String::from_str(description))
}

/// Removes a leading track number and timestamp, then cleans the rest.
pub open spec fn basic_cleaned(line: Seq<char>) -> Seq<char> {
    cleaned_track(regex_replaced("^\\s*(?:\\d+[\\.\\)]\\s*)?\\d{1,2}:\\d{2}(?::\\d{2})?\\s*"@, line, ""@))
}

/// A timestamped line cleaned (see `basic_cleaned`).
pub fn clean_basic_timestamp(line: &str) -> (r: String)
    ensures
        r@ == basic_cleaned(line@),
{
    let without = replace_all("^\\s*(?:\\d+[\\.\\)]\\s*)?\\d{1,2}:\\d{2}(?::\\d{2})?\\s*", line, "");
    clean_track_text(without.as_str())
}

/// `acc` with `c` added at the end, unless `c` is empty or already there.
pub open spec fn add_new(acc: Seq<Seq<char>>, c: Seq<char>) -> Seq<Seq<char>> {
    if c.len() > 0 && !acc.contains(c) {
        acc.push(c)
    } else {
        acc
    }
}

fn push_new(acc: &mut Vec<String>, c: String)
    ensures
        texts(final(acc)@) == add_new(texts(old(acc)@), c@),
{
    if c.unicode_len() > 0 && !has_text(acc, &c) {
        let ghost before = texts(acc@);
        acc.push(c);
        assert(texts(acc@) =~= before.push(c@));
    }
}

/// The text from its first "tracklist:" (ignoring case), else from its first
/// "tracklist", else all of it.
pub open spec fn structured_section(t: Seq<char>) -> Seq<char> {
    match first_at(lower_of(t), "tracklist:"@, 0) {
        Some(i) => if i <= t.len() {
            t.subrange(i, t.len() as int)
        } else {
            t
        },
        None => match first_at(lower_of(t), "tracklist"@, 0) {
            Some(i) => if i <= t.len() {
                t.subrange(i, t.len() as int)
            } else {
                t
            },
            None => t,
        },
    }
}

/// A numbered, timestamped line: "1. 00:00 Artist - Title".
pub open spec fn numbered_line_pattern() -> Seq<char> {
    "(?m)^\\s*(\\d+)[\\.\\)]\\s+(\\d{1,2}:\\d{2}(?::\\d{2})?)\\s+(.+)$"@
}

/// The tracks of the numbered lines, cleaned, without repeats, from match `i` on.
pub open spec fn numbered_tracks(caps: Seq<Seq<Option<Seq<char>>>>, n: int) -> Seq<Seq<char>>
    decreases n,
{
    if n <= 0 || n > caps.len() {
        Seq::empty()
    } else {
        let prev = numbered_tracks(caps, n - 1);
        match group(Some(caps[n - 1]), 3) {
            Some(g) => add_new(prev, cleaned_track(trimmed(g))),
            None => prev,
        }
    }
}

/// The tracks of a well-structured list: at least three numbered,
/// timestamped lines after the "tracklist" heading; else none.
pub open spec fn structured_tracks(text: Seq<char>) -> Seq<Seq<char>> {
    let caps = regex_all_captures(numbered_line_pattern(), structured_section(text));
    if caps.len() >= 3 {
        numbered_tracks(caps, caps.len() as int)
    } else {
        Seq::empty()
    }
}

fn from_marker(text: &str, low: &Vec<char>, marker: &str) -> (r: Option<String>)
    requires
        low@ == lower_of(text@),
    ensures
        match first_at(lower_of(text@), marker@, 0) {
            Some(i) => if i <= text@.len() {
                r matches Some(s) && s@ == text@.subrange(i, text@.len() as int)
            } else {
                r matches Some(s) && s@ == text@
            },
            None => r is None,
        },
{
    let m = to_chars(marker);
    let n = text.unicode_len();
    match find_chars(low, &m) {
        Some(i) => if i <= n {
            Some(substring(text, i, n))
        } else {
            Some(String::from_str(text))
        },
        None => None,
    }
}

/// The tracks of a well-structured list (see `structured_tracks`).
pub fn extract_structured_tracklist(text: &str) -> (r: Vec<String>)
    ensures
        texts(r@) == structured_tracks(text@),
{
    let low = to_chars(lowercase(text).as_str());
    let section = match from_marker(text, &low, "tracklist:") {
        Some(s) => s,
        None => match from_marker(text, &low, "tracklist") {
            Some(s) => s,
            None => String::from_str(text),
        },
    };
    assert(section@ == structured_section(text@));
    let caps = captures_all("(?m)^\\s*(\\d+)[\\.\\)]\\s+(\\d{1,2}:\\d{2}(?::\\d{2})?)\\s+(.+)$", section.as_str());
    let ghost cv = all_group_texts(caps@);
    let mut tracks: Vec<String> = Vec::new();
    if caps.len() < 3 {
        assert(texts(tracks@) =~= Seq::<Seq<char>>::empty());
        return tracks;
    }
    let mut i: usize = 0;
    assert(texts(tracks@) =~= Seq::<Seq<char>>::empty());
    while i < caps.len()
        invariant
            cv == all_group_texts(caps@),
            i <= caps@.len(),
            texts(tracks@) == numbered_tracks(cv, i as int),
        decreases caps.len() - i,
    {
        let g = take_group(Some(caps[i].clone()), 3);
        assert(cv[i as int] == group_texts(caps@[i as int]@));
        match g {
            Some(t) => {
                let tt = trim_text(t.as_str());
                let c = clean_track_text(tt.as_str());
                push_new(&mut tracks, c);
            },
            None => {},
        }
        i = i + 1;
    }
    tracks
}


/// A timestamp, "m:ss" or "h:mm:ss".
pub open spec fn time_pattern() -> Seq<char> {
    "\\d{1,2}:\\d{2}(?::\\d{2})?"@
}

pub open spec fn has_ascii_digit(s: Seq<char>) -> bool {
    exists|i: int| 0 <= i < s.len() && '0' <= s[i] && s[i] <= '9'
}

/// A line with a colon, a digit and a timestamp.
pub open spec fn timestamp_line(l: Seq<char>) -> bool {
    has_substring(l, ":"@) && has_ascii_digit(l) && regex_matches("\\d+:\\d+"@, l)
}

/// The timestamp lines among the first `n` lines.
pub open spec fn timestamp_lines(lines: Seq<Seq<char>>, n: int) -> Seq<Seq<char>>
    decreases n,
{
    if n <= 0 || n > lines.len() {
        Seq::empty()
    } else {
        let prev = timestamp_lines(lines, n - 1);
        if timestamp_line(lines[n - 1]) {
            prev.push(lines[n - 1])
        } else {
            prev
        }
    }
}

pub open spec fn has_dash(l: Seq<char>) -> bool {
    has_substring(l, " - "@) || has_substring(l, "- "@) || has_substring(l, " -"@)
}

/// Where the dash between artist and title stands: the first " - ", else "- ", else " -".
pub open spec fn dash_pos(l: Seq<char>) -> Option<int> {
    match first_at(l, " - "@, 0) {
        Some(p) => Some(p),
        None => match first_at(l, "- "@, 0) {
            Some(p) => Some(p),
            None => first_at(l, " -"@, 0),
        },
    }
}

/// Where a match ends.
pub open spec fn end_of(f: (Seq<char>, Seq<char>)) -> int {
    (f.0.len() + f.1.len()) as int
}

/// The end of the last of the first `n` matches that ends before `limit`.
pub open spec fn last_end_before(f: Seq<(Seq<char>, Seq<char>)>, limit: int, n: int) -> Option<int>
    decreases n,
{
    if n <= 0 || n > f.len() {
        None
    } else if end_of(f[n - 1]) < limit {
        Some(end_of(f[n - 1]))
    } else {
        last_end_before(f, limit, n - 1)
    }
}

/// The text of `l` from position `e` on.
pub open spec fn after(l: Seq<char>, e: int) -> Seq<char> {
    if 0 <= e <= l.len() {
        l.subrange(e, l.len() as int)
    } else {
        Seq::empty()
    }
}

/// The track a line gives on the first reading: a numbered line with a
/// timestamp before its dash gives the text after the last such timestamp;
/// a line with a timestamp followed by text gives the text after its last
/// timestamp; cleaned in both cases.
pub open spec fn first_reading(l: Seq<char>) -> Option<Seq<char>> {
    if has_substring(l, ":"@) && has_dash(l) && (has_substring(l, "."@) || has_substring(l, ")"@)
        || regex_matches("^\\s*\\d+\\s"@, l)) && regex_matches(time_pattern(), l) {
        match dash_pos(l) {
            Some(d) => {
                let f = regex_finds(time_pattern(), l);
                match last_end_before(f, d, f.len() as int) {
                    Some(e) => Some(cleaned_track(trimmed(after(l, e)))),
                    None => None,
                }
            },
            None => None,
        }
    } else if has_substring(l, ":"@) && has_dash(l) && regex_matches("\\d{1,2}:\\d{2}(?::\\d{2})?\\s+\\S+"@, l) {
        let f = regex_finds(time_pattern(), l);
        if f.len() > 0 {
            Some(cleaned_track(trimmed(after(l, end_of(f.last())))))
        } else {
            None
        }
    } else {
        None
    }
}

/// Folds the first readings of the first `n` lines into `acc`.
pub open spec fn first_pass(lines: Seq<Seq<char>>, n: int, acc: Seq<Seq<char>>) -> Seq<Seq<char>>
    decreases n,
{
    if n <= 0 || n > lines.len() {
        acc
    } else {
        let prev = first_pass(lines, n - 1, acc);
        match first_reading(lines[n - 1]) {
            Some(c) => add_new(prev, c),
            None => prev,
        }
    }
}

/// The track a timestamp line gives on the second reading: the text after
/// its first timestamp, as "Artist - Title" where it splits at a dash with
/// both sides filled, else as it is where not empty; cleaned.
pub open spec fn second_reading(l: Seq<char>) -> Option<Seq<char>> {
    let f = regex_finds(time_pattern(), l);
    if f.len() == 0 {
        None
    } else {
        let a = trimmed(after(l, end_of(f[0])));
        let c = regex_captures("([^-]+)-([^-]+)"@, a);
        match c {
            Some(_) => match (group(c, 1), group(c, 2)) {
                (Some(x), Some(y)) => if trimmed(x).len() > 0 && trimmed(y).len() > 0 {
                    Some(cleaned_track(trimmed(x) + " - "@ + trimmed(y)))
                } else {
                    None
                },
                _ => None,
            },
            None => if a.len() > 0 {
                Some(cleaned_track(a))
            } else {
                None
            },
        }
    }
}

pub open spec fn second_pass(lines: Seq<Seq<char>>, n: int, acc: Seq<Seq<char>>) -> Seq<Seq<char>>
    decreases n,
{
    if n <= 0 || n > lines.len() {
        acc
    } else {
        let prev = second_pass(lines, n - 1, acc);
        match second_reading(lines[n - 1]) {
            Some(c) => add_new(prev, c),
            None => prev,
        }
    }
}

/// "Artist - Title" anywhere in a text.
pub open spec fn loose_pair_pattern() -> Seq<char> {
    "([A-Za-z0-9&\\s,\\.]+)\\s+-\\s+([A-Za-z0-9&\\s,\\.']+)"@
}

/// Folds the first `n` loose "Artist - Title" matches into `acc`: both
/// parts longer than two bytes, cleaned, added where not seen before.
pub open spec fn pair_pass(caps: Seq<Seq<Option<Seq<char>>>>, n: int, acc: Seq<Seq<char>>) -> Seq<Seq<char>>
    decreases n,
{
    if n <= 0 || n > caps.len() {
        acc
    } else {
        let prev = pair_pass(caps, n - 1, acc);
        let c = Some(caps[n - 1]);
        match (group(c, 1), group(c, 2)) {
            (Some(x), Some(y)) => if (encode_utf8(trimmed(x)).len() as usize) > 2 && (encode_utf8(
                trimmed(y),
            ).len() as usize) > 2 {
                let t = cleaned_track(trimmed(x) + " - "@ + trimmed(y));
                if prev.contains(t) {
                    prev
                } else {
                    prev.push(t)
                }
            } else {
                prev
            },
            _ => prev,
        }
    }
}

pub open spec fn basic_pass(lines: Seq<Seq<char>>, n: int, acc: Seq<Seq<char>>) -> Seq<Seq<char>>
    decreases n,
{
    if n <= 0 || n > lines.len() {
        acc
    } else {
        add_new(basic_pass(lines, n - 1, acc), basic_cleaned(lines[n - 1]))
    }
}

/// The part of a description searched for tracks: all of a short one
/// (under 500 bytes), else its tracklist section.
pub open spec fn searched_part(d: Seq<char>) -> Seq<char> {
    if (encode_utf8(d).len() as usize) < 500 {
        d
    } else {
        section_from_marker(d, 0)
    }
}

/// The tracks found in a video description: a well-structured list where
/// there is one; else the first reading of each line, and, while fewer than
/// five tracks are found, the second reading of the timestamp lines (where
/// there are five or more), loose "Artist - Title" pairs, and finally the
/// timestamp lines themselves, cleaned.
pub open spec fn description_tracks(d: Seq<char>) -> Seq<Seq<char>> {
    let section = searched_part(d);
    let st = structured_tracks(section);
    if st.len() > 0 {
        st
    } else {
        let lines = lines_of(section);
        let ts = timestamp_lines(lines, lines.len() as int);
        let p1 = first_pass(lines, lines.len() as int, Seq::empty());
        let p2 = if p1.len() < 5 {
            let a = if ts.len() >= 5 {
                second_pass(ts, ts.len() as int, p1)
            } else {
                p1
            };
            let caps = regex_all_captures(loose_pair_pattern(), section);
            pair_pass(caps, caps.len() as int, a)
        } else {
            p1
        };
        if p2.len() < 5 && ts.len() >= 5 {
            basic_pass(ts, ts.len() as int, p2)
        } else {
            p2
        }
    }
}

fn has_digit_exec(s: &str) -> (r: bool)
    ensures
        r == has_ascii_digit(s@),
{
    let n = s.unicode_len();
    let mut i: usize = 0;
    while i < n
        invariant
            n == s@.len(),
            i <= n,
            forall|k: int| 0 <= k < i ==> !('0' <= s@[k] && s@[k] <= '9'),
        decreases n - i,
    {
        let c = s.get_char(i);
        if '0' <= c && c <= '9' {
            return true;
        }
        i = i + 1;
    }
    false
}

fn is_timestamp_line(l: &str) -> (r: bool)
    ensures
        r == timestamp_line(l@),
{
    str_contains(l, ":") && has_digit_exec(l) && is_match("\\d+:\\d+", l)
}

fn find_text(l: &str, p: &str) -> (r: Option<usize>)
    ensures
        r is None <==> first_at(l@, p@, 0) is None,
        r matches Some(k) ==> first_at(l@, p@, 0) == Some(k as int),
{
    let lc = to_chars(l);
    let pc = to_chars(p);
    find_chars(&lc, &pc)
}

fn dash_pos_exec(l: &str) -> (r: Option<usize>)
    ensures
        match dash_pos(l@) {
            Some(p) => r == Some(p as usize) && p == r->0 as int,
            None => r is None,
        },
{
    match find_text(l, " - ") {
        Some(p) => Some(p),
        None => match find_text(l, "- ") {
            Some(p) => Some(p),
            None => find_text(l, " -"),
        },
    }
}

/// Where the `k`-th match ends.
fn end_at(f: &Vec<(String, String)>, k: usize, Ghost(l): Ghost<Seq<char>>) -> (r: usize)
    requires
        k < f@.len(),
        forall|i: int|
            0 <= i < f@.len() ==> {
                let p = (#[trigger] f@[i]).0@ + f@[i].1@;
                p.len() <= l.len() && l.subrange(0, p.len() as int) == p
            },
        l.len() <= usize::MAX,
    ensures
        r as int == end_of(pair_texts(f@)[k as int]),
        r <= l.len(),
{
    assert(pair_texts(f@)[k as int] == (f@[k as int].0@, f@[k as int].1@));
    let a = f[k].0.unicode_len();
    let b = f[k].1.unicode_len();
    assert((f@[k as int].0@ + f@[k as int].1@).len() <= l.len());
    a + b
}

fn text_after(l: &str, e: usize) -> (r: String)
    requires
        e <= l@.len(),
    ensures
        r@ == after(l@, e as int),
{
    let n = l.unicode_len();
    substring(l, e, n)
}

fn first_reading_exec(l: &str) -> (r: Option<String>)
    ensures
        match first_reading(l@) {
            Some(c) => r matches Some(x) && x@ == c,
            None => r is None,
        },
{
    let n = l.unicode_len();
    let colon = str_contains(l, ":");
    let dash = str_contains(l, " - ") || str_contains(l, "- ") || str_contains(l, " -");
    if colon && dash && (str_contains(l, ".") || str_contains(l, ")") || is_match("^\\s*\\d+\\s", l))
        && is_match("\\d{1,2}:\\d{2}(?::\\d{2})?", l) {
        match dash_pos_exec(l) {
            None => None,
            Some(d) => {
                let f = find_all("\\d{1,2}:\\d{2}(?::\\d{2})?", l);
                let ghost fv = pair_texts(f@);
                let mut k: usize = f.len();
                while k > 0 && end_at(&f, k - 1, Ghost(l@)) >= d
                    invariant
                        n == l@.len(),
                        fv == pair_texts(f@),
                        k <= f@.len(),
                        forall|i: int|
                            0 <= i < f@.len() ==> {
                                let p = (#[trigger] f@[i]).0@ + f@[i].1@;
                                p.len() <= l@.len() && l@.subrange(0, p.len() as int) == p
                            },
                        last_end_before(fv, d as int, fv.len() as int) == last_end_before(fv, d as int, k as int),
                    decreases k,
                {
                    k = k - 1;
                }
                if k == 0 {
                    None
                } else {
                    let e = end_at(&f, k - 1, Ghost(l@));
                    let a = trim_text(text_after(l, e).as_str());
                    Some(clean_track_text(a.as_str()))
                }
            },
        }
    } else if colon && dash && is_match("\\d{1,2}:\\d{2}(?::\\d{2})?\\s+\\S+", l) {
        let f = find_all("\\d{1,2}:\\d{2}(?::\\d{2})?", l);
        if f.len() > 0 {
            let e = end_at(&f, f.len() - 1, Ghost(l@));
            let a = trim_text(text_after(l, e).as_str());
            Some(clean_track_text(a.as_str()))
        } else {
            None
        }
    } else {
        None
    }
}

fn second_reading_exec(l: &str) -> (r: Option<String>)
    ensures
        match second_reading(l@) {
            Some(c) => r matches Some(x) && x@ == c,
            None => r is None,
        },
{
    let n = l.unicode_len();
    let f = find_all("\\d{1,2}:\\d{2}(?::\\d{2})?", l);
    if f.len() == 0 {
        return None;
    }
    let e = end_at(&f, 0, Ghost(l@));
    let a = trim_text(text_after(l, e).as_str());
    let c = captures("([^-]+)-([^-]+)", a.as_str());
    match c {
        Some(_) => {
            let x = take_group(c.clone(), 1);
            let y = take_group(c, 2);
            match (x, y) {
                (Some(x), Some(y)) => {
                    let xt = trim_text(x.as_str());
                    let yt = trim_text(y.as_str());
                    if xt.unicode_len() > 0 && yt.unicode_len() > 0 {
                        let t = xt.concat(" - ").concat(yt.as_str());
                        Some(clean_track_text(t.as_str()))
                    } else {
                        None
                    }
                },
                _ => None,
            }
        },
        None => if a.unicode_len() > 0 {
            Some(clean_track_text(a.as_str()))
        } else {
            None
        },
    }
}

/// The tracks found in a video description (see `description_tracks`).
pub fn extract_tracklist_from_description(description: &str) -> (r: Vec<String>)
    ensures
        texts(r@) == description_tracks(description@),
{
    let section = if description.len() < 500 {
        String::from_str(description)
    } else {
        match find_tracklist_section(description) {
            Some(s) => s,
            None => String::from_str(description),
        }
    };
    assert(section@ == searched_part(description@));
    let structured = extract_structured_tracklist(section.as_str());
    if structured.len() > 0 {
        return structured;
    }
    let lines = text_lines(section.as_str());
    let ghost lv = texts(lines@);
    let mut ts: Vec<String> = Vec::new();
    let mut tracks: Vec<String> = Vec::new();
    let mut i: usize = 0;
    assert(texts(ts@) =~= Seq::<Seq<char>>::empty());
    assert(texts(tracks@) =~= Seq::<Seq<char>>::empty());
    while i < lines.len()
        invariant
            lv == texts(lines@),
            i <= lines@.len(),
            texts(ts@) == timestamp_lines(lv, i as int),
            texts(tracks@) == first_pass(lv, i as int, Seq::empty()),
        decreases lines.len() - i,
    {
        let l = lines[i].as_str();
        assert(lv[i as int] == l@);
        if is_timestamp_line(l) {
            let ghost before = texts(ts@);
            ts.push(String::from_str(l));
            assert(texts(ts@) =~= before.push(l@));
        }
        match first_reading_exec(l) {
            Some(c) => push_new(&mut tracks, c),
            None => {},
        }
        i = i + 1;
    }
    let ghost tv = texts(ts@);
    let ghost p1 = texts(tracks@);
    if tracks.len() < 5 {
        if ts.len() >= 5 {
            let mut k: usize = 0;
            while k < ts.len()
                invariant
                    tv == texts(ts@),
                    k <= ts@.len(),
                    texts(tracks@) == second_pass(tv, k as int, p1),
                decreases ts.len() - k,
            {
                assert(tv[k as int] == ts@[k as int]@);
                match second_reading_exec(ts[k].as_str()) {
                    Some(c) => push_new(&mut tracks, c),
                    None => {},
                }
                k = k + 1;
            }
        }
        let ghost a = texts(tracks@);
        let caps = captures_all("([A-Za-z0-9&\\s,\\.]+)\\s+-\\s+([A-Za-z0-9&\\s,\\.']+)", section.as_str());
        let ghost cv = all_group_texts(caps@);
        let mut k: usize = 0;
        while k < caps.len()
            invariant
                cv == all_group_texts(caps@),
                k <= caps@.len(),
                texts(tracks@) == pair_pass(cv, k as int, a),
            decreases caps.len() - k,
        {
            assert(cv[k as int] == group_texts(caps@[k as int]@));
            let x = take_group(Some(caps[k].clone()), 1);
            let y = take_group(Some(caps[k].clone()), 2);
            match (x, y) {
                (Some(x), Some(y)) => {
                    let xt = trim_text(x.as_str());
                    let yt = trim_text(y.as_str());
                    if xt.as_str().len() > 2 && yt.as_str().len() > 2 {
                        let t = xt.concat(" - ").concat(yt.as_str());
                        let c = clean_track_text(t.as_str());
                        if !has_text(&tracks, &c) {
                            let ghost before = texts(tracks@);
                            tracks.push(c);
                            assert(texts(tracks@) =~= before.push(c@));
                        }
                    }
                },
                _ => {},
            }
            k = k + 1;
        }
    }
    let ghost p2 = texts(tracks@);
    if tracks.len() < 5 && ts.len() >= 5 {
        let mut k: usize = 0;
        while k < ts.len()
            invariant
                tv == texts(ts@),
                k <= ts@.len(),
                texts(tracks@) == basic_pass(tv, k as int, p2),
            decreases ts.len() - k,
        {
            assert(tv[k as int] == ts@[k as int]@);
            let c = clean_basic_timestamp(ts[k].as_str());
            push_new(&mut tracks, c);
            k = k + 1;
        }
    }
    tracks
}

} // verus!
