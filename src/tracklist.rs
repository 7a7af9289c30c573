use vstd::prelude::*;
use crate::patterns::{captures, found_texts, is_match, regex_captures, regex_matches, regex_replaced, replace_all};
use vstd::utf8::encode_utf8;
use crate::text::{
    find_chars, first_at, lemma_first_at_occurs, occurs_at, to_chars,
    has_substring, lines_of, lower_of, lowercase, replace_text, replaced, str_contains, substring, text_lines,
    texts, trim_text, trimmed,
};

verus! {

/// The smaller of two numbers.
pub fn min(a: usize, b: usize) -> (r: usize)
    ensures
        r == (if a < b {
            a
        } else {
            b
        }),
{
    if a < b {
        a
    } else {
        b
    }
}

/// Group `k` of a match, where it took part.
pub open spec fn group(c: Option<Seq<Option<Seq<char>>>>, k: int) -> Option<Seq<char>> {
    match c {
        Some(g) => if 0 <= k < g.len() {
            g[k]
        } else {
            None
        },
        None => None,
    }
}

/// Takes group `k` out of a match.
pub fn take_group(c: Option<Vec<Option<String>>>, k: usize) -> (r: Option<String>)
    ensures
        match r {
            Some(s) => group(found_texts(c), k as int) == Some(s@),
            None => group(found_texts(c), k as int) is None,
        },
{
    match c {
        Some(mut g) => {
            if k >= g.len() {
                return None;
            }
            let ghost gv = g@;
            let x = g.remove(k);
            assert(x == gv[k as int]);
            x
        },
        None => None,
    }
}

/// A track line: an optional number, a timestamp, then the track.
pub open spec fn track_line_pattern() -> Seq<char> {
    "(?:^\\d+[\\)\\.:]?\\s*)?(?:\\d{1,2}:)?\\d{1,2}:\\d{2}\\s*(.+)"@
}

/// The track of a line that starts with a timestamp: the text after it,
/// trimmed, without '@', '[' and ']', trimmed again; `None` where nothing is left.
pub open spec fn track_of_line(line: Seq<char>) -> Option<Seq<char>> {
    match group(regex_captures(track_line_pattern(), line), 1) {
        Some(g) => {
            let t = trimmed(replaced(replaced(replaced(trimmed(g), "@"@, ""@), "["@, ""@), "]"@, ""@));
            if t.len() > 0 {
                Some(t)
            } else {
                None
            }
        },
        None => None,
    }
}

/// The track of a timestamped line (see `track_of_line`).
pub fn parse_track_line(line: &str) -> (r: Option<String>)
    ensures
        match track_of_line(line@) {
            Some(t) => r matches Some(s) && s@ == t,
            None => r is None,
        },
{
    let c = captures("(?:^\\d+[\\)\\.:]?\\s*)?(?:\\d{1,2}:)?\\d{1,2}:\\d{2}\\s*(.+)", line);
    match take_group(c, 1) {
        None => None,
        Some(g) => {
            proof {
                reveal_strlit("@");
                reveal_strlit("[");
                reveal_strlit("]");
            }
            let t = trim_text(g.as_str());
            let t = replace_text(t.as_str(), "@", "");
            let t = replace_text(t.as_str(), "[", "");
            let t = replace_text(t.as_str(), "]", "");
            let t = trim_text(t.as_str());
            if t.unicode_len() > 0 {
                Some(t)
            } else {
                None
            }
        },
    }
}

/// The tracks listed from line `i` on: lines count after one that mentions
/// "tracklist" (in any case); an empty line or "flavourful timestamps:" ends
/// the list; each line that holds a timestamped track adds it.
pub open spec fn tracklist_from(lines: Seq<Seq<char>>, i: int, inside: bool, acc: Seq<Seq<char>>) -> Seq<Seq<char>>
    decreases lines.len() - i,
{
    if i < 0 || i >= lines.len() {
        acc
    } else {
        let line = trimmed(lines[i]);
        if has_substring(lower_of(line), "tracklist"@) {
            tracklist_from(lines, i + 1, true, acc)
        } else if !inside {
            tracklist_from(lines, i + 1, false, acc)
        } else if line.len() == 0 || has_substring(line, "flavourful timestamps:"@) {
            acc
        } else {
            match track_of_line(line) {
                Some(t) => tracklist_from(lines, i + 1, true, acc.push(t)),
                None => tracklist_from(lines, i + 1, true, acc),
            }
        }
    }
}

/// The tracklist of a video description (see `tracklist_from`).
pub open spec fn description_tracklist(d: Seq<char>) -> Seq<Seq<char>> {
    tracklist_from(lines_of(d), 0, false, Seq::empty())
}

/// The tracklist of a video description (see `description_tracklist`).
pub fn extract_tracklist_from_description(description: &str) -> (r: Vec<String>)
    ensures
        texts(r@) == description_tracklist(description@),
{
    let lines = text_lines(description);
    let ghost lv = texts(lines@);
    let mut out: Vec<String> = Vec::new();
    let mut inside = false;
    let mut i: usize = 0;
    assert(texts(out@) =~= Seq::<Seq<char>>::empty());
    while i < lines.len()
        invariant
            lv == texts(lines@),
            lv == lines_of(description@),
            i <= lines@.len(),
            description_tracklist(description@) == tracklist_from(lv, i as int, inside, texts(out@)),
        decreases lines.len() - i,
    {
        let line = trim_text(lines[i].as_str());
        assert(lv[i as int] == lines@[i as int]@);
        let low = lowercase(line.as_str());
        if str_contains(low.as_str(), "tracklist") {
            inside = true;
        } else if !inside {
        } else if line.unicode_len() == 0 || str_contains(line.as_str(), "flavourful timestamps:") {
            return out;
        } else {
            match parse_track_line(line.as_str()) {
                Some(t) => {
                    let ghost before = texts(out@);
                    out.push(t);
                    assert(texts(out@) =~= before.push(track_of_line(line@)->0));
                },
                None => {},
            }
        }
        i = i + 1;
    }
    out
}

/// A line looks like a track entry: it holds " - ", starts with a number and
/// '.' or ')', or holds a timestamp.
pub open spec fn track_entry(line: Seq<char>) -> bool {
    has_substring(line, " - "@) || regex_matches("^\\d+[\\.\\)]"@, line) || regex_matches("\\d+:\\d+"@, line)
}

/// Whether a line looks like a track entry (see `track_entry`).
pub fn looks_like_track_entry(line: &str) -> (r: bool)
    ensures
        r == track_entry(line@),
{
    str_contains(line, " - ") || is_match("^\\d+[\\.\\)]", line) || is_match("\\d+:\\d+", line)
}

/// `s` without leading `c`.
pub open spec fn strip_front(s: Seq<char>, c: char) -> Seq<char>
    decreases s.len(),
{
    if s.len() > 0 && s[0] == c {
        strip_front(s.drop_first(), c)
    } else {
        s
    }
}

/// `s` without trailing `c`.
pub open spec fn strip_back(s: Seq<char>, c: char) -> Seq<char>
    decreases s.len(),
{
    if s.len() > 0 && s.last() == c {
        strip_back(s.drop_last(), c)
    } else {
        s
    }
}

/// `s` without leading and trailing `c`, as `str::trim_matches` with one character.
pub open spec fn strip_both(s: Seq<char>, c: char) -> Seq<char> {
    strip_back(strip_front(s, c), c)
}

/// `s` without leading and trailing `c` (see `strip_both`).
pub fn trim_char(s: &str, c: char) -> (r: String)
    ensures
        r@ == strip_both(s@, c),
{
    let n = s.unicode_len();
    let mut a: usize = 0;
    assert(s@.subrange(0, n as int) =~= s@);
    while a < n && s.get_char(a) == c
        invariant
            n == s@.len(),
            a <= n,
            strip_front(s@, c) == strip_front(s@.subrange(a as int, n as int), c),
        decreases n - a,
    {
        proof {
            let t = s@.subrange(a as int, n as int);
            assert(t.drop_first() =~= s@.subrange(a + 1, n as int));
        }
        a = a + 1;
    }
    proof {
        let t = s@.subrange(a as int, n as int);
        if a < n {
            assert(t[0] == s@[a as int]);
        }
        assert(strip_front(t, c) == t);
    }
    let mut b: usize = n;
    while b > a && s.get_char(b - 1) == c
        invariant
            n == s@.len(),
            a <= b <= n,
            strip_front(s@, c) == s@.subrange(a as int, n as int),
            strip_both(s@, c) == strip_back(s@.subrange(a as int, b as int), c),
        decreases b,
    {
        proof {
            let t = s@.subrange(a as int, b as int);
            assert(t.drop_last() =~= s@.subrange(a as int, b - 1));
        }
        b = b - 1;
    }
    proof {
        let t = s@.subrange(a as int, b as int);
        if a < b {
            assert(t.last() == s@[b - 1]);
        }
        assert(strip_back(t, c) == t);
    }
    substring(s, a, b)
}

/// A folder name for a title: characters that paths refuse become spaces,
/// the ends are trimmed of whitespace and then of dots, runs of whitespace
/// become one space, and an empty result becomes "Unknown_Title".
pub open spec fn sanitized(name: Seq<char>) -> Seq<char> {
    let a = regex_replaced("[<>:\"/\\\\|?*]"@, name, " "@);
    let b = strip_both(trimmed(a), '.');
    let c = regex_replaced("\\s+"@, b, " "@);
    if c.len() == 0 {
        "Unknown_Title"@
    } else {
        c
    }
}

/// A folder name for a title (see `sanitized`).
pub fn sanitize_filename(filename: &str) -> (r: String)
    ensures
        r@ == sanitized(filename@),
{
    let a = replace_all("[<>:\"/\\\\|?*]", filename, " ");
    let t = trim_text(a.as_str());
    let b = trim_char(t.as_str(), '.');
    let c = replace_all("\\s+", b.as_str(), " ");
    if c.unicode_len() == 0 {
        return String::from_str("Unknown_Title");
    }
    c
}


/// The section markers, in the order they are tried.
pub open spec fn marker_text(k: int) -> Seq<char> {
    if k == 0 {
        "Tracklist:"@
    } else if k == 1 {
        "Track list:"@
    } else if k == 2 {
        "Tracks:"@
    } else if k == 3 {
        "Songs:"@
    } else if k == 4 {
        "Music:"@
    } else {
        "Playlist:"@
    }
}

fn marker(k: usize) -> (r: &'static str)
    requires
        k < 6,
    ensures
        r@ == marker_text(k as int),
{
    if k == 0 {
        "Tracklist:"
    } else if k == 1 {
        "Track list:"
    } else if k == 2 {
        "Tracks:"
    } else if k == 3 {
        "Songs:"
    } else if k == 4 {
        "Music:"
    } else {
        "Playlist:"
    }
}

/// The description from the first marker found (ignoring case), trying
/// the markers in order; all of it where no marker is found. A position
/// found in the lower-cased text past the end of the text itself is passed over.
pub open spec fn section_from(d: Seq<char>, k: int) -> Seq<char>
    decreases 6 - k,
{
    if k < 0 || k >= 6 {
        d
    } else {
        match first_at(lower_of(d), lower_of(marker_text(k)), 0) {
            Some(p) => if p <= d.len() {
                d.subrange(p, d.len() as int)
            } else {
                section_from(d, k + 1)
            },
            None => section_from(d, k + 1),
        }
    }
}

/// The part of a description where its tracklist starts (see `section_from`).
pub fn find_tracklist_section(description: &str) -> (r: Option<String>)
    ensures
        r matches Some(t) && t@ == section_from(description@, 0),
{
    let n = description.unicode_len();
    let low = to_chars(lowercase(description).as_str());
    let mut k: usize = 0;
    while k < 6
        invariant
            n == description@.len(),
            low@ == lower_of(description@),
            k <= 6,
            section_from(description@, 0) == section_from(description@, k as int),
        decreases 6 - k,
    {
        let m = to_chars(lowercase(marker(k)).as_str());
        match find_chars(&low, &m) {
            Some(p) => {
                if p <= n {
                    return Some(substring(description, p, n));
                }
            },
            None => {},
        }
        k = k + 1;
    }
    Some(String::from_str(description))
}

/// Artist names known to lack a comma, each with its corrected form.
pub open spec fn comma_fix(k: int) -> (Seq<char>, Seq<char>) {
    if k == 0 {
        ("Aberton JazzedUp"@, "Aberton, JazzedUp"@)
    } else if k == 1 {
        ("Julian Sanza Andre"@, "Julian Sanza, Andre"@)
    } else if k == 2 {
        ("Big Miz & Bessa"@, "Big Miz & Bessa"@)
    } else if k == 3 {
        ("Paolo Barbato Lee"@, "Paolo Barbato, Lee"@)
    } else {
        ("Cpen JT"@, "Cpen, JT"@)
    }
}

fn comma_fix_exec(k: usize) -> (r: (&'static str, &'static str))
    requires
        k < 5,
    ensures
        r.0@ == comma_fix(k as int).0,
        r.1@ == comma_fix(k as int).1,
        r.0@.len() > 0,
{
    proof {
        reveal_strlit("Aberton JazzedUp");
        reveal_strlit("Julian Sanza Andre");
        reveal_strlit("Big Miz & Bessa");
        reveal_strlit("Paolo Barbato Lee");
        reveal_strlit("Cpen JT");
    }
    if k == 0 {
        ("Aberton JazzedUp", "Aberton, JazzedUp")
    } else if k == 1 {
        ("Julian Sanza Andre", "Julian Sanza, Andre")
    } else if k == 2 {
        ("Big Miz & Bessa", "Big Miz & Bessa")
    } else if k == 3 {
        ("Paolo Barbato Lee", "Paolo Barbato, Lee")
    } else {
        ("Cpen JT", "Cpen, JT")
    }
}

/// Three capitalised names in a row.
pub open spec fn three_names_pattern() -> Seq<char> {
    "([A-Z][a-z]+)\\s+([A-Z][a-z]+)\\s+([A-Z][a-z]+)"@
}

/// A comma put after the second of the first three capitalised names in a row.
pub open spec fn three_names_fix(a: Seq<char>) -> Seq<char> {
    let c = regex_captures(three_names_pattern(), a);
    match (group(c, 1), group(c, 2), group(c, 3)) {
        (Some(x), Some(y), Some(z)) => replaced(a, x + " "@ + y + " "@ + z, x + " "@ + y + ", "@ + z),
        _ => a,
    }
}

/// An artist text with a missing comma put back: the first known name that
/// it holds is corrected, else three names in a row get a comma.
pub open spec fn fixed_artist_from(a: Seq<char>, k: int) -> Seq<char>
    decreases 5 - k,
{
    if k < 0 || k >= 5 {
        three_names_fix(a)
    } else if has_substring(a, comma_fix(k).0) {
        replaced(a, comma_fix(k).0, comma_fix(k).1)
    } else {
        fixed_artist_from(a, k + 1)
    }
}

/// An artist text with a missing comma put back (see `fixed_artist_from`).
pub fn fix_artist_names(artist: &str) -> (r: String)
    ensures
        r@ == fixed_artist_from(artist@, 0),
{
    let mut k: usize = 0;
    while k < 5
        invariant
            k <= 5,
            fixed_artist_from(artist@, 0) == fixed_artist_from(artist@, k as int),
        decreases 5 - k,
    {
        let (pattern, replacement) = comma_fix_exec(k);
        if str_contains(artist, pattern) {
            return replace_text(artist, pattern, replacement);
        }
        k = k + 1;
    }
    let c = captures("([A-Z][a-z]+)\\s+([A-Z][a-z]+)\\s+([A-Z][a-z]+)", artist);
    let x = take_group(c.clone(), 1);
    let y = take_group(c.clone(), 2);
    let z = take_group(c, 3);
    match (x, y, z) {
        (Some(x), Some(y), Some(z)) => {
            proof {
                reveal_strlit(" ");
            }
            let from = x.clone().concat(" ").concat(y.as_str()).concat(" ").concat(z.as_str());
            let to = x.concat(" ").concat(y.as_str()).concat(", ").concat(z.as_str());
            replace_text(artist, from.as_str(), to.as_str())
        },
        _ => String::from_str(artist),
    }
}


/// "Artist - Title", with an optional bracketed remix part.
pub open spec fn artist_title_pattern() -> Seq<char> {
    "([A-Za-z0-9\\s&,.]+)\\s+-\\s+([A-Za-z0-9\\s',.]+)(\\s+\\([A-Za-z0-9\\s',.]+(?:Remix|Mix|Dub|Edit)[A-Za-z0-9\\s',.]*\\))?"@
}

/// "Artist - Title" (plus the remix part where present) read from a track
/// text, the artist trimmed and comma-fixed, the title trimmed; `None` where
/// the pattern does not match or either part is empty.
pub open spec fn artist_title_of(track: Seq<char>) -> Option<Seq<char>> {
    let c = regex_captures(artist_title_pattern(), track);
    match (group(c, 1), group(c, 2)) {
        (Some(a), Some(t)) => {
            let af = fixed_artist_from(trimmed(a), 0);
            let tt = trimmed(t);
            if af.len() > 0 && tt.len() > 0 {
                Some(
                    af + " - "@ + tt + match group(c, 3) {
                        Some(r) => r,
                        None => Seq::empty(),
                    },
                )
            } else {
                None
            }
        },
        _ => None,
    }
}

/// "Artist - Title" read from a track text (see `artist_title_of`).
pub fn extract_artist_title_with_remix(track: &str) -> (r: Option<String>)
    ensures
        match artist_title_of(track@) {
            Some(t) => r matches Some(s) && s@ == t,
            None => r is None,
        },
{
    let c = captures(
        "([A-Za-z0-9\\s&,.]+)\\s+-\\s+([A-Za-z0-9\\s',.]+)(\\s+\\([A-Za-z0-9\\s',.]+(?:Remix|Mix|Dub|Edit)[A-Za-z0-9\\s',.]*\\))?",
        track,
    );
    let a = take_group(c.clone(), 1);
    let t = take_group(c.clone(), 2);
    let remix = take_group(c, 3);
    match (a, t) {
        (Some(a), Some(t)) => {
            let at = trim_text(a.as_str());
            let af = fix_artist_names(at.as_str());
            let tt = trim_text(t.as_str());
            if af.unicode_len() > 0 && tt.unicode_len() > 0 {
                let base = af.concat(" - ").concat(tt.as_str());
                match remix {
                    Some(r) => Some(base.concat(r.as_str())),
                    None => {
                        assert(base@ + Seq::<char>::empty() =~= base@);
                        Some(base)
                    },
                }
            } else {
                None
            }
        },
        _ => None,
    }
}

/// Whether a character is whitespace, as `char::is_whitespace` says.
pub uninterp spec fn space_char(c: char) -> bool;

/// Relies on `char::is_whitespace`.
#[verifier::external_body]
fn is_space(c: char) -> (r: bool)
    ensures
        r == space_char(c),
{
    c.is_whitespace()
}

/// `s` with each run of whitespace written as one space, from position `i`
/// on, given whether the character before was whitespace.
pub open spec fn squeeze_from(s: Seq<char>, i: int, after_space: bool) -> Seq<char>
    decreases s.len() - i,
{
    if i < 0 || i >= s.len() {
        Seq::empty()
    } else if space_char(s[i]) {
        if after_space {
            squeeze_from(s, i + 1, true)
        } else {
            seq![' '] + squeeze_from(s, i + 1, true)
        }
    } else {
        seq![s[i]] + squeeze_from(s, i + 1, false)
    }
}

/// `s` with each run of whitespace written as one space.
pub fn squeeze_spaces(s: &str) -> (r: String)
    ensures
        r@ == squeeze_from(s@, 0, false),
{
    let n = s.unicode_len();
    let mut out = String::new();
    let mut after_space = false;
    let mut i: usize = 0;
    proof {
        reveal_strlit(" ");
    }
    assert(out@ + squeeze_from(s@, 0, false) =~= squeeze_from(s@, 0, false));
    while i < n
        invariant
            n == s@.len(),
            i <= n,
            out@ + squeeze_from(s@, i as int, after_space) == squeeze_from(s@, 0, false),
        decreases n - i,
    {
        let c = s.get_char(i);
        let ghost before = out@;
        if is_space(c) {
            if !after_space {
                out.append(" ");
                proof {
                    reveal_strlit(" ");
                }
                assert(out@ + squeeze_from(s@, i + 1, true) =~= before + squeeze_from(s@, i as int, after_space));
            }
            after_space = true;
        } else {
            out.append(s.substring_char(i, i + 1));
            assert(s@.subrange(i as int, i + 1) =~= seq![c]);
            assert(out@ + squeeze_from(s@, i + 1, false) =~= before + squeeze_from(s@, i as int, after_space));
            after_space = false;
        }
        i = i + 1;
    }
    assert(out@ + squeeze_from(s@, i as int, after_space) =~= out@);
    out
}

/// A timestamp, maybe after a track number, at the start of a text.
pub open spec fn leading_time_pattern() -> Seq<char> {
    "^\\s*(?:\\d+[\\.\\):]?\\s*)?\\d{1,2}:\\d{2}(?::\\d{2})?\\s+"@
}

/// The first two parts of `s` around " - ", where it holds one.
pub open spec fn dash_parts(s: Seq<char>) -> Option<(Seq<char>, Seq<char>)> {
    match first_at(s, " - "@, 0) {
        Some(p) => {
            let rest = s.subrange(p + 3, s.len() as int);
            let q = match first_at(rest, " - "@, 0) {
                Some(q) => q,
                None => rest.len() as int,
            };
            Some((s.subrange(0, p), rest.subrange(0, q)))
        },
        None => None,
    }
}

fn dash_parts_exec(s: &str) -> (r: Option<(String, String)>)
    ensures
        match dash_parts(s@) {
            Some((a, b)) => r matches Some((x, y)) && x@ == a && y@ == b,
            None => r is None,
        },
{
    proof {
        reveal_strlit(" - ");
    }
    let cs = to_chars(s);
    let n = cs.len();
    let sep = to_chars(" - ");
    match find_chars(&cs, &sep) {
        None => None,
        Some(p) => {
            proof {
                lemma_first_at_occurs(s@, " - "@, 0);
                assert(occurs_at(s@, " - "@, p as int));
            }
            let rest = substring(s, p + 3, n);
            let rc = to_chars(rest.as_str());
            let q = match find_chars(&rc, &sep) {
                Some(q) => {
                    proof {
                        lemma_first_at_occurs(rest@, " - "@, 0);
                    }
                    q
                },
                None => rc.len(),
            };
            Some((substring(s, 0, p), substring(rest.as_str(), 0, q)))
        },
    }
}

/// A track text cleaned up: "Artist - Title" where the pattern reads it;
/// otherwise timestamps, a few HTML entities, social handles and bracketed
/// parts are removed (a remix part is kept and put back at the end), and the
/// result is "Artist - Title" where it holds " - " with both sides filled,
/// else the text with whitespace runs squeezed.
pub open spec fn cleaned_track(track: Seq<char>) -> Seq<char> {
    match artist_title_of(track) {
        Some(c) => c,
        None => {
            let a = regex_replaced(leading_time_pattern(), track, ""@);
            let b = regex_replaced("\\s+\\d{1,2}:\\d{2}(?::\\d{2})?\\s+"@, a, " "@);
            let c = replaced(
                replaced(replaced(replaced(b, "u0026"@, "&"@), "&amp;"@, "&"@), "&#39;"@, "'"@),
                "&quot;"@,
                "\""@,
            );
            let d = regex_replaced("@\\w+|\\(@\\w+\\)|ÔÇ¬ÔÇ¼X?|X$|X\\s*$"@, c, ""@);
            let remix = match group(regex_captures("\\(([^)]*(?:Remix|Mix|Dub|Edit)[^)]*)\\)"@, d), 1) {
                Some(g) => " ("@ + g + ")"@,
                None => Seq::empty(),
            };
            let e = regex_replaced("\\([^)]*\\)"@, d, ""@);
            let f = replaced(replaced(e, "├©"@, "ø"@), "Sc├©tt"@, "Scott"@);
            match dash_parts(f) {
                Some((x, y)) if regex_replaced(leading_time_pattern(), trimmed(x), ""@).len() > 0
                    && trimmed(y).len() > 0 => regex_replaced(leading_time_pattern(), trimmed(x), ""@)
                    + " - "@ + trimmed(y) + remix,
                _ => squeeze_from(trimmed(f), 0, false) + remix,
            }
        },
    }
}

/// A track text cleaned up (see `cleaned_track`).
pub fn clean_track_text(track: &str) -> (r: String)
    ensures
        r@ == cleaned_track(track@),
{
    match extract_artist_title_with_remix(track) {
        Some(c) => return c,
        None => {},
    }
    proof {
        reveal_strlit("u0026");
        reveal_strlit("&amp;");
        reveal_strlit("&#39;");
        reveal_strlit("&quot;");
        reveal_strlit("├©");
        reveal_strlit("Sc├©tt");
    }
    let a = replace_all("^\\s*(?:\\d+[\\.\\):]?\\s*)?\\d{1,2}:\\d{2}(?::\\d{2})?\\s+", track, "");
    let b = replace_all("\\s+\\d{1,2}:\\d{2}(?::\\d{2})?\\s+", a.as_str(), " ");
    let c = replace_text(b.as_str(), "u0026", "&");
    let c = replace_text(c.as_str(), "&amp;", "&");
    let c = replace_text(c.as_str(), "&#39;", "'");
    let c = replace_text(c.as_str(), "&quot;", "\"");
    let d = replace_all("@\\w+|\\(@\\w+\\)|ÔÇ¬ÔÇ¼X?|X$|X\\s*$", c.as_str(), "");
    let remix = match take_group(captures("\\(([^)]*(?:Remix|Mix|Dub|Edit)[^)]*)\\)", d.as_str()), 1) {
        Some(g) => String::from_str(" (").concat(g.as_str()).concat(")"),
        None => String::new(),
    };
    let e = replace_all("\\([^)]*\\)", d.as_str(), "");
    let f = replace_text(e.as_str(), "├©", "ø");
    let f = replace_text(f.as_str(), "Sc├©tt", "Scott");
    match dash_parts_exec(f.as_str()) {
        Some((x, y)) => {
            let xt = trim_text(x.as_str());
            let artist = replace_all("^\\s*(?:\\d+[\\.\\):]?\\s*)?\\d{1,2}:\\d{2}(?::\\d{2})?\\s+", xt.as_str(), "");
            let title = trim_text(y.as_str());
            if artist.unicode_len() > 0 && title.unicode_len() > 0 {
                return artist.concat(" - ").concat(title.as_str()).concat(remix.as_str());
            }
        },
        None => {},
    }
    let ft = trim_text(f.as_str());
    squeeze_spaces(ft.as_str()).concat(remix.as_str())
}


/// The tracks and the set of seen tracks after reading lines from `i` on:
/// a trimmed line of at least five bytes that looks like a track entry is
/// cleaned up and added, unless it was seen before.
pub open spec fn line_entries(
    lines: Seq<Seq<char>>,
    i: int,
    tracks: Seq<Seq<char>>,
    seen: Seq<Seq<char>>,
) -> (Seq<Seq<char>>, Seq<Seq<char>>)
    decreases lines.len() - i,
{
    if i < 0 || i >= lines.len() {
        (tracks, seen)
    } else {
        let t = trimmed(lines[i]);
        if t.len() == 0 || (encode_utf8(t).len() as usize) < 5 || !track_entry(t) {
            line_entries(lines, i + 1, tracks, seen)
        } else {
            let c = cleaned_track(t);
            if seen.contains(c) {
                line_entries(lines, i + 1, tracks, seen)
            } else {
                line_entries(lines, i + 1, tracks.push(c), seen.push(c))
            }
        }
    }
}

pub(crate) fn has_text(list: &Vec<String>, s: &String) -> (r: bool)
    ensures
        r == texts(list@).contains(s@),
{
    let mut i: usize = 0;
    while i < list.len()
        invariant
            i <= list@.len(),
            forall|k: int| 0 <= k < i ==> list@[k]@ != s@,
        decreases list.len() - i,
    {
        if list[i] == *s {
            assert(texts(list@)[i as int] == s@);
            return true;
        }
        i = i + 1;
    }
    assert forall|k: int| 0 <= k < texts(list@).len() implies texts(list@)[k] != s@ by {}
    false
}

/// Adds the track entries of `text`, line by line, to `tracks`, keeping
/// `seen_tracks` as the set of tracks seen (see `line_entries`).
pub fn extract_tracks_line_by_line(text: &str, tracks: &mut Vec<String>, seen_tracks: &mut Vec<String>)
    ensures
        (texts(final(tracks)@), texts(final(seen_tracks)@)) == line_entries(
            lines_of(text@),
            0,
            texts(old(tracks)@),
            texts(old(seen_tracks)@),
        ),
{
    let lines = text_lines(text);
    let ghost lv = texts(lines@);
    let mut i: usize = 0;
    while i < lines.len()
        invariant
            lv == texts(lines@),
            lv == lines_of(text@),
            i <= lines@.len(),
            line_entries(lv, 0, texts(old(tracks)@), texts(old(seen_tracks)@)) == line_entries(
                lv,
                i as int,
                texts(tracks@),
                texts(seen_tracks@),
            ),
        decreases lines.len() - i,
    {
        let t = trim_text(lines[i].as_str());
        assert(lv[i as int] == lines@[i as int]@);
        if t.unicode_len() == 0 || t.as_str().len() < 5 || !looks_like_track_entry(t.as_str()) {
        } else {
            let c = clean_track_text(t.as_str());
            if !has_text(seen_tracks, &c) {
                let ghost bt = texts(tracks@);
                let ghost bs = texts(seen_tracks@);
                seen_tracks.push(String::from_str(c.as_str()));
                tracks.push(c);
                assert(texts(tracks@) =~= bt.push(cleaned_track(t@)));
                assert(texts(seen_tracks@) =~= bs.push(cleaned_track(t@)));
            }
        }
        i = i + 1;
    }
}

} // verus!
