use vstd::prelude::*;
use crate::patterns::{captures, regex_captures};
use crate::songdownloader::{has, QueryError, UrlInfo, Video};
use crate::patterns::{all_group_texts, captures_all, regex_all_captures, group_texts};
use crate::text::{
    first_at, has_substring, lemma_first_at_occurs, lower_of, lowercase, occurs_at, replace_text, replaced, split_by, split_on, str_contains,
    substring, texts, to_chars, find_chars,
};
use crate::tracklist::{clean_track_text, cleaned_track, group, take_group};

verus! {

/// Which page reader a URL goes to.
pub open spec fn url_platform(url: &str) -> Result<Seq<char>, QueryError> {
    if has(url, "youtube.com") || has(url, "youtu.be") {
        Ok("youtube"@)
    } else if has(url, "spotify.com") {
        Ok("spotify"@)
    } else if has(url, "soundcloud.com") {
        Ok("soundcloud"@)
    } else {
        Err(QueryError::UnsupportedPlatform)
    }
}

/// Which page reader a URL goes to (see `url_platform`).
pub fn get_url_info(url: &str) -> (r: Result<&'static str, QueryError>)
    ensures
        match url_platform(url) {
            Ok(p) => r matches Ok(x) && x@ == p,
            Err(e) => r == Err::<&'static str, QueryError>(e),
        },
{
    if str_contains(url, "youtube.com") || str_contains(url, "youtu.be") {
        Ok("youtube")
    } else if str_contains(url, "spotify.com") {
        Ok("spotify")
    } else if str_contains(url, "soundcloud.com") {
        Ok("soundcloud")
    } else {
        Err(QueryError::UnsupportedPlatform)
    }
}

/// The kind of a Spotify page, by the path part its URL holds.
pub open spec fn spotify_kind(url: &str) -> Seq<char> {
    if has(url, "/track/") {
        "Track"@
    } else if has(url, "/album/") {
        "Album"@
    } else if has(url, "/playlist/") {
        "Playlist"@
    } else if has(url, "/artist/") {
        "Artist"@
    } else {
        "Content"@
    }
}

/// The description shown for a kind of page.
pub open spec fn kind_description(kind: Seq<char>) -> Option<Seq<char>> {
    if kind == "Track"@ {
        Some("Downloading single track"@)
    } else if kind == "Album"@ {
        Some("Downloading all tracks from this album"@)
    } else if kind == "Playlist"@ {
        Some("Downloading all tracks from this playlist"@)
    } else if kind == "Artist"@ {
        Some("Downloading tracks from this artist"@)
    } else {
        None
    }
}

fn kind_description_exec(kind: &str) -> (r: Option<String>)
    ensures
        match kind_description(kind@) {
            Some(d) => r matches Some(x) && x@ == d,
            None => r is None,
        },
{
    if crate::text::str_eq(kind, "Track") {
        Some(String::from_str("Downloading single track"))
    } else if crate::text::str_eq(kind, "Album") {
        Some(String::from_str("Downloading all tracks from this album"))
    } else if crate::text::str_eq(kind, "Playlist") {
        Some(String::from_str("Downloading all tracks from this playlist"))
    } else if crate::text::str_eq(kind, "Artist") {
        Some(String::from_str("Downloading tracks from this artist"))
    } else {
        None
    }
}

/// The page title, or "Unknown Title" where the page has none.
pub open spec fn title_or_unknown(t: Option<String>) -> Seq<char> {
    match t {
        Some(x) => x@,
        None => "Unknown Title"@,
    }
}

fn title_or_unknown_exec(t: Option<String>) -> (r: String)
    ensures
        r@ == title_or_unknown(t),
{
    match t {
        Some(x) => x,
        None => String::from_str("Unknown Title"),
    }
}

/// What a Spotify page tells, given the text of its `<title>` element:
/// its kind, its title without " - Spotify", and what will be downloaded.
pub fn spotify_page_info(url: &str, page_title: Option<String>) -> (r: UrlInfo)
    ensures
        r.wf(),
        r.platform@ == "spotify"@,
        r.content_type@ == spotify_kind(url),
        r.title@ == replaced(title_or_unknown(page_title), " - Spotify"@, ""@),
        match kind_description(spotify_kind(url)) {
            Some(d) => r.description matches Some(x) && x@ == d,
            None => r.description is None,
        },
        r.videos is None,
        r.video_tracklists is None,
        r.url@.len() == 0,
{
    let kind = if str_contains(url, "/track/") {
        "Track"
    } else if str_contains(url, "/album/") {
        "Album"
    } else if str_contains(url, "/playlist/") {
        "Playlist"
    } else if str_contains(url, "/artist/") {
        "Artist"
    } else {
        "Content"
    };
    proof {
        reveal_strlit(" - Spotify");
    }
    let title = replace_text(title_or_unknown_exec(page_title).as_str(), " - Spotify", "");
    UrlInfo::new("spotify", kind, title.as_str(), kind_description_exec(kind))
}

/// The number of non-empty parts of a URL between slashes.
pub open spec fn nonempty_count(parts: Seq<Seq<char>>) -> nat
    decreases parts.len(),
{
    if parts.len() == 0 {
        0
    } else {
        nonempty_count(parts.drop_last()) + if parts.last().len() > 0 {
            1nat
        } else {
            0nat
        }
    }
}

/// The kind of a SoundCloud page: an artist where the URL has at most three
/// non-empty parts between slashes, a playlist where it holds "/sets/", else a track.
pub open spec fn soundcloud_kind(url: &str) -> Seq<char> {
    if nonempty_count(split_on(url@, '/')) <= 3 {
        "Artist"@
    } else if has(url, "/sets/") {
        "Playlist"@
    } else {
        "Track"@
    }
}

fn count_nonempty(parts: &Vec<String>) -> (r: usize)
    ensures
        r == nonempty_count(texts(parts@)),
{
    let mut n: usize = 0;
    let mut i: usize = 0;
    while i < parts.len()
        invariant
            i <= parts@.len(),
            n <= i,
            n == nonempty_count(texts(parts@).subrange(0, i as int)),
        decreases parts.len() - i,
    {
        proof {
            let pre = texts(parts@).subrange(0, i as int + 1);
            assert(pre.drop_last() =~= texts(parts@).subrange(0, i as int));
        }
        if parts[i].unicode_len() > 0 {
            n = n + 1;
        }
        i = i + 1;
    }
    assert(texts(parts@).subrange(0, i as int) =~= texts(parts@));
    n
}

/// What a SoundCloud page tells, given the text of its `<title>` element:
/// its kind, its title without the site's suffix, and what will be downloaded.
pub fn soundcloud_page_info(url: &str, page_title: Option<String>) -> (r: UrlInfo)
    ensures
        r.wf(),
        r.platform@ == "soundcloud"@,
        r.content_type@ == soundcloud_kind(url),
        r.title@ == replaced(title_or_unknown(page_title), " | Free Listening on SoundCloud"@, ""@),
        match kind_description(soundcloud_kind(url)) {
            Some(d) => r.description matches Some(x) && x@ == d,
            None => r.description is None,
        },
        r.videos is None,
        r.video_tracklists is None,
        r.url@.len() == 0,
{
    let parts = split_by(url, '/');
    let kind = if count_nonempty(&parts) <= 3 {
        "Artist"
    } else if str_contains(url, "/sets/") {
        "Playlist"
    } else {
        "Track"
    };
    proof {
        reveal_strlit(" | Free Listening on SoundCloud");
    }
    let title = replace_text(title_or_unknown_exec(page_title).as_str(), " | Free Listening on SoundCloud", "");
    UrlInfo::new("soundcloud", kind, title.as_str(), kind_description_exec(kind))
}

/// The kind of a YouTube URL.
pub open spec fn youtube_kind(url: &str) -> Seq<char> {
    if has(url, "/@") {
        "Channel"@
    } else if has(url, "/watch?v=") {
        "Video"@
    } else if has(url, "/playlist?list=") {
        "Playlist"@
    } else {
        "Content"@
    }
}

/// The kind of a YouTube URL (see `youtube_kind`).
pub fn youtube_content_type(url: &str) -> (r: &'static str)
    ensures
        r@ == youtube_kind(url),
{
    if str_contains(url, "/@") {
        "Channel"
    } else if str_contains(url, "/watch?v=") {
        "Video"
    } else if str_contains(url, "/playlist?list=") {
        "Playlist"
    } else {
        "Content"
    }
}

/// `s` without trailing slashes.
pub open spec fn strip_slashes(s: Seq<char>) -> Seq<char>
    decreases s.len(),
{
    if s.len() > 0 && s.last() == '/' {
        strip_slashes(s.drop_last())
    } else {
        s
    }
}

pub open spec fn ends_with(s: Seq<char>, t: Seq<char>) -> bool {
    t.len() <= s.len() && s.subrange(s.len() - t.len(), s.len() as int) == t
}

/// The videos tab of a channel URL: the URL itself where it ends with
/// "/videos", else the URL without trailing slashes followed by "/videos".
pub open spec fn videos_page(url: Seq<char>) -> Seq<char> {
    if ends_with(url, "/videos"@) {
        url
    } else {
        strip_slashes(url) + "/videos"@
    }
}

/// The videos tab of a channel URL (see `videos_page`).
pub fn channel_videos_url(url: &str) -> (r: String)
    ensures
        r@ == videos_page(url@),
{
    let uc = to_chars(url);
    let n = uc.len();
    if ends_with_exec(&uc, "/videos") {
        return String::from_str(url);
    }
    let mut e: usize = n;
    assert(url@.subrange(0, n as int) =~= url@);
    while e > 0 && uc[e - 1] == '/'
        invariant
            n == url@.len(),
            uc@ == url@,
            e <= n,
            strip_slashes(url@) == strip_slashes(url@.subrange(0, e as int)),
        decreases e,
    {
        proof {
            let pre = url@.subrange(0, e as int);
            assert(pre.drop_last() =~= url@.subrange(0, e - 1));
        }
        e = e - 1;
    }
    proof {
        let pre = url@.subrange(0, e as int);
        if e > 0 {
            assert(pre.last() == url@[e - 1]);
        }
        assert(strip_slashes(pre) == pre);
    }
    substring(url, 0, e).concat("/videos")
}

/// The channel handle and the page to fetch for a channel URL: the handle is
/// the text after the first "/@" up to the next '/'; the page is the
/// channel's videos tab. `None` where the URL holds no "/@".
pub open spec fn channel_of(url: Seq<char>) -> Option<(Seq<char>, Seq<char>)> {
    match first_at(url, "/@"@, 0) {
        Some(p) => {
            let rest = url.subrange(p + 2, url.len() as int);
            let name = match first_at(rest, "/"@, 0) {
                Some(q) => rest.subrange(0, q),
                None => rest,
            };
            Some((name, videos_page(url)))
        },
        None => None,
    }
}

fn ends_with_exec(s: &Vec<char>, t: &str) -> (r: bool)
    ensures
        r == ends_with(s@, t@),
{
    let tc = to_chars(t);
    if tc.len() > s.len() {
        return false;
    }
    let n = s.len();
    let off = n - tc.len();
    let mut i: usize = 0;
    while i < tc.len()
        invariant
            n == s@.len(),
            tc@ == t@,
            off + tc@.len() == s@.len(),
            i <= tc@.len(),
            forall|k: int| 0 <= k < i ==> s@[off + k] == tc@[k],
        decreases tc.len() - i,
    {
        if s[off + i] != tc[i] {
            assert(s@.subrange(off as int, s@.len() as int)[i as int] != t@[i as int]);
            return false;
        }
        i = i + 1;
    }
    assert(s@.subrange(off as int, s@.len() as int) =~= t@);
    true
}

/// The channel handle and the page to fetch (see `channel_of`).
pub fn channel_target(url: &str) -> (r: Option<(String, String)>)
    ensures
        match channel_of(url@) {
            Some((name, page)) => r matches Some((a, b)) && a@ == name && b@ == page,
            None => r is None,
        },
{
    let uc = to_chars(url);
    let n = uc.len();
    let at = to_chars("/@");
    match find_chars(&uc, &at) {
        None => None,
        Some(p) => {
            proof {
                reveal_strlit("/@");
                lemma_first_at_occurs(url@, "/@"@, 0);
                assert(occurs_at(url@, "/@"@, p as int));
            }
            let rest = substring(url, p + 2, n);
            let rc = to_chars(rest.as_str());
            let slash = to_chars("/");
            let name = match find_chars(&rc, &slash) {
                Some(q) => {
                    proof {
                        lemma_first_at_occurs(rest@, "/"@, 0);
                    }
                    substring(rest.as_str(), 0, q)
                },
                None => rest,
            };
            let page = channel_videos_url(url);
            Some((name, page))
        },
    }
}


/// The value of a run of decimal digits.
pub open spec fn digits_value(s: Seq<char>) -> int
    decreases s.len(),
{
    if s.len() == 0 {
        0
    } else {
        digits_value(s.drop_last()) * 10 + (s.last() as int - '0' as int)
    }
}

pub open spec fn all_digits(s: Seq<char>) -> bool {
    forall|i: int| 0 <= i < s.len() ==> '0' <= #[trigger] s[i] && s[i] <= '9'
}

/// The number a text holds as `u32::from_str` reads it: an optional '+',
/// then at least one ASCII digit, the value fitting in 32 bits.
pub open spec fn u32_of(s: Seq<char>) -> Option<u32> {
    let d = if s.len() > 0 && s[0] == '+' {
        s.drop_first()
    } else {
        s
    };
    if d.len() > 0 && all_digits(d) && digits_value(d) <= u32::MAX {
        Some(digits_value(d) as u32)
    } else {
        None
    }
}

proof fn lemma_digits_value_grows(s: Seq<char>)
    requires
        all_digits(s),
    ensures
        digits_value(s) >= 0,
        forall|k: int| 0 <= k <= s.len() ==> digits_value(#[trigger] s.subrange(0, k)) <= digits_value(s),
    decreases s.len(),
{
    if s.len() > 0 {
        let p = s.drop_last();
        assert(all_digits(p)) by {
            assert forall|i: int| 0 <= i < p.len() implies '0' <= #[trigger] p[i] && p[i] <= '9' by {
                assert(p[i] == s[i]);
            }
        }
        lemma_digits_value_grows(p);
        assert forall|k: int| 0 <= k <= s.len() implies digits_value(#[trigger] s.subrange(0, k)) <= digits_value(s) by {
            if k < s.len() {
                assert(s.subrange(0, k) =~= p.subrange(0, k));
            } else {
                assert(s.subrange(0, k) =~= s);
            }
        }
    }
}

/// The number a text holds (see `u32_of`).
pub fn parse_u32(s: &str) -> (r: Option<u32>)
    ensures
        r == u32_of(s@),
{
    let n = s.unicode_len();
    let mut start: usize = 0;
    if n > 0 && s.get_char(0) == '+' {
        start = 1;
    }
    let ghost d = if s@.len() > 0 && s@[0] == '+' {
        s@.drop_first()
    } else {
        s@
    };
    assert(d =~= s@.subrange(start as int, n as int));
    if start == n {
        return None;
    }
    let mut v: u64 = 0;
    let mut i: usize = start;
    assert(s@.subrange(start as int, start as int) =~= Seq::<char>::empty());
    while i < n
        invariant
            n == s@.len(),
            start < n,
            d == s@.subrange(start as int, n as int),
            d == (if s@.len() > 0 && s@[0] == '+' {
                s@.drop_first()
            } else {
                s@
            }),
            start <= i <= n,
            all_digits(s@.subrange(start as int, i as int)),
            v as int == digits_value(s@.subrange(start as int, i as int)),
            v <= u32::MAX,
        decreases n - i,
    {
        let c = s.get_char(i);
        let pre = Ghost(s@.subrange(start as int, i + 1));
        proof {
            assert(pre@.drop_last() =~= s@.subrange(start as int, i as int));
            assert(pre@.last() == c);
        }
        if !('0' <= c && c <= '9') {
            proof {
                assert(d[i - start] == c);
                assert(!('0' <= d[i - start] && d[i - start] <= '9'));
            }
            return None;
        }
        let next = v * 10 + (c as u64 - '0' as u64);
        assert(next as int == digits_value(pre@));
        if next > u32::MAX as u64 {
            proof {
                if all_digits(d) {
                    lemma_digits_value_grows(d);
                    assert(d.subrange(0, i + 1 - start) =~= pre@);
                }
            }
            return None;
        }
        v = next;
        i = i + 1;
        proof {
            assert forall|k: int| 0 <= k < pre@.len() implies '0' <= #[trigger] pre@[k] && pre@[k] <= '9' by {
                if k < pre@.len() - 1 {
                    assert(pre@[k] == s@.subrange(start as int, i - 1)[k]);
                }
            }
        }
    }
    Some(v as u32)
}


/// The video-count patterns, in the order they are tried.
pub open spec fn count_pattern(k: int) -> Seq<char> {
    if k == 0 {
        "(\\d+) videos"@
    } else if k == 1 {
        "(\\d+) video"@
    } else if k == 2 {
        "videoCount\":\"(\\d+)"@
    } else {
        "videosCountText\":{\"runs\":\\[{\"text\":\"(\\d+)\"}\\]}"@
    }
}

fn count_pattern_exec(k: usize) -> (r: &'static str)
    requires
        k < 4,
    ensures
        r@ == count_pattern(k as int),
{
    if k == 0 {
        "(\\d+) videos"
    } else if k == 1 {
        "(\\d+) video"
    } else if k == 2 {
        "videoCount\":\"(\\d+)"
    } else {
        "videosCountText\":{\"runs\":\\[{\"text\":\"(\\d+)\"}\\]}"
    }
}

/// The video count of a channel page from pattern `k` on: the number in the
/// first pattern that matches with a number that fits; 0 where none does.
pub open spec fn video_count_from(html: Seq<char>, k: int) -> u32
    decreases 4 - k,
{
    if k < 0 || k >= 4 {
        0
    } else {
        match group(regex_captures(count_pattern(k), html), 1) {
            Some(g) => match u32_of(g) {
                Some(v) => v,
                None => video_count_from(html, k + 1),
            },
            None => video_count_from(html, k + 1),
        }
    }
}

/// The video count of a channel page (see `video_count_from`).
pub fn extract_video_count_from_html(html: &str) -> (r: u32)
    ensures
        r == video_count_from(html@, 0),
{
    let mut k: usize = 0;
    while k < 4
        invariant
            k <= 4,
            video_count_from(html@, 0) == video_count_from(html@, k as int),
        decreases 4 - k,
    {
        match take_group(captures(count_pattern_exec(k), html), 1) {
            Some(g) => match parse_u32(g.as_str()) {
                Some(v) => return v,
                None => {},
            },
            None => {},
        }
        k = k + 1;
    }
    0
}

/// The description patterns, in the order they are tried.
pub open spec fn description_pattern(k: int) -> Seq<char> {
    if k == 0 {
        "\"description\":\\s*\"([^\"]+)"@
    } else if k == 1 {
        "\"shortDescription\":\\s*\"([^\"]+)"@
    } else if k == 2 {
        "<meta name=\"description\" content=\"([^\"]+)"@
    } else if k == 3 {
        "<div id=\"description-inner\"[^>]*>(.*?)<div id=\"info-container"@
    } else {
        "<yt-attributed-string[^>]*>(.*?)</yt-attributed-string>"@
    }
}

fn description_pattern_exec(k: usize) -> (r: &'static str)
    requires
        k < 5,
    ensures
        r@ == description_pattern(k as int),
{
    if k == 0 {
        "\"description\":\\s*\"([^\"]+)"
    } else if k == 1 {
        "\"shortDescription\":\\s*\"([^\"]+)"
    } else if k == 2 {
        "<meta name=\"description\" content=\"([^\"]+)"
    } else if k == 3 {
        "<div id=\"description-inner\"[^>]*>(.*?)<div id=\"info-container"
    } else {
        "<yt-attributed-string[^>]*>(.*?)</yt-attributed-string>"
    }
}

/// A JSON string body with its escapes for line breaks, quotes and backslashes undone.
pub open spec fn unescaped(g: Seq<char>) -> Seq<char> {
    replaced(replaced(replaced(g, "\\n"@, "\n"@), "\\\""@, "\""@), "\\\\"@, "\\"@)
}

pub open spec fn mentions_tracklist(d: Seq<char>) -> bool {
    has_substring(d, "Tracklist"@) || has_substring(d, "TRACKLIST"@) || has_substring(d, "tracklist"@)
}

/// The text of `html` from its first "Tracklist:" up to "flavourful
/// timestamps:" (or the end); else its "description-inner" element up to
/// and with the first "</div>" (or the end); else nothing.
pub open spec fn description_fallback(html: Seq<char>) -> Seq<char> {
    match first_at(html, "Tracklist:"@, 0) {
        Some(s) => {
            let rest = html.subrange(s, html.len() as int);
            match first_at(rest, "flavourful timestamps:"@, 0) {
                Some(e) => rest.subrange(0, e),
                None => rest,
            }
        },
        None => match first_at(html, "<div id=\"description-inner\""@, 0) {
            Some(s) => {
                let rest = html.subrange(s, html.len() as int);
                match first_at(rest, "</div>"@, 0) {
                    Some(e) => rest.subrange(0, e + 6),
                    None => rest,
                }
            },
            None => Seq::empty(),
        },
    }
}

/// The description of a video page from pattern `k` on: the first pattern
/// whose text, unescaped, mentions a tracklist; else the fallback.
pub open spec fn description_from(html: Seq<char>, k: int) -> Seq<char>
    decreases 5 - k,
{
    if k < 0 || k >= 5 {
        description_fallback(html)
    } else {
        match group(regex_captures(description_pattern(k), html), 1) {
            Some(g) => if mentions_tracklist(unescaped(g)) {
                unescaped(g)
            } else {
                description_from(html, k + 1)
            },
            None => description_from(html, k + 1),
        }
    }
}

/// The text of `s` from the first `from` on, cut before `until` (or kept to
/// the end), with `keep` more characters where `until` is found.
fn cut_between(s: &str, from: usize, until: &str, keep: usize) -> (r: String)
    requires
        from <= s@.len(),
        keep <= until@.len(),
    ensures
        ({
            let rest = s@.subrange(from as int, s@.len() as int);
            r@ == match first_at(rest, until@, 0) {
                Some(e) => rest.subrange(0, e + keep),
                None => rest,
            }
        }),
{
    let n = s.unicode_len();
    let rest = substring(s, from, n);
    let rc = to_chars(rest.as_str());
    let uc = to_chars(until);
    match find_chars(&rc, &uc) {
        Some(e) => {
            proof {
                lemma_first_at_occurs(rest@, until@, 0);
                assert(occurs_at(rest@, until@, e as int));
            }
            substring(rest.as_str(), 0, e + keep)
        },
        None => rest,
    }
}

/// The description of a video page (see `description_from`).
pub fn extract_description_from_html(html: &str) -> (r: String)
    ensures
        r@ == description_from(html@, 0),
{
    proof {
        reveal_strlit("\\n");
        reveal_strlit("\\\"");
        reveal_strlit("\\\\");
        reveal_strlit("</div>");
    }
    let mut k: usize = 0;
    while k < 5
        invariant
            k <= 5,
            "\\n"@.len() > 0 && "\\\""@.len() > 0 && "\\\\"@.len() > 0,
            "</div>"@.len() == 6,
            description_from(html@, 0) == description_from(html@, k as int),
        decreases 5 - k,
    {
        match take_group(captures(description_pattern_exec(k), html), 1) {
            Some(g) => {
                let d = replace_text(g.as_str(), "\\n", "\n");
                let d = replace_text(d.as_str(), "\\\"", "\"");
                let d = replace_text(d.as_str(), "\\\\", "\\");
                if str_contains(d.as_str(), "Tracklist") || str_contains(d.as_str(), "TRACKLIST") || str_contains(
                    d.as_str(),
                    "tracklist",
                ) {
                    return d;
                }
            },
            None => {},
        }
        k = k + 1;
    }
    let hc = to_chars(html);
    let n = hc.len();
    match find_chars(&hc, &to_chars("Tracklist:")) {
        Some(s) => {
            proof {
                lemma_first_at_occurs(html@, "Tracklist:"@, 0);
            }
            return cut_between(html, s, "flavourful timestamps:", 0);
        },
        None => {},
    }
    match find_chars(&hc, &to_chars("<div id=\"description-inner\"")) {
        Some(s) => {
            proof {
                lemma_first_at_occurs(html@, "<div id=\"description-inner\""@, 0);
            }
            cut_between(html, s, "</div>", 6)
        },
        None => String::new(),
    }
}


/// The videos to keep from a channel or playlist: each link whose page could
/// be read (`Some` title and tracklist) and has a non-empty tracklist, in order.
pub open spec fn kept_videos(links: Seq<String>, pages: Seq<Option<(String, Vec<String>)>>, n: int) -> Seq<(Seq<char>, Seq<char>, Seq<Seq<char>>)>
    decreases n,
{
    if n <= 0 || n > links.len() || n > pages.len() {
        Seq::empty()
    } else {
        let prev = kept_videos(links, pages, n - 1);
        match pages[n - 1] {
            Some((title, list)) => if list@.len() > 0 {
                prev.push((title@, links[n - 1]@, texts(list@)))
            } else {
                prev
            },
            None => prev,
        }
    }
}

pub open spec fn video_texts(v: Seq<Video>) -> Seq<(Seq<char>, Seq<char>, Seq<Seq<char>>)> {
    v.map_values(|x: Video| (x.0@, x.1@, texts(x.2@)))
}

/// The videos of a channel or playlist page (see `kept_videos`); `pages[i]`
/// is what reading the page of `links[i]` gave.
pub fn collect_videos(links: &Vec<String>, pages: Vec<Option<(String, Vec<String>)>>) -> (r: Vec<Video>)
    requires
        links@.len() == pages@.len(),
    ensures
        video_texts(r@) == kept_videos(links@, pages@, pages@.len() as int),
{
    let ghost all = pages@;
    let n = pages.len();
    let mut rest = pages;
    let mut out: Vec<Video> = Vec::new();
    let mut i: usize = 0;
    assert(video_texts(out@) =~= Seq::<(Seq<char>, Seq<char>, Seq<Seq<char>>)>::empty());
    while rest.len() > 0
        invariant
            n == all.len(),
            links@.len() == n,
            i + rest@.len() == n,
            rest@ == all.subrange(i as int, n as int),
            video_texts(out@) == kept_videos(links@, all, i as int),
        decreases rest.len(),
    {
        let page = rest.remove(0);
        assert(page == all[i as int]);
        assert(rest@ =~= all.subrange(i as int + 1, n as int));
        match page {
            Some((title, list)) => {
                if list.len() > 0 {
                    let ghost before = video_texts(out@);
                    let link = String::from_str(links[i].as_str());
                    out.push((title, link, list));
                    assert(video_texts(out@) =~= before.push((title@, links@[i as int]@, texts(list@))));
                }
            },
            None => {},
        }
        i = i + 1;
    }
    out
}

/// What a YouTube channel or playlist page gives: its name as title, the
/// videos kept, and its URL.
pub fn listing_info(kind: &str, name: &str, url: &str, videos: Vec<Video>) -> (r: UrlInfo)
    ensures
        r.wf(),
        r.platform@ == "youtube"@,
        r.content_type@ == kind@,
        r.title@ == name@,
        r.description is None,
        r.video_tracklists is None,
        r.videos == Some(videos),
        r.url@ == url@,
{
    UrlInfo::new("youtube", kind, name, None).with_videos(videos).with_url(String::from_str(url))
}

/// What a YouTube video page gives: its title, its tracklist (also under its
/// title in the tracklist table), and its URL.
pub fn video_info(url: &str, title: String, tracklist: Vec<String>) -> (r: UrlInfo)
    ensures
        r.wf(),
        r.platform@ == "youtube"@,
        r.content_type@ == "video"@,
        r.title@ == title@,
        r.description is None,
        r.video_tracklists matches Some(t) && t@.len() == 1 && t@[0].0@ == title@ && texts(t@[0].1@) == texts(tracklist@),
        r.videos matches Some(v) && v@.len() == 1 && v@[0].0@ == title@ && v@[0].1@ == url@ && texts(v@[0].2@) == texts(tracklist@),
        r.url@ == url@,
{
    let info = UrlInfo::new("youtube", "video", title.as_str(), None);
    let copy = copy_texts(&tracklist);
    let info = info.add_tracklist(String::from_str(title.as_str()), copy);
    let mut videos: Vec<Video> = Vec::new();
    videos.push((title, String::from_str(url), tracklist));
    info.with_videos(videos).with_url(String::from_str(url))
}

/// A copy of a list of texts.
pub fn copy_texts(v: &Vec<String>) -> (r: Vec<String>)
    ensures
        texts(r@) == texts(v@),
{
    let mut r: Vec<String> = Vec::new();
    let mut i: usize = 0;
    while i < v.len()
        invariant
            i <= v@.len(),
            texts(r@) == texts(v@).subrange(0, i as int),
        decreases v.len() - i,
    {
        let ghost before = texts(r@);
        r.push(String::from_str(v[i].as_str()));
        assert(texts(v@)[i as int] == v@[i as int]@);
        assert(texts(r@) =~= before.push(v@[i as int]@));
        assert(texts(r@) =~= texts(v@).subrange(0, i + 1));
        i = i + 1;
    }
    assert(texts(v@).subrange(0, i as int) =~= texts(v@));
    r
}

/// The videos listed in embedded page data, from the first script (of the
/// first `n`) that mentions video renderers and yields any: its titles and
/// video ids, paired in order as far as both go.
pub open spec fn script_videos(scripts: Seq<String>, n: int) -> Seq<(Seq<char>, Seq<char>)>
    decreases n,
{
    if n <= 0 || n > scripts.len() {
        Seq::empty()
    } else {
        let prev = script_videos(scripts, n - 1);
        if prev.len() > 0 {
            prev
        } else {
            let c = scripts[n - 1]@;
            if has_substring(c, "videoRenderer"@) || has_substring(c, "gridVideoRenderer"@) {
                pair_up(
                    firsts(regex_all_captures("\"title\":\\s*\\{\\s*\"runs\":\\s*\\[\\s*\\{\\s*\"text\":\\s*\"([^\"]+)"@, c)),
                    firsts(regex_all_captures("\"videoId\":\\s*\"([^\"]+)"@, c)),
                )
            } else {
                prev
            }
        }
    }
}

/// Group 1 of each match that has it.
pub open spec fn firsts(caps: Seq<Seq<Option<Seq<char>>>>) -> Seq<Seq<char>>
    decreases caps.len(),
{
    if caps.len() == 0 {
        Seq::empty()
    } else {
        let prev = firsts(caps.drop_last());
        match group(Some(caps.last()), 1) {
            Some(g) => prev.push(g),
            None => prev,
        }
    }
}

/// Titles paired with watch URLs of the ids, as far as both lists go.
pub open spec fn pair_up(titles: Seq<Seq<char>>, ids: Seq<Seq<char>>) -> Seq<(Seq<char>, Seq<char>)> {
    let n = if titles.len() < ids.len() {
        titles.len()
    } else {
        ids.len()
    };
    Seq::new(n as nat, |i: int| (titles[i], "https://www.youtube.com/watch?v="@ + ids[i]))
}

fn firsts_exec(caps: &Vec<Vec<Option<String>>>) -> (r: Vec<String>)
    ensures
        texts(r@) == firsts(all_group_texts(caps@)),
{
    let ghost cv = all_group_texts(caps@);
    let mut r: Vec<String> = Vec::new();
    let mut i: usize = 0;
    assert(cv.subrange(0, 0) =~= Seq::<Seq<Option<Seq<char>>>>::empty());
    while i < caps.len()
        invariant
            cv == all_group_texts(caps@),
            i <= caps@.len(),
            texts(r@) == firsts(cv.subrange(0, i as int)),
        decreases caps.len() - i,
    {
        proof {
            let pre = cv.subrange(0, i as int + 1);
            assert(pre.drop_last() =~= cv.subrange(0, i as int));
            assert(pre.last() == group_texts(caps@[i as int]@));
        }
        match take_group(Some(caps[i].clone()), 1) {
            Some(g) => {
                let ghost before = texts(r@);
                r.push(g);
                assert(texts(r@) =~= before.push(g@));
            },
            None => {},
        }
        i = i + 1;
    }
    assert(cv.subrange(0, i as int) =~= cv);
    r
}

pub open spec fn link_texts(v: Seq<(String, String)>) -> Seq<(Seq<char>, Seq<char>)> {
    v.map_values(|p: (String, String)| (p.0@, p.1@))
}

/// The videos listed in embedded page data (see `script_videos`).
pub fn extract_videos_from_json_data(scripts: &Vec<String>) -> (r: Vec<(String, String)>)
    ensures
        link_texts(r@) == script_videos(scripts@, scripts@.len() as int),
{
    let mut i: usize = 0;
    let mut videos: Vec<(String, String)> = Vec::new();
    assert(link_texts(videos@) =~= Seq::<(Seq<char>, Seq<char>)>::empty());
    while i < scripts.len()
        invariant
            i <= scripts@.len(),
            link_texts(videos@) == script_videos(scripts@, i as int),
            videos@.len() == 0,
        decreases scripts.len() - i,
    {
        let content = scripts[i].as_str();
        if str_contains(content, "videoRenderer") || str_contains(content, "gridVideoRenderer") {
            let titles = firsts_exec(&captures_all("\"title\":\\s*\\{\\s*\"runs\":\\s*\\[\\s*\\{\\s*\"text\":\\s*\"([^\"]+)", content));
            let ids = firsts_exec(&captures_all("\"videoId\":\\s*\"([^\"]+)", content));
            let count = if titles.len() < ids.len() {
                titles.len()
            } else {
                ids.len()
            };
            let ghost target = pair_up(texts(titles@), texts(ids@));
            let mut k: usize = 0;
            while k < count
                invariant
                    count <= titles@.len(),
                    count <= ids@.len(),
                    count == target.len(),
                    target == pair_up(texts(titles@), texts(ids@)),
                    k <= count,
                    link_texts(videos@) == target.subrange(0, k as int),
                decreases count - k,
            {
                proof {
                    reveal_strlit("https://www.youtube.com/watch?v=");
                }
                let url = String::from_str("https://www.youtube.com/watch?v=").concat(ids[k].as_str());
                let ghost before = link_texts(videos@);
                videos.push((String::from_str(titles[k].as_str()), url));
                assert(texts(titles@)[k as int] == titles@[k as int]@);
                assert(texts(ids@)[k as int] == ids@[k as int]@);
                assert(target[k as int] == (titles@[k as int]@, "https://www.youtube.com/watch?v="@ + ids@[k as int]@));
                assert(link_texts(videos@) =~= before.push(target[k as int]));
                assert(link_texts(videos@) =~= target.subrange(0, k + 1));
                k = k + 1;
            }
            assert(target.subrange(0, k as int) =~= target);
            if videos.len() > 0 {
                proof {
                    let prev = script_videos(scripts@, i as int);
                    assert(prev.len() == 0);
                    assert(scripts@[i as int]@ == content@);
                }
                let ghost upto = i + 1;
                proof {
                    lemma_script_videos_settled(scripts@, upto as int, scripts@.len() as int);
                }
                return videos;
            }
        }
        i = i + 1;
    }
    videos
}

proof fn lemma_script_videos_settled(scripts: Seq<String>, k: int, n: int)
    requires
        0 < k <= n <= scripts.len(),
        script_videos(scripts, k).len() > 0,
    ensures
        script_videos(scripts, n) == script_videos(scripts, k),
    decreases n - k,
{
    if n > k {
        lemma_script_videos_settled(scripts, k, n - 1);
    }
}


/// A title that names a mix, a set or a playlist (ignoring case).
pub open spec fn mix_title(title: Seq<char>) -> bool {
    has_substring(lower_of(title), "mix"@) || has_substring(lower_of(title), "set"@) || has_substring(
        lower_of(title),
        "playlist"@,
    )
}

/// Whether a video title names a mix, a set or a playlist (see `mix_title`).
pub fn is_mix_title(title: &str) -> (r: bool)
    ensures
        r == mix_title(title@),
{
    let low = lowercase(title);
    str_contains(low.as_str(), "mix") || str_contains(low.as_str(), "set") || str_contains(low.as_str(), "playlist")
}

/// The tracks named in the first `n` audio meta tags of a page: each
/// content holding a '-' is cleaned and kept where not empty.
pub open spec fn meta_tracks(contents: Seq<String>, n: int) -> Seq<Seq<char>>
    decreases n,
{
    if n <= 0 || n > contents.len() {
        Seq::empty()
    } else {
        let prev = meta_tracks(contents, n - 1);
        let c = contents[n - 1]@;
        if has_substring(c, "-"@) && cleaned_track(c).len() > 0 {
            prev.push(cleaned_track(c))
        } else {
            prev
        }
    }
}

/// The tracks named in the audio meta tags of a page (see `meta_tracks`).
pub fn tracks_from_meta(contents: &Vec<String>) -> (r: Vec<String>)
    ensures
        texts(r@) == meta_tracks(contents@, contents@.len() as int),
{
    let mut r: Vec<String> = Vec::new();
    let mut i: usize = 0;
    assert(texts(r@) =~= Seq::<Seq<char>>::empty());
    while i < contents.len()
        invariant
            i <= contents@.len(),
            texts(r@) == meta_tracks(contents@, i as int),
        decreases contents.len() - i,
    {
        let c = contents[i].as_str();
        if str_contains(c, "-") {
            let t = clean_track_text(c);
            if t.unicode_len() > 0 {
                let ghost before = texts(r@);
                r.push(t);
                assert(texts(r@) =~= before.push(t@));
            }
        }
        i = i + 1;
    }
    r
}

} // verus!
