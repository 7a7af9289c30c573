use vstd::prelude::*;
use crate::patterns::{all_group_texts, captures_all, group_texts, regex_all_captures};
use crate::text::{lower_of, lowercase, first_at, has_substring, lemma_first_at_occurs, occurs_at, replace_text, replaced, str_contains, str_eq, substring, texts, to_chars, find_chars, trim_text, trimmed};
use crate::tracklist::{group, has_text, take_group};

verus! {

/// The elements of the HTML document `html` that the CSS selector
/// `selector` picks, in document order, each as its text (its descendant
/// text nodes joined) and the value of its attribute `attr`; `None` where the
/// selector does not parse.
pub uninterp spec fn html_select(html: Seq<char>, selector: Seq<char>, attr: Seq<char>) -> Option<Seq<(Seq<char>, Option<Seq<char>>)>>;

pub open spec fn element_texts(v: Seq<(String, Option<String>)>) -> Seq<(Seq<char>, Option<Seq<char>>)> {
    v.map_values(
        |e: (String, Option<String>)|
            (
                e.0@,
                match e.1 {
                    Some(a) => Some(a@),
                    None => None,
                },
            ),
    )
}

/// Relies on scraper's `Html::parse_document`, `Selector::parse`,
/// `Html::select`, `ElementRef::text` and `ElementRef::attr`.
#[verifier::external_body]
fn select_elements(html: &str, selector: &str, attr: &str) -> (r: Option<Vec<(String, Option<String>)>>)
    ensures
        match r {
            Some(v) => html_select(html@, selector@, attr@) == Some(element_texts(v@)),
            None => html_select(html@, selector@, attr@) is None,
        },
{
    let sel = scraper::Selector::parse(selector).ok()?;
    let doc = scraper::Html::parse_document(html);
    Some(doc.select(&sel).map(|e| (e.text().collect::<String>(), e.attr(attr).map(|a| a.to_string()))).collect())
}

/// The first element that `selector` picks, where it parses and picks one.
pub open spec fn first_element(html: Seq<char>, selector: Seq<char>) -> Option<(Seq<char>, Option<Seq<char>>)> {
    match html_select(html, selector, ""@) {
        Some(v) => if v.len() > 0 {
            Some(v[0])
        } else {
            None
        },
        None => None,
    }
}

fn first_element_exec(html: &str, selector: &str) -> (r: Option<String>)
    ensures
        match first_element(html@, selector@) {
            Some(e) => r matches Some(t) && t@ == e.0,
            None => r is None,
        },
{
    match select_elements(html, selector, "") {
        Some(mut v) => {
            if v.len() == 0 {
                return None;
            }
            let ghost vv = v@;
            let e = v.remove(0);
            assert(element_texts(vv)[0] == (e.0@, match e.1 { Some(a) => Some(a@), None => None }));
            Some(e.0)
        },
        None => None,
    }
}

/// How a page reader finishes a text read from the `<title>` element.
#[derive(Clone, Copy, Debug, PartialEq, Eq, Structural)]
pub enum TitleRule {
    /// Leave it.
    Plain,
    /// Drop " - YouTube".
    YouTube,
    /// Keep what stands before " by ".
    BeforeBy,
    /// Keep what stands after " by ", where it holds one.
    AfterBy,
}

/// The first two parts of `s` around `sep`, where it holds one.
pub open spec fn split_two(s: Seq<char>, sep: Seq<char>) -> Option<(Seq<char>, Seq<char>)> {
    match first_at(s, sep, 0) {
        Some(p) => {
            let rest = s.subrange(p + sep.len(), s.len() as int);
            let q = match first_at(rest, sep, 0) {
                Some(q) => q,
                None => rest.len() as int,
            };
            Some((s.subrange(0, p), rest.subrange(0, q)))
        },
        None => None,
    }
}

fn split_two_exec(s: &str, sep: &str) -> (r: Option<(String, String)>)
    ensures
        match split_two(s@, sep@) {
            Some((a, b)) => r matches Some((x, y)) && x@ == a && y@ == b,
            None => r is None,
        },
{
    let cs = to_chars(s);
    let n = cs.len();
    let sc = to_chars(sep);
    match find_chars(&cs, &sc) {
        None => None,
        Some(p) => {
            proof {
                lemma_first_at_occurs(s@, sep@, 0);
                assert(occurs_at(s@, sep@, p as int));
            }
            let rest = substring(s, p + sc.len(), n);
            let rc = to_chars(rest.as_str());
            let q = match find_chars(&rc, &sc) {
                Some(q) => {
                    proof {
                        lemma_first_at_occurs(rest@, sep@, 0);
                    }
                    q
                },
                None => rc.len(),
            };
            Some((substring(s, 0, p), substring(rest.as_str(), 0, q)))
        },
    }
}

/// A non-empty text read with `selector`, finished by `rule` where the
/// selector is "title".
pub open spec fn finish_title(rule: TitleRule, selector: Seq<char>, text: Seq<char>) -> Seq<char> {
    if selector != "title"@ {
        text
    } else {
        match rule {
            TitleRule::Plain => text,
            TitleRule::YouTube => if has_substring(text, " - YouTube"@) {
                trimmed(replaced(text, " - YouTube"@, ""@))
            } else {
                text
            },
            TitleRule::BeforeBy => match split_two(text, " by "@) {
                Some((a, _)) => trimmed(a),
                None => trimmed(text),
            },
            TitleRule::AfterBy => match split_two(text, " by "@) {
                Some((_, b)) => trimmed(b),
                None => text,
            },
        }
    }
}

/// The text of the first element of the first selector (from `k` on) that
/// picks one with a non-empty trimmed text, finished by `rule`; `default`
/// where none does.
pub open spec fn page_text_from(html: Seq<char>, sels: Seq<Seq<char>>, k: int, rule: TitleRule, default: Seq<char>) -> Seq<char>
    decreases sels.len() - k,
{
    if k < 0 || k >= sels.len() {
        default
    } else {
        match first_element(html, sels[k]) {
            Some(e) => if trimmed(e.0).len() > 0 {
                finish_title(rule, sels[k], trimmed(e.0))
            } else {
                page_text_from(html, sels, k + 1, rule, default)
            },
            None => page_text_from(html, sels, k + 1, rule, default),
        }
    }
}

fn finish_title_exec(rule: TitleRule, selector: &str, text: String) -> (r: String)
    ensures
        r@ == finish_title(rule, selector@, text@),
{
    if !str_eq(selector, "title") {
        return text;
    }
    proof {
        reveal_strlit(" - YouTube");
    }
    match rule {
        TitleRule::Plain => text,
        TitleRule::YouTube => if str_contains(text.as_str(), " - YouTube") {
            let t = replace_text(text.as_str(), " - YouTube", "");
            trim_text(t.as_str())
        } else {
            text
        },
        TitleRule::BeforeBy => match split_two_exec(text.as_str(), " by ") {
            Some((a, _)) => trim_text(a.as_str()),
            None => trim_text(text.as_str()),
        },
        TitleRule::AfterBy => match split_two_exec(text.as_str(), " by ") {
            Some((_, b)) => trim_text(b.as_str()),
            None => text,
        },
    }
}

pub open spec fn strs(v: Seq<&str>) -> Seq<Seq<char>> {
    v.map_values(|s: &str| s@)
}

/// The text a page shows under the first fitting selector (see `page_text_from`).
pub fn page_text(html: &str, selectors: &Vec<&str>, rule: TitleRule, default: &str) -> (r: String)
    ensures
        r@ == page_text_from(html@, strs(selectors@), 0, rule, default@),
{
    let ghost sv = strs(selectors@);
    let mut k: usize = 0;
    while k < selectors.len()
        invariant
            sv == strs(selectors@),
            k <= selectors@.len(),
            page_text_from(html@, sv, 0, rule, default@) == page_text_from(html@, sv, k as int, rule, default@),
        decreases selectors.len() - k,
    {
        let sel = selectors[k];
        assert(sv[k as int] == sel@);
        match first_element_exec(html, sel) {
            Some(t) => {
                let tt = trim_text(t.as_str());
                if tt.unicode_len() > 0 {
                    return finish_title_exec(rule, sel, tt);
                }
            },
            None => {},
        }
        k = k + 1;
    }
    String::from_str(default)
}

/// The channel name on a YouTube channel page.
pub fn extract_channel_name(html: &str) -> (r: String)
    ensures
        r@ == page_text_from(
            html@,
            seq!["#channel-name"@, "#channel-header-container #text"@, "ytd-channel-name yt-formatted-string"@, "title"@],
            0,
            TitleRule::YouTube,
            "Unknown Channel"@,
        ),
{
    let sels = vec!["#channel-name", "#channel-header-container #text", "ytd-channel-name yt-formatted-string", "title"];
    assert(strs(sels@) =~= seq!["#channel-name"@, "#channel-header-container #text"@, "ytd-channel-name yt-formatted-string"@, "title"@]);
    page_text(html, &sels, TitleRule::YouTube, "Unknown Channel")
}

/// The title on a YouTube playlist page.
pub fn extract_playlist_title(html: &str) -> (r: String)
    ensures
        r@ == page_text_from(
            html@,
            seq!["h1.title"@, "#playlist-header-title"@, "ytd-playlist-header-renderer h1"@, "title"@],
            0,
            TitleRule::YouTube,
            "Unknown Playlist"@,
        ),
{
    let sels = vec!["h1.title", "#playlist-header-title", "ytd-playlist-header-renderer h1", "title"];
    assert(strs(sels@) =~= seq!["h1.title"@, "#playlist-header-title"@, "ytd-playlist-header-renderer h1"@, "title"@]);
    page_text(html, &sels, TitleRule::YouTube, "Unknown Playlist")
}

/// The title on a YouTube video page.
pub fn extract_video_title(html: &str) -> (r: String)
    ensures
        r@ == page_text_from(
            html@,
            seq!["h1.title"@, "#title h1"@, "ytd-video-primary-info-renderer h1"@, "title"@],
            0,
            TitleRule::YouTube,
            "Unknown Video"@,
        ),
{
    let sels = vec!["h1.title", "#title h1", "ytd-video-primary-info-renderer h1", "title"];
    assert(strs(sels@) =~= seq!["h1.title"@, "#title h1"@, "ytd-video-primary-info-renderer h1"@, "title"@]);
    page_text(html, &sels, TitleRule::YouTube, "Unknown Video")
}

/// The track title on a SoundCloud page ("Title by Artist" in `<title>`).
pub fn extract_soundcloud_title(html: &str) -> (r: String)
    ensures
        r@ == page_text_from(
            html@,
            seq!["[itemprop='name']"@, ".soundTitle__title span"@, ".soundTitle__title"@, "h1"@, "title"@],
            0,
            TitleRule::BeforeBy,
            "Unknown Track"@,
        ),
{
    let sels = vec!["[itemprop='name']", ".soundTitle__title span", ".soundTitle__title", "h1", "title"];
    assert(strs(sels@) =~= seq!["[itemprop='name']"@, ".soundTitle__title span"@, ".soundTitle__title"@, "h1"@, "title"@]);
    page_text(html, &sels, TitleRule::BeforeBy, "Unknown Track")
}

/// The artist on a SoundCloud page ("Title by Artist" in `<title>`).
pub fn extract_soundcloud_artist(html: &str) -> (r: String)
    ensures
        r@ == page_text_from(
            html@,
            seq![
                "[itemprop='author'] [itemprop='name']"@,
                ".soundTitle__username"@,
                ".soundTitle__info a"@,
                ".soundContext__usernameLink"@,
                "title"@,
            ],
            0,
            TitleRule::AfterBy,
            "Unknown Artist"@,
        ),
{
    let sels = vec![
        "[itemprop='author'] [itemprop='name']",
        ".soundTitle__username",
        ".soundTitle__info a",
        ".soundContext__usernameLink",
        "title",
    ];
    assert(strs(sels@) =~= seq![
        "[itemprop='author'] [itemprop='name']"@,
        ".soundTitle__username"@,
        ".soundTitle__info a"@,
        ".soundContext__usernameLink"@,
        "title"@,
    ]);
    page_text(html, &sels, TitleRule::AfterBy, "Unknown Artist")
}

/// The playlist title on a SoundCloud playlist page.
pub fn extract_soundcloud_playlist_title(html: &str) -> (r: String)
    ensures
        r@ == page_text_from(
            html@,
            seq![".soundTitle__title span"@, ".playlistHeader__title"@, "h1"@, "title"@],
            0,
            TitleRule::Plain,
            "Unknown Playlist"@,
        ),
{
    let sels = vec![".soundTitle__title span", ".playlistHeader__title", "h1", "title"];
    assert(strs(sels@) =~= seq![".soundTitle__title span"@, ".playlistHeader__title"@, "h1"@, "title"@]);
    page_text(html, &sels, TitleRule::Plain, "Unknown Playlist")
}

/// The number of selectors (of the first `n`) that pick at least one element.
pub open spec fn found_count(html: Seq<char>, sels: Seq<Seq<char>>, n: int) -> nat
    decreases n,
{
    if n <= 0 || n > sels.len() {
        0
    } else {
        found_count(html, sels, n - 1) + if first_element(html, sels[n - 1]) is Some {
            1nat
        } else {
            0nat
        }
    }
}

pub open spec fn key_selectors() -> Seq<Seq<char>> {
    seq!["#content"@, "#player"@, "#description"@, "title"@, "meta[property='og:title']"@]
}

/// A page counts as a full YouTube page where at least three of its key elements are there.
pub fn has_key_youtube_elements(html: &str) -> (r: bool)
    ensures
        r == (found_count(html@, key_selectors(), 5) >= 3),
{
    let sels = vec!["#content", "#player", "#description", "title", "meta[property='og:title']"];
    assert(strs(sels@) =~= key_selectors());
    let mut found: usize = 0;
    let mut k: usize = 0;
    while k < 5
        invariant
            sels@.len() == 5,
            strs(sels@) == key_selectors(),
            k <= 5,
            found <= k,
            found == found_count(html@, key_selectors(), k as int),
        decreases 5 - k,
    {
        assert(key_selectors()[k as int] == sels@[k as int]@);
        if first_element_exec(html, sels[k]).is_some() {
            found = found + 1;
        }
        k = k + 1;
    }
    found >= 3
}


/// What a page element tells of a date (`views` false) or a view count
/// (`views` true): a non-empty "content" attribute (with " views" added for a
/// count), else its trimmed text where that names the date or the views.
pub open spec fn element_pick(e: (Seq<char>, Option<Seq<char>>), views: bool) -> Option<Seq<char>> {
    let t = trimmed(e.0);
    if e.1 is Some && e.1->0.len() > 0 {
        Some(
            if views {
                e.1->0 + " views"@
            } else {
                e.1->0
            },
        )
    } else if t.len() > 0 && (if views {
        has_substring(t, "view"@) || has_substring(t, "views"@)
    } else {
        has_substring(t, "Premiered"@) || has_substring(t, "Uploaded"@) || has_substring(t, "Streamed"@)
    }) {
        Some(t)
    } else {
        None
    }
}

/// The first pick among the elements from `j` on.
pub open spec fn first_pick(els: Seq<(Seq<char>, Option<Seq<char>>)>, j: int, views: bool) -> Option<Seq<char>>
    decreases els.len() - j,
{
    if j < 0 || j >= els.len() {
        None
    } else {
        match element_pick(els[j], views) {
            Some(x) => Some(x),
            None => first_pick(els, j + 1, views),
        }
    }
}

/// The first pick of the first selector (from `k` on) that gives one.
pub open spec fn pick_from(html: Seq<char>, sels: Seq<Seq<char>>, k: int, views: bool) -> Option<Seq<char>>
    decreases sels.len() - k,
{
    if k < 0 || k >= sels.len() {
        None
    } else {
        match html_select(html, sels[k], "content"@) {
            Some(els) => match first_pick(els, 0, views) {
                Some(x) => Some(x),
                None => pick_from(html, sels, k + 1, views),
            },
            None => pick_from(html, sels, k + 1, views),
        }
    }
}

fn element_pick_exec(e: (String, Option<String>), views: bool) -> (r: Option<String>)
    ensures
        match element_pick(
            (
                e.0@,
                match e.1 {
                    Some(a) => Some(a@),
                    None => None,
                },
            ),
            views,
        ) {
            Some(x) => r matches Some(y) && y@ == x,
            None => r is None,
        },
{
    let (text, attr) = e;
    match attr {
        Some(c) => if c.unicode_len() > 0 {
            proof {
                reveal_strlit(" views");
            }
            return Some(if views { c.concat(" views") } else { c });
        },
        None => {},
    }
    let t = trim_text(text.as_str());
    let named = if views {
        str_contains(t.as_str(), "view") || str_contains(t.as_str(), "views")
    } else {
        str_contains(t.as_str(), "Premiered") || str_contains(t.as_str(), "Uploaded") || str_contains(t.as_str(), "Streamed")
    };
    if t.unicode_len() > 0 && named {
        Some(t)
    } else {
        None
    }
}

fn page_pick(html: &str, selectors: &Vec<&str>, views: bool) -> (r: Option<String>)
    ensures
        match pick_from(html@, strs(selectors@), 0, views) {
            Some(x) => r matches Some(y) && y@ == x,
            None => r is None,
        },
{
    let ghost sv = strs(selectors@);
    let mut k: usize = 0;
    while k < selectors.len()
        invariant
            sv == strs(selectors@),
            k <= selectors@.len(),
            pick_from(html@, sv, 0, views) == pick_from(html@, sv, k as int, views),
        decreases selectors.len() - k,
    {
        assert(sv[k as int] == selectors@[k as int]@);
        match select_elements(html, selectors[k], "content") {
            Some(els) => {
                let ghost ev = element_texts(els@);
                let mut rest = els;
                let n = rest.len();
                let mut j: usize = 0;
                while rest.len() > 0
                    invariant
                        sv == strs(selectors@),
                        k < selectors@.len(),
                        sv[k as int] == selectors@[k as int]@,
                        html_select(html@, sv[k as int], "content"@) == Some(ev),
                        pick_from(html@, sv, 0, views) == pick_from(html@, sv, k as int, views),
                        n == ev.len(),
                        j + rest@.len() == n,
                        element_texts(rest@) == ev.subrange(j as int, n as int),
                        first_pick(ev, 0, views) == first_pick(ev, j as int, views),
                    decreases rest.len(),
                {
                    let ghost rv = rest@;
                    let e = rest.remove(0);
                    proof {
                        assert(element_texts(rv)[0] == ev[j as int]);
                        assert(rest@ =~= rv.subrange(1, rv.len() as int));
                        assert(element_texts(rest@) =~= element_texts(rv).subrange(1, rv.len() as int));
                        assert(element_texts(rest@) =~= ev.subrange(j + 1, n as int));
                    }
                    match element_pick_exec(e, views) {
                        Some(x) => return Some(x),
                        None => {},
                    }
                    j = j + 1;
                }
            },
            None => {},
        }
        k = k + 1;
    }
    None
}

/// The upload date shown on a YouTube video page.
pub fn extract_upload_date(html: &str) -> (r: Option<String>)
    ensures
        match pick_from(
            html@,
            seq![
                "meta[itemprop='uploadDate']"@,
                "meta[property='uploadDate']"@,
                "#info-strings yt-formatted-string"@,
                "#info-text .style-scope"@,
            ],
            0,
            false,
        ) {
            Some(x) => r matches Some(y) && y@ == x,
            None => r is None,
        },
{
    let sels = vec![
        "meta[itemprop='uploadDate']",
        "meta[property='uploadDate']",
        "#info-strings yt-formatted-string",
        "#info-text .style-scope",
    ];
    assert(strs(sels@) =~= seq![
        "meta[itemprop='uploadDate']"@,
        "meta[property='uploadDate']"@,
        "#info-strings yt-formatted-string"@,
        "#info-text .style-scope"@,
    ]);
    page_pick(html, &sels, false)
}

/// The view count shown on a YouTube video page.
pub fn extract_views(html: &str) -> (r: Option<String>)
    ensures
        match pick_from(
            html@,
            seq![
                "meta[itemprop='interactionCount']"@,
                "#count .view-count"@,
                "#info-text .style-scope"@,
                ".view-count"@,
            ],
            0,
            true,
        ) {
            Some(x) => r matches Some(y) && y@ == x,
            None => r is None,
        },
{
    let sels = vec!["meta[itemprop='interactionCount']", "#count .view-count", "#info-text .style-scope", ".view-count"];
    assert(strs(sels@) =~= seq![
        "meta[itemprop='interactionCount']"@,
        "#count .view-count"@,
        "#info-text .style-scope"@,
        ".view-count"@,
    ]);
    page_pick(html, &sels, true)
}


pub open spec fn starts_with(s: Seq<char>, p: Seq<char>) -> bool {
    p.len() <= s.len() && s.subrange(0, p.len() as int) == p
}

/// A watch link made absolute.
pub open spec fn full_link(href: Seq<char>) -> Seq<char> {
    if starts_with(href, "http"@) {
        href
    } else {
        "https://www.youtube.com"@ + href
    }
}

/// `acc` with `x` added at the end, unless it is there already.
pub open spec fn add_unique(acc: Seq<Seq<char>>, x: Seq<char>) -> Seq<Seq<char>> {
    if acc.contains(x) {
        acc
    } else {
        acc.push(x)
    }
}

/// `acc` with the watch links of the first `n` elements added.
pub open spec fn links_in(els: Seq<(Seq<char>, Option<Seq<char>>)>, n: int, acc: Seq<Seq<char>>) -> Seq<Seq<char>>
    decreases n,
{
    if n <= 0 || n > els.len() {
        acc
    } else {
        let prev = links_in(els, n - 1, acc);
        match els[n - 1].1 {
            Some(h) => if has_substring(h, "/watch?v="@) {
                add_unique(prev, full_link(h))
            } else {
                prev
            },
            None => prev,
        }
    }
}

/// The link selectors, in the order they are tried.
pub open spec fn link_selectors() -> Seq<Seq<char>> {
    seq![
        "a#video-title"@,
        "ytd-grid-video-renderer a#video-title"@,
        "ytd-playlist-video-renderer a#video-title"@,
        "ytd-video-renderer a#video-title"@,
        "a.yt-simple-endpoint"@,
        "a[href*='watch?v=']"@,
        "a[href^='/watch']"@,
        "div#contents a[href]"@,
        "div.ytd-rich-grid-renderer a[href]"@,
    ]
}

/// The watch links of the selectors from `k` on, stopping after a selector
/// once ten links are known.
pub open spec fn links_from(html: Seq<char>, sels: Seq<Seq<char>>, k: int, acc: Seq<Seq<char>>) -> Seq<Seq<char>>
    decreases sels.len() - k,
{
    if k < 0 || k >= sels.len() {
        acc
    } else {
        match html_select(html, sels[k], "href"@) {
            Some(els) => {
                let a = links_in(els, els.len() as int, acc);
                if a.len() >= 10 {
                    a
                } else {
                    links_from(html, sels, k + 1, a)
                }
            },
            None => links_from(html, sels, k + 1, acc),
        }
    }
}

/// A video id in embedded page data.
pub open spec fn video_id_pattern() -> Seq<char> {
    "\"videoId\":\\s*\"([a-zA-Z0-9_-]{11})\""@
}

/// `acc` with the watch links of the first `n` video ids added.
pub open spec fn id_links(caps: Seq<Seq<Option<Seq<char>>>>, n: int, acc: Seq<Seq<char>>) -> Seq<Seq<char>>
    decreases n,
{
    if n <= 0 || n > caps.len() {
        acc
    } else {
        let prev = id_links(caps, n - 1, acc);
        match group(Some(caps[n - 1]), 1) {
            Some(id) => add_unique(prev, "https://www.youtube.com/watch?v="@ + id),
            None => prev,
        }
    }
}

/// The watch links of the video ids in the scripts from `k` on, stopping
/// after a script once twenty links are known.
pub open spec fn script_links(scripts: Seq<(Seq<char>, Option<Seq<char>>)>, k: int, acc: Seq<Seq<char>>) -> Seq<Seq<char>>
    decreases scripts.len() - k,
{
    if k < 0 || k >= scripts.len() {
        acc
    } else {
        let caps = regex_all_captures(video_id_pattern(), scripts[k].0);
        let a = id_links(caps, caps.len() as int, acc);
        if a.len() >= 20 {
            a
        } else {
            script_links(scripts, k + 1, a)
        }
    }
}

/// The video links of a channel or playlist page: the watch links the link
/// selectors find; failing any, the video ids in its scripts; at most thirty.
pub open spec fn video_links(html: Seq<char>) -> Seq<Seq<char>> {
    let a = links_from(html, link_selectors(), 0, Seq::empty());
    let b = if a.len() == 0 {
        match html_select(html, "script"@, ""@) {
            Some(s) => script_links(s, 0, a),
            None => a,
        }
    } else {
        a
    };
    if b.len() > 30 {
        b.subrange(0, 30)
    } else {
        b
    }
}

fn push_unique(acc: &mut Vec<String>, x: String)
    ensures
        texts(final(acc)@) == add_unique(texts(old(acc)@), x@),
{
    if !has_text(acc, &x) {
        let ghost before = texts(acc@);
        acc.push(x);
        assert(texts(acc@) =~= before.push(x@));
    }
}

fn starts_with_exec(s: &str, p: &str) -> (r: bool)
    ensures
        r == starts_with(s@, p@),
{
    let n = s.unicode_len();
    let m = p.unicode_len();
    if m > n {
        return false;
    }
    let head = substring(s, 0, m);
    str_eq(head.as_str(), p)
}

/// The video links of a channel or playlist page (see `video_links`).
pub fn extract_video_links(html: &str) -> (r: Vec<String>)
    ensures
        texts(r@) == video_links(html@),
{
    let sels = vec![
        "a#video-title",
        "ytd-grid-video-renderer a#video-title",
        "ytd-playlist-video-renderer a#video-title",
        "ytd-video-renderer a#video-title",
        "a.yt-simple-endpoint",
        "a[href*='watch?v=']",
        "a[href^='/watch']",
        "div#contents a[href]",
        "div.ytd-rich-grid-renderer a[href]",
    ];
    assert(strs(sels@) =~= link_selectors());
    let ghost sv = link_selectors();
    let mut links: Vec<String> = Vec::new();
    let mut k: usize = 0;
    assert(texts(links@) =~= Seq::<Seq<char>>::empty());
    proof {
        reveal_strlit("http");
    }
    let mut done = false;
    while k < sels.len() && !done
        invariant
            sv == strs(sels@),
            k <= sels@.len(),
            !done ==> links_from(html@, sv, 0, Seq::empty()) == links_from(html@, sv, k as int, texts(links@)),
            done ==> links_from(html@, sv, 0, Seq::empty()) == texts(links@),
        decreases sels.len() - k,
    {
        assert(sv[k as int] == sels@[k as int]@);
        match select_elements(html, sels[k], "href") {
            Some(els) => {
                let ghost ev = element_texts(els@);
                let ghost start = texts(links@);
                let mut j: usize = 0;
                while j < els.len()
                    invariant
                        ev == element_texts(els@),
                        j <= els@.len(),
                        texts(links@) == links_in(ev, j as int, start),
                    decreases els.len() - j,
                {
                    assert(ev[j as int].1 == match els@[j as int].1 {
                        Some(a) => Some(a@),
                        None => None::<Seq<char>>,
                    });
                    match &els[j].1 {
                        Some(h) => {
                            if str_contains(h.as_str(), "/watch?v=") {
                                let full = if starts_with_exec(h.as_str(), "http") {
                                    String::from_str(h.as_str())
                                } else {
                                    String::from_str("https://www.youtube.com").concat(h.as_str())
                                };
                                push_unique(&mut links, full);
                            }
                        },
                        None => {},
                    }
                    j = j + 1;
                }
                if links.len() >= 10 {
                    done = true;
                }
            },
            None => {},
        }
        k = k + 1;
    }
    let ghost a = texts(links@);
    if links.len() == 0 {
        match select_elements(html, "script", "") {
            Some(scripts) => {
                let ghost ev = element_texts(scripts@);
                let mut k: usize = 0;
                let mut full = false;
                while k < scripts.len() && !full
                    invariant
                        ev == element_texts(scripts@),
                        html_select(html@, "script"@, ""@) == Some(ev),
                        k <= scripts@.len(),
                        !full ==> script_links(ev, 0, a) == script_links(ev, k as int, texts(links@)),
                        full ==> script_links(ev, 0, a) == texts(links@),
                    decreases scripts.len() - k,
                {
                    assert(ev[k as int].0 == scripts@[k as int].0@);
                    let caps = captures_all("\"videoId\":\\s*\"([a-zA-Z0-9_-]{11})\"", scripts[k].0.as_str());
                    let ghost cv = all_group_texts(caps@);
                    let ghost start = texts(links@);
                    let mut j: usize = 0;
                    while j < caps.len()
                        invariant
                            cv == all_group_texts(caps@),
                            j <= caps@.len(),
                            texts(links@) == id_links(cv, j as int, start),
                        decreases caps.len() - j,
                    {
                        assert(cv[j as int] == group_texts(caps@[j as int]@));
                        match take_group(Some(caps[j].clone()), 1) {
                            Some(id) => {
                                let url = String::from_str("https://www.youtube.com/watch?v=").concat(id.as_str());
                                push_unique(&mut links, url);
                            },
                            None => {},
                        }
                        j = j + 1;
                    }
                    if links.len() >= 20 {
                        full = true;
                    }
                    k = k + 1;
                }
            },
            None => {},
        }
    }
    if links.len() > 30 {
        let ghost b = texts(links@);
        links.truncate(30);
        assert(texts(links@) =~= b.subrange(0, 30));
    }
    links
}


/// The text nodes of each element of `html` that `selector` picks, in
/// document order; `None` where the selector does not parse.
pub uninterp spec fn html_text_nodes(html: Seq<char>, selector: Seq<char>) -> Option<Seq<Seq<Seq<char>>>>;

pub open spec fn node_texts(v: Seq<Vec<String>>) -> Seq<Seq<Seq<char>>> {
    v.map_values(|e: Vec<String>| texts(e@))
}

/// Relies on scraper's `Html::parse_document`, `Selector::parse`,
/// `Html::select` and `ElementRef::text`.
#[verifier::external_body]
fn select_text_nodes(html: &str, selector: &str) -> (r: Option<Vec<Vec<String>>>)
    ensures
        match r {
            Some(v) => html_text_nodes(html@, selector@) == Some(node_texts(v@)),
            None => html_text_nodes(html@, selector@) is None,
        },
{
    let sel = scraper::Selector::parse(selector).ok()?;
    let doc = scraper::Html::parse_document(html);
    Some(doc.select(&sel).map(|e| e.text().map(|t| t.to_string()).collect()).collect())
}

/// The texts joined, with `sep` between them.
pub open spec fn joined(parts: Seq<Seq<char>>, sep: Seq<char>) -> Seq<char>
    decreases parts.len(),
{
    if parts.len() == 0 {
        Seq::empty()
    } else if parts.len() == 1 {
        parts[0]
    } else {
        joined(parts.drop_last(), sep) + sep + parts.last()
    }
}

fn join_texts(parts: &Vec<String>, sep: &str) -> (r: String)
    ensures
        r@ == joined(texts(parts@), sep@),
{
    let ghost pv = texts(parts@);
    if parts.len() == 0 {
        return String::new();
    }
    let mut out = String::from_str(parts[0].as_str());
    let mut i: usize = 1;
    assert(pv.subrange(0, 1).drop_last() =~= Seq::<Seq<char>>::empty());
    assert(joined(pv.subrange(0, 1), sep@) == pv[0]);
    while i < parts.len()
        invariant
            pv == texts(parts@),
            1 <= i <= parts@.len(),
            out@ == joined(pv.subrange(0, i as int), sep@),
        decreases parts.len() - i,
    {
        proof {
            let pre = pv.subrange(0, i as int + 1);
            assert(pre.drop_last() =~= pv.subrange(0, i as int));
            assert(pre.last() == parts@[i as int]@);
        }
        out = out.concat(sep).concat(parts[i].as_str());
        i = i + 1;
    }
    assert(pv.subrange(0, i as int) =~= pv);
    out
}

/// A text that looks like it holds a tracklist.
pub open spec fn tracklist_hint(d: Seq<char>) -> bool {
    has_substring(d, "Tracklist"@) || has_substring(d, "track list"@) || has_substring(lower_of(d), "tracklist"@)
        || has_substring(d, "00:00"@)
}

fn tracklist_hint_exec(d: &str) -> (r: bool)
    ensures
        r == tracklist_hint(d@),
{
    str_contains(d, "Tracklist") || str_contains(d, "track list") || str_contains(lowercase(d).as_str(), "tracklist")
        || str_contains(d, "00:00")
}

/// The texts of the elements, each its text nodes joined by line breaks and
/// followed by one, where it is not blank.
pub open spec fn element_block(els: Seq<Seq<Seq<char>>>, n: int) -> Seq<char>
    decreases n,
{
    if n <= 0 || n > els.len() {
        Seq::empty()
    } else {
        let t = joined(els[n - 1], "\n"@);
        if trimmed(t).len() > 0 {
            element_block(els, n - 1) + t + "\n"@
        } else {
            element_block(els, n - 1)
        }
    }
}

/// The description selectors, in the order they are tried.
pub open spec fn description_selectors() -> Seq<Seq<char>> {
    seq![
        "#description-inner"@,
        "#description-text"@,
        "#description .content"@,
        "#description-inline-expander"@,
        "ytd-watch-metadata #description"@,
        "ytd-watch-metadata #description yt-formatted-string"@,
        "ytd-watch-metadata #description-input-container"@,
        "ytd-expander #content yt-formatted-string"@,
        "ytd-expander[collapsed] #content"@,
        "ytd-expander[expanded] #content"@,
        "#description-inline-expander ytd-text-inline-expander"@,
        "#description-inline-expander #content"@,
        "#description-inline-expander #content ytd-text-inline-expander"@,
        "#description-inline-expander #content ytd-text-inline-expander #content"@,
        "#description-inline-expander #content ytd-text-inline-expander #content yt-formatted-string"@,
        "#description ytd-text-inline-expander"@,
        "#description ytd-text-inline-expander #content"@,
        "#description ytd-text-inline-expander #content yt-formatted-string"@,
        "#description yt-formatted-string"@,
        "#info-contents #description yt-formatted-string"@,
        "#description"@,
        "#info-contents"@,
        "#meta"@,
    ]
}

/// The description found by the selectors from `k` on: the trimmed text
/// block of the first selector that gives a non-blank one.
pub open spec fn selected_description(html: Seq<char>, sels: Seq<Seq<char>>, k: int) -> Option<Seq<char>>
    decreases sels.len() - k,
{
    if k < 0 || k >= sels.len() {
        None
    } else {
        match html_text_nodes(html, sels[k]) {
            Some(els) => if els.len() > 0 && trimmed(element_block(els, els.len() as int)).len() > 0 {
                Some(trimmed(element_block(els, els.len() as int)))
            } else {
                selected_description(html, sels, k + 1)
            },
            None => selected_description(html, sels, k + 1),
        }
    }
}

/// The "og:description" meta content of a page.
pub open spec fn meta_description(html: Seq<char>) -> Option<Seq<char>> {
    match html_select(html, "meta[property='og:description']"@, "content"@) {
        Some(v) => if v.len() > 0 {
            v[0].1
        } else {
            None
        },
        None => None,
    }
}

/// Each element's whole text followed by a line break.
pub open spec fn text_lines_of(els: Seq<(Seq<char>, Option<Seq<char>>)>, n: int) -> Seq<char>
    decreases n,
{
    if n <= 0 || n > els.len() {
        Seq::empty()
    } else {
        text_lines_of(els, n - 1) + els[n - 1].0 + "\n"@
    }
}

/// The description of a video page, given what its structured data holds:
/// that, where it looks like it holds a tracklist; else the meta description
/// where it does; else the first non-blank text block of the description
/// selectors; else the meta description where not empty; else the texts of
/// the description areas where there are any; else a placeholder.
pub open spec fn video_description(html: Seq<char>, structured: Option<Seq<char>>) -> Seq<char> {
    let meta = meta_description(html);
    if structured is Some && tracklist_hint(structured->0) {
        structured->0
    } else if meta is Some && tracklist_hint(meta->0) {
        meta->0
    } else {
        match selected_description(html, description_selectors(), 0) {
            Some(d) => d,
            None => if meta is Some && meta->0.len() > 0 {
                meta->0
            } else {
                match html_select(html, "#description, #info-text, .description"@, ""@) {
                    Some(els) => if text_lines_of(els, els.len() as int).len() > 0 {
                        text_lines_of(els, els.len() as int)
                    } else {
                        "Description not found"@
                    },
                    None => "Description not found"@,
                }
            },
        }
    }
}

fn meta_description_exec(html: &str) -> (r: Option<String>)
    ensures
        match meta_description(html@) {
            Some(m) => r matches Some(x) && x@ == m,
            None => r is None,
        },
{
    match select_elements(html, "meta[property='og:description']", "content") {
        Some(mut v) => {
            if v.len() == 0 {
                return None;
            }
            let ghost vv = v@;
            let e = v.remove(0);
            assert(element_texts(vv)[0] == (e.0@, match e.1 { Some(a) => Some(a@), None => None }));
            e.1
        },
        None => None,
    }
}

fn element_block_exec(els: &Vec<Vec<String>>) -> (r: String)
    ensures
        r@ == element_block(node_texts(els@), els@.len() as int),
{
    let ghost ev = node_texts(els@);
    let mut out = String::new();
    let mut i: usize = 0;
    proof {
        reveal_strlit("\n");
    }
    while i < els.len()
        invariant
            ev == node_texts(els@),
            i <= els@.len(),
            out@ == element_block(ev, i as int),
        decreases els.len() - i,
    {
        assert(ev[i as int] == texts(els@[i as int]@));
        let t = join_texts(&els[i], "\n");
        let tt = trim_text(t.as_str());
        if tt.unicode_len() > 0 {
            out = out.concat(t.as_str()).concat("\n");
        }
        i = i + 1;
    }
    out
}

/// The description of a video page (see `video_description`); `structured`
/// is the description its structured data holds, where it holds one.
pub fn extract_video_description(html: &str, structured: Option<String>) -> (r: String)
    ensures
        r@ == video_description(html@, match structured {
            Some(s) => Some(s@),
            None => None,
        }),
{
    let ghost sview = match &structured {
        Some(s) => Some(s@),
        None => None::<Seq<char>>,
    };
    match &structured {
        Some(sd) => if tracklist_hint_exec(sd.as_str()) {
            return String::from_str(sd.as_str());
        },
        None => {},
    }
    let meta = meta_description_exec(html);
    match &meta {
        Some(m) => if tracklist_hint_exec(m.as_str()) {
            return String::from_str(m.as_str());
        },
        None => {},
    }
    let sels = vec![
        "#description-inner",
        "#description-text",
        "#description .content",
        "#description-inline-expander",
        "ytd-watch-metadata #description",
        "ytd-watch-metadata #description yt-formatted-string",
        "ytd-watch-metadata #description-input-container",
        "ytd-expander #content yt-formatted-string",
        "ytd-expander[collapsed] #content",
        "ytd-expander[expanded] #content",
        "#description-inline-expander ytd-text-inline-expander",
        "#description-inline-expander #content",
        "#description-inline-expander #content ytd-text-inline-expander",
        "#description-inline-expander #content ytd-text-inline-expander #content",
        "#description-inline-expander #content ytd-text-inline-expander #content yt-formatted-string",
        "#description ytd-text-inline-expander",
        "#description ytd-text-inline-expander #content",
        "#description ytd-text-inline-expander #content yt-formatted-string",
        "#description yt-formatted-string",
        "#info-contents #description yt-formatted-string",
        "#description",
        "#info-contents",
        "#meta",
    ];
    assert(strs(sels@) =~= description_selectors());
    let ghost sv = description_selectors();
    let mut k: usize = 0;
    while k < sels.len()
        invariant
            sv == strs(sels@),
            k <= sels@.len(),
            sv == description_selectors(),
            sview == (match structured {
                Some(s) => Some(s@),
                None => None::<Seq<char>>,
            }),
            !(sview is Some && tracklist_hint(sview->0)),
            !(meta_description(html@) is Some && tracklist_hint(meta_description(html@)->0)),
            selected_description(html@, sv, 0) == selected_description(html@, sv, k as int),
        decreases sels.len() - k,
    {
        assert(sv[k as int] == sels@[k as int]@);
        match select_text_nodes(html, sels[k]) {
            Some(els) => {
                if els.len() > 0 {
                    let block = element_block_exec(&els);
                    let t = trim_text(block.as_str());
                    if t.unicode_len() > 0 {
                        return t;
                    }
                }
            },
            None => {},
        }
        k = k + 1;
    }
    match meta {
        Some(m) => if m.unicode_len() > 0 {
            return m;
        },
        None => {},
    }
    match select_elements(html, "#description, #info-text, .description", "") {
        Some(els) => {
            let ghost ev = element_texts(els@);
            let mut out = String::new();
            let mut i: usize = 0;
            proof {
                reveal_strlit("\n");
            }
            while i < els.len()
                invariant
                    ev == element_texts(els@),
                    i <= els@.len(),
                    out@ == text_lines_of(ev, i as int),
                decreases els.len() - i,
            {
                assert(ev[i as int].0 == els@[i as int].0@);
                out = out.concat(els[i].0.as_str()).concat("\n");
                i = i + 1;
            }
            if out.unicode_len() > 0 {
                return out;
            }
            String::from_str("Description not found")
        },
        None => String::from_str("Description not found"),
    }
}

} // verus!
