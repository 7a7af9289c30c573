use vstd::prelude::*;
use crate::patterns::{captures, found_texts, regex_captures};
use crate::text::{has_substring, str_contains, str_eq};

verus! {

/// Why a URL cannot be handled.
#[derive(Clone, Copy, Debug, PartialEq, Eq, Structural)]
pub enum QueryError {
    /// Not a YouTube, Spotify or SoundCloud URL.
    InvalidUrl,
    UnsupportedYoutubeUrl,
    UnsupportedSpotifyUrl,
    UnsupportedPlatform,
    SpotifyNotImplemented,
    SoundcloudNotImplemented,
    InvalidSpotifyUrl,
}

impl QueryError {
    /// A sentence for the user.
    pub fn message(&self) -> &'static str {
        match self {
            QueryError::InvalidUrl => "Invalid URL. Must be a YouTube, Spotify, or SoundCloud URL.",
            QueryError::UnsupportedYoutubeUrl => "Unsupported YouTube URL format",
            QueryError::UnsupportedSpotifyUrl => "Unsupported Spotify URL format",
            QueryError::UnsupportedPlatform => "Unsupported URL platform",
            QueryError::SpotifyNotImplemented => "Spotify support not yet implemented",
            QueryError::SoundcloudNotImplemented => "SoundCloud support not yet implemented",
            QueryError::InvalidSpotifyUrl => "Invalid Spotify URL format",
        }
    }
}

/// One video or track: its title, its URL and its tracklist.
pub type Video = (String, String, Vec<String>);

/// What was found behind a URL.
#[derive(Clone, Debug)]
pub struct UrlInfo {
    pub platform: String,
    pub content_type: String,
    pub title: String,
    pub description: Option<String>,
    /// Tracklists by video title; no title occurs twice.
    pub video_tracklists: Option<Vec<(String, Vec<String>)>>,
    pub videos: Option<Vec<Video>>,
    pub url: String,
}

pub open spec fn keys_unique(m: Seq<(String, Vec<String>)>) -> bool {
    forall|i: int, j: int| 0 <= i < j < m.len() ==> m[i].0@ != m[j].0@
}

/// `m` with `key` mapped to `value`: the entry of that key replaced in
/// place, or a new entry at the end.
pub open spec fn with_entry(m: Seq<(String, Vec<String>)>, key: String, value: Vec<String>) -> Seq<(String, Vec<String>)> {
    if exists|i: int| 0 <= i < m.len() && m[i].0@ == key@ {
        let i = choose|i: int| 0 <= i < m.len() && m[i].0@ == key@;
        m.update(i, (key, value))
    } else {
        m.push((key, value))
    }
}

/// The tracklists built by mapping each title in turn, later ones replacing earlier ones.
pub open spec fn entries_from(list: Seq<(String, Vec<String>)>) -> Seq<(String, Vec<String>)>
    decreases list.len(),
{
    if list.len() == 0 {
        Seq::empty()
    } else {
        with_entry(entries_from(list.drop_last()), list.last().0, list.last().1)
    }
}

/// Maps `key` to `value` in a tracklist table.
pub fn put_entry(m: &mut Vec<(String, Vec<String>)>, key: String, value: Vec<String>)
    requires
        keys_unique(old(m)@),
    ensures
        keys_unique(final(m)@),
        final(m)@ == with_entry(old(m)@, key, value),
{
    let mut i: usize = 0;
    while i < m.len()
        invariant
            m@ == old(m)@,
            keys_unique(old(m)@),
            i <= m@.len(),
            forall|k: int| 0 <= k < i ==> m@[k].0@ != key@,
        decreases m.len() - i,
    {
        if str_eq(m[i].0.as_str(), key.as_str()) {
            let ghost before = m@;
            proof {
                assert forall|j: int| 0 <= j < before.len() && before[j].0@ == key@ implies j == i by {
                    if j != i {
                        if j < i {
                        } else {
                            assert(before[i as int].0@ != before[j].0@);
                        }
                    }
                }
                let c = choose|c: int| 0 <= c < before.len() && before[c].0@ == key@;
                assert(c == i);
            }
            m.set(i, (key, value));
            proof {
                assert forall|a: int, b: int| 0 <= a < b < m@.len() implies m@[a].0@ != m@[b].0@ by {
                    if a != i && b != i {
                        assert(before[a].0@ != before[b].0@);
                    }
                }
                assert(m@ =~= before.update(i as int, (key, value)));
            }
            return;
        }
        i = i + 1;
    }
    let ghost before = m@;
    m.push((key, value));
    proof {
        assert forall|a: int, b: int| 0 <= a < b < m@.len() implies m@[a].0@ != m@[b].0@ by {
            if b < before.len() {
                assert(before[a].0@ != before[b].0@);
            } else {
                assert(m@[b] == (key, value));
                assert(m@[a] == before[a]);
            }
        }
        assert(!exists|c: int| 0 <= c < before.len() && before[c].0@ == key@);
    }
}

impl UrlInfo {
    pub open spec fn wf(&self) -> bool {
        self.video_tracklists matches Some(t) ==> keys_unique(t@)
    }

    pub fn new(platform: &str, content_type: &str, title: &str, description: Option<String>) -> (r: UrlInfo)
        ensures
            r.wf(),
            r.platform@ == platform@,
            r.content_type@ == content_type@,
            r.title@ == title@,
            r.description == description,
            r.video_tracklists is None,
            r.videos is None,
            r.url@.len() == 0,
    {
        UrlInfo {
            platform: String::from_str(platform),
            content_type: String::from_str(content_type),
            title: String::from_str(title),
            description,
            video_tracklists: None,
            videos: None,
            url: String::new(),
        }
    }

    /// Sets the tracklists, each title in turn; a title given twice keeps its last list.
    pub fn with_tracklists(self, tracklists: Vec<(String, Vec<String>)>) -> (r: UrlInfo)
        ensures
            r.wf(),
            r == (UrlInfo { video_tracklists: r.video_tracklists, ..self }),
            r.video_tracklists matches Some(t) && t@ == entries_from(tracklists@),
    {
        let ghost all = tracklists@;
        let mut table: Vec<(String, Vec<String>)> = Vec::new();
        let mut rest = tracklists;
        let n = rest.len();
        let mut i: usize = 0;
        assert(all.subrange(0, 0) =~= Seq::<(String, Vec<String>)>::empty());
        while rest.len() > 0
            invariant
                n == all.len(),
                i + rest@.len() == n,
                rest@ == all.subrange(i as int, n as int),
                keys_unique(table@),
                table@ == entries_from(all.subrange(0, i as int)),
            decreases rest.len(),
        {
            let (k, v) = rest.remove(0);
            proof {
                let pre = all.subrange(0, i as int + 1);
                assert(pre.drop_last() =~= all.subrange(0, i as int));
                assert(pre.last() == (k, v));
                assert(rest@ =~= all.subrange(i as int + 1, n as int));
            }
            put_entry(&mut table, k, v);
            i = i + 1;
        }
        assert(all.subrange(0, n as int) =~= all);
        UrlInfo { video_tracklists: Some(table), ..self }
    }

    pub fn with_videos(self, videos: Vec<Video>) -> (r: UrlInfo)
        ensures
            r == (UrlInfo { videos: Some(videos), ..self }),
    {
        UrlInfo { videos: Some(videos), ..self }
    }

    pub fn with_url(self, url: String) -> (r: UrlInfo)
        ensures
            r == (UrlInfo { url, ..self }),
    {
        UrlInfo { url, ..self }
    }

    /// Maps `video_title` to `tracklist`, replacing an earlier list of that title.
    pub fn add_tracklist(self, video_title: String, tracklist: Vec<String>) -> (r: UrlInfo)
        requires
            self.wf(),
        ensures
            r.wf(),
            r == (UrlInfo { video_tracklists: r.video_tracklists, ..self }),
            r.video_tracklists matches Some(t) && t@ == with_entry(
                match self.video_tracklists {
                    Some(old) => old@,
                    None => Seq::empty(),
                },
                video_title,
                tracklist,
            ),
    {
        let mut table = match self.video_tracklists {
            Some(t) => t,
            None => Vec::new(),
        };
        put_entry(&mut table, video_title, tracklist);
        UrlInfo { video_tracklists: Some(table), ..self }
    }
}

pub open spec fn has(url: &str, part: &str) -> bool {
    has_substring(url@, part@)
}

/// The URL points to YouTube, Spotify or SoundCloud.
pub open spec fn valid_url(url: &str) -> bool {
    has(url, "youtube.com") || has(url, "youtu.be") || has(url, "spotify.com") || has(url, "soundcloud.com")
}

/// Whether the URL points to YouTube, Spotify or SoundCloud.
pub fn is_valid_url(url: &str) -> (r: bool)
    ensures
        r == valid_url(url),
{
    str_contains(url, "youtube.com") || str_contains(url, "youtu.be") || str_contains(url, "spotify.com")
        || str_contains(url, "soundcloud.com")
}

/// The platform and the kind of content a URL points to.
pub open spec fn classify(url: &str) -> Result<(Seq<char>, Seq<char>), QueryError> {
    if has(url, "youtube.com") || has(url, "youtu.be") {
        if has(url, "/playlist") || has(url, "list=") {
            Ok(("youtube"@, "playlist"@))
        } else if has(url, "/@") || has(url, "/channel/") || has(url, "/c/") || has(url, "/user/") {
            Ok(("youtube"@, "channel"@))
        } else if has(url, "watch?v=") || has(url, "youtu.be/") {
            Ok(("youtube"@, "video"@))
        } else {
            Err(QueryError::UnsupportedYoutubeUrl)
        }
    } else if has(url, "spotify.com") {
        if has(url, "/playlist/") {
            Ok(("spotify"@, "playlist"@))
        } else if has(url, "/album/") {
            Ok(("spotify"@, "album"@))
        } else if has(url, "/track/") {
            Ok(("spotify"@, "track"@))
        } else if has(url, "/artist/") {
            Ok(("spotify"@, "artist"@))
        } else {
            Err(QueryError::UnsupportedSpotifyUrl)
        }
    } else if has(url, "soundcloud.com") {
        if has(url, "/sets/") {
            Ok(("soundcloud"@, "playlist"@))
        } else {
            Ok(("soundcloud"@, "track"@))
        }
    } else {
        Err(QueryError::UnsupportedPlatform)
    }
}

pub open spec fn pair_views(r: Result<(String, String), QueryError>) -> Result<(Seq<char>, Seq<char>), QueryError> {
    match r {
        Ok((a, b)) => Ok((a@, b@)),
        Err(e) => Err(e),
    }
}

fn pair(a: &str, b: &str) -> (r: Result<(String, String), QueryError>)
    ensures
        pair_views(r) == Ok::<(Seq<char>, Seq<char>), QueryError>((a@, b@)),
{
    Ok((String::from_str(a), String::from_str(b)))
}

/// The platform and the kind of content a URL points to (see `classify`).
pub fn determine_platform_and_type(url: &str) -> (r: Result<(String, String), QueryError>)
    ensures
        pair_views(r) == classify(url),
{
    if str_contains(url, "youtube.com") || str_contains(url, "youtu.be") {
        if str_contains(url, "/playlist") || str_contains(url, "list=") {
            pair("youtube", "playlist")
        } else if str_contains(url, "/@") || str_contains(url, "/channel/") || str_contains(url, "/c/")
            || str_contains(url, "/user/") {
            pair("youtube", "channel")
        } else if str_contains(url, "watch?v=") || str_contains(url, "youtu.be/") {
            pair("youtube", "video")
        } else {
            Err(QueryError::UnsupportedYoutubeUrl)
        }
    } else if str_contains(url, "spotify.com") {
        if str_contains(url, "/playlist/") {
            pair("spotify", "playlist")
        } else if str_contains(url, "/album/") {
            pair("spotify", "album")
        } else if str_contains(url, "/track/") {
            pair("spotify", "track")
        } else if str_contains(url, "/artist/") {
            pair("spotify", "artist")
        } else {
            Err(QueryError::UnsupportedSpotifyUrl)
        }
    } else if str_contains(url, "soundcloud.com") {
        if str_contains(url, "/sets/") {
            pair("soundcloud", "playlist")
        } else {
            pair("soundcloud", "track")
        }
    } else {
        Err(QueryError::UnsupportedPlatform)
    }
}

/// What a query of `url` must fetch: only YouTube is served; other valid
/// platforms are refused as not implemented.
pub open spec fn query_plan(url: &str) -> Result<(Seq<char>, Seq<char>), QueryError> {
    if !valid_url(url) {
        Err(QueryError::InvalidUrl)
    } else {
        match classify(url) {
            Ok((p, c)) => if p == "spotify"@ {
                Err(QueryError::SpotifyNotImplemented)
            } else if p == "soundcloud"@ {
                Err(QueryError::SoundcloudNotImplemented)
            } else {
                Ok((p, c))
            },
            Err(e) => Err(e),
        }
    }
}

/// Checks a URL and tells the platform and content kind to fetch (see `query_plan`).
pub fn get_url_info(url: &str) -> (r: Result<(String, String), QueryError>)
    ensures
        pair_views(r) == query_plan(url),
{
    if !is_valid_url(url) {
        return Err(QueryError::InvalidUrl);
    }
    let (p, c) = determine_platform_and_type(url)?;
    if str_eq(p.as_str(), "spotify") {
        Err(QueryError::SpotifyNotImplemented)
    } else if str_eq(p.as_str(), "soundcloud") {
        Err(QueryError::SoundcloudNotImplemented)
    } else {
        Ok((p, c))
    }
}

/// A SoundCloud URL points to a playlist where it holds "/sets/", else to a track.
pub open spec fn soundcloud_type(url: &str) -> Seq<char> {
    if has(url, "/sets/") {
        "playlist"@
    } else {
        "track"@
    }
}

/// The kind of content of a SoundCloud URL (see `soundcloud_type`).
pub fn determine_soundcloud_type(url: &str) -> (r: Result<String, QueryError>)
    ensures
        r matches Ok(t) && t@ == soundcloud_type(url),
{
    if str_contains(url, "/sets/") {
        Ok(String::from_str("playlist"))
    } else {
        Ok(String::from_str("track"))
    }
}

/// A placeholder entry for a SoundCloud URL: its kind and a title naming the URL.
pub fn process_soundcloud(url: &str) -> (r: UrlInfo)
    ensures
        r.wf(),
        r.platform@ == "soundcloud"@,
        r.content_type@ == soundcloud_type(url),
        r.title@ == "SoundCloud "@ + soundcloud_type(url) + " from "@ + url@,
        r.description is None,
        r.video_tracklists is None,
        r.videos is None,
        r.url@ == url@,
{
    let content_type = if str_contains(url, "/sets/") {
        "playlist"
    } else {
        "track"
    };
    let title = String::from_str("SoundCloud ").concat(content_type).concat(" from ").concat(url);
    UrlInfo::new("soundcloud", content_type, title.as_str(), None).with_url(String::from_str(url))
}

/// The kind of content of a Spotify URL, by the first path part it holds.
pub open spec fn spotify_type(url: &str) -> Seq<char> {
    if has(url, "/track/") {
        "track"@
    } else if has(url, "/album/") {
        "album"@
    } else if has(url, "/playlist/") {
        "playlist"@
    } else if has(url, "/artist/") {
        "artist"@
    } else {
        "unknown"@
    }
}

/// A placeholder entry for a Spotify URL: its kind and a title naming the URL.
pub fn process_spotify(url: &str) -> (r: UrlInfo)
    ensures
        r.wf(),
        r.platform@ == "spotify"@,
        r.content_type@ == spotify_type(url),
        r.title@ == "Spotify "@ + spotify_type(url) + " from "@ + url@,
        r.description is None,
        r.video_tracklists is None,
        r.videos is None,
        r.url@ == url@,
{
    let content_type = if str_contains(url, "/track/") {
        "track"
    } else if str_contains(url, "/album/") {
        "album"
    } else if str_contains(url, "/playlist/") {
        "playlist"
    } else if str_contains(url, "/artist/") {
        "artist"
    } else {
        "unknown"
    };
    let title = String::from_str("Spotify ").concat(content_type).concat(" from ").concat(url);
    UrlInfo::new("spotify", content_type, title.as_str(), None).with_url(String::from_str(url))
}

/// Groups 1 and 2 of a match, where both took part.
pub open spec fn groups_one_two(c: Option<Seq<Option<Seq<char>>>>) -> Option<(Seq<char>, Seq<char>)> {
    match c {
        Some(g) => if g.len() >= 3 && g[1] is Some && g[2] is Some {
            Some((g[1]->0, g[2]->0))
        } else {
            None
        },
        None => None,
    }
}

/// The kind and id of a Spotify link, from the match of the web address
/// pattern, else from the match of the URI pattern.
pub open spec fn spotify_id_of(
    web: Option<Seq<Option<Seq<char>>>>,
    uri: Option<Seq<Option<Seq<char>>>>,
) -> Result<(Seq<char>, Seq<char>), QueryError> {
    match groups_one_two(web) {
        Some(p) => Ok(p),
        None => match groups_one_two(uri) {
            Some(p) => Ok(p),
            None => Err(QueryError::InvalidSpotifyUrl),
        },
    }
}

fn groups_of(c: Option<Vec<Option<String>>>) -> (r: Option<(String, String)>)
    ensures
        match r {
            Some((a, b)) => groups_one_two(found_texts(c)) == Some((a@, b@)),
            None => groups_one_two(found_texts(c)) is None,
        },
{
    match c {
        Some(mut g) => {
            if g.len() < 3 {
                return None;
            }
            let ghost gv = g@;
            let second = g.remove(2);
            let first = g.remove(1);
            match (first, second) {
                (Some(a), Some(b)) => Some((a, b)),
                _ => None,
            }
        },
        None => None,
    }
}

/// The kind and id of a Spotify link from the two pattern matches (see `spotify_id_of`).
pub fn spotify_id_from(web: Option<Vec<Option<String>>>, uri: Option<Vec<Option<String>>>) -> (r: Result<(String, String), QueryError>)
    ensures
        pair_views(r) == spotify_id_of(found_texts(web), found_texts(uri)),
{
    match groups_of(web) {
        Some((a, b)) => Ok((a, b)),
        None => match groups_of(uri) {
            Some((a, b)) => Ok((a, b)),
            None => Err(QueryError::InvalidSpotifyUrl),
        },
    }
}

/// The kind and id of a Spotify web address ("spotify.com/track/ID") or URI
/// ("spotify:track:ID").
pub fn extract_spotify_id(url: &str) -> (r: Result<(String, String), QueryError>)
    ensures
        pair_views(r) == spotify_id_of(
            regex_captures("spotify\\.com/([a-z]+)/([a-zA-Z0-9]+)"@, url@),
            regex_captures("spotify:([a-z]+):([a-zA-Z0-9]+)"@, url@),
        ),
{
    let web = captures("spotify\\.com/([a-z]+)/([a-zA-Z0-9]+)", url);
    match groups_of(web) {
        Some((a, b)) => Ok((a, b)),
        None => {
            let uri = captures("spotify:([a-z]+):([a-zA-Z0-9]+)", url);
            spotify_id_from(None, uri)
        },
    }
}

} // verus!
