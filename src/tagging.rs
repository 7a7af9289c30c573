use vstd::prelude::*;
use crate::model::{AudioFileInfo, Track, TrackMatch, TaggerConfig};
use crate::matching::{file_title_words, words, words_of};
use crate::text::{str_eq, first_at, find_chars, lemma_first_at_occurs, occurs_at, substring, to_chars};

verus! {

/// The separator between artist and title in a combined title.
pub open spec fn dash() -> Seq<char> {
    seq![' ', '-', ' ']
}

/// Where a combined "Artist - Title" splits: the first " - ".
pub open spec fn split_point(s: Seq<char>) -> Option<int> {
    first_at(s, dash(), 0)
}

/// Splits "Artist - Title" at the first " - " into the artist and the title.
pub fn split_artist_title(s: &str) -> (r: Option<(String, String)>)
    ensures
        match split_point(s@) {
            Some(p) => r matches Some((a, t)) && a@ == s@.subrange(0, p) && t@ == s@.subrange(
                p + 3,
                s@.len() as int,
            ),
            None => r is None,
        },
{
    let cs = to_chars(s);
    let n = cs.len();
    let mut sep: Vec<char> = Vec::new();
    sep.push(' ');
    sep.push('-');
    sep.push(' ');
    assert(sep@ =~= dash());
    match find_chars(&cs, &sep) {
        Some(p) => {
            proof {
                lemma_first_at_occurs(s@, dash(), 0);
                assert(occurs_at(s@, dash(), p as int));
                assert(dash().len() == 3);
                assert(cs@.len() == s@.len());
                assert(p + 3 <= cs@.len());
            }
            let a = substring(s, 0, p);
            let t = substring(s, p + 3, n);
            Some((a, t))
        },
        None => None,
    }
}

/// The file as the engine should see it: a file without artists whose title
/// reads "Artist - Title" gets that artist and that title.
pub open spec fn prepared_ok(info: AudioFileInfo, r: AudioFileInfo) -> bool {
    let split = match info.title {
        Some(t) => if info.artists@.len() == 0 {
            split_point(t@)
        } else {
            None
        },
        None => None,
    };
    &&& r.path == info.path
    &&& r.duration == info.duration
    &&& r.ids == info.ids
    &&& r.tagged == info.tagged
    &&& match split {
        Some(p) => {
            let t = info.title->0@;
            &&& r.artists@.len() == 1
            &&& r.artists@[0]@ == t.subrange(0, p)
            &&& r.title matches Some(nt) && nt@ == t.subrange(p + 3, t.len() as int)
        },
        None => r.artists == info.artists && r.title == info.title,
    }
}

/// Fills in artist and title from a combined "Artist - Title" where the file has no artist.
pub fn prepare_info(info: AudioFileInfo) -> (r: AudioFileInfo)
    ensures
        prepared_ok(info, r),
{
    if info.artists.len() > 0 {
        return info;
    }
    let split = match &info.title {
        Some(t) => split_artist_title(t.as_str()),
        None => None,
    };
    match split {
        Some((a, t)) => {
            let mut artists: Vec<String> = Vec::new();
            artists.push(a);
            AudioFileInfo {
                path: info.path,
                title: Some(t),
                artists,
                duration: info.duration,
                ids: info.ids,
                tagged: info.tagged,
            }
        },
        None => info,
    }
}

/// The file has something to match on: title words or an artist.
pub open spec fn matchable(info: AudioFileInfo) -> bool {
    file_title_words(info).len() > 0 || info.artists@.len() > 0
}

/// Whether the file has something to match on (see `matchable`).
pub fn is_matchable(info: &AudioFileInfo) -> (r: bool)
    ensures
        r == matchable(*info),
{
    if info.artists.len() > 0 {
        return true;
    }
    match &info.title {
        Some(t) => {
            let cs = to_chars(t.as_str());
            let w = words_of(&cs, true);
            w.len() > 0
        },
        None => false,
    }
}

/// The file is skipped without asking any platform: it carries the tagged
/// marker and the run skips tagged files, or it has nothing to match on.
pub open spec fn skips(info: AudioFileInfo, config: TaggerConfig) -> bool {
    (config.skip_tagged && info.tagged) || !matchable(info)
}

/// Whether the file is skipped without asking any platform (see `skips`).
pub fn should_skip(info: &AudioFileInfo, config: &TaggerConfig) -> (r: bool)
    ensures
        r == skips(*info, *config),
{
    (config.skip_tagged && info.tagged) || !is_matchable(info)
}

/// The confidence of the first match, which the engine puts first as the best.
pub open spec fn best_of(matches: Seq<TrackMatch>) -> Option<u64> {
    if matches.len() > 0 {
        Some(matches[0].accuracy)
    } else {
        None
    }
}

/// The best confidence among the matches of one platform (see `best_of`).
pub fn best_confidence(matches: &Vec<TrackMatch>) -> (r: Option<u64>)
    ensures
        r == best_of(matches@),
{
    if matches.len() > 0 {
        Some(matches[0].accuracy)
    } else {
        None
    }
}

/// A text field counts as empty where it is absent or holds no character.
pub open spec fn filled(s: Option<String>) -> bool {
    s matches Some(v) && v@.len() > 0
}

/// The earlier platform's value, unless it is empty.
pub open spec fn prefer_text(a: Option<String>, b: Option<String>) -> Option<String> {
    if filled(a) {
        a
    } else {
        b
    }
}

pub open spec fn prefer_list(a: Vec<String>, b: Vec<String>) -> Vec<String> {
    if a@.len() > 0 {
        a
    } else {
        b
    }
}

pub open spec fn prefer<T>(a: Option<T>, b: Option<T>) -> Option<T> {
    if a is Some {
        a
    } else {
        b
    }
}

fn pick_text(a: Option<String>, b: Option<String>) -> (r: Option<String>)
    ensures
        r == prefer_text(a, b),
{
    let keep = match &a {
        Some(v) => v.unicode_len() > 0,
        None => false,
    };
    if keep {
        a
    } else {
        b
    }
}

fn pick_list(a: Vec<String>, b: Vec<String>) -> (r: Vec<String>)
    ensures
        r == prefer_list(a, b),
{
    if a.len() > 0 {
        a
    } else {
        b
    }
}

fn pick<T>(a: Option<T>, b: Option<T>) -> (r: Option<T>)
    ensures
        r == prefer(a, b),
{
    if a.is_some() {
        a
    } else {
        b
    }
}

/// Field by field, the track of the earlier-listed platform wins unless its
/// field is empty, in which case the later platform's value is taken.
pub fn merge_tracks(first: Track, second: Track) -> (r: Track)
    ensures
        r.platform == first.platform,
        r.track_id == prefer_text(first.track_id, second.track_id),
        r.release_id == prefer_text(first.release_id, second.release_id),
        r.title == (if first.title@.len() > 0 {
            first.title
        } else {
            second.title
        }),
        r.artists == prefer_list(first.artists, second.artists),
        r.album == prefer_text(first.album, second.album),
        r.label == prefer_text(first.label, second.label),
        r.genres == prefer_list(first.genres, second.genres),
        r.styles == prefer_list(first.styles, second.styles),
        r.release_year == prefer(first.release_year, second.release_year),
        r.release_date == prefer(first.release_date, second.release_date),
        r.duration == prefer(first.duration, second.duration),
        r.art == prefer_text(first.art, second.art),
        r.thumbnail == prefer_text(first.thumbnail, second.thumbnail),
        r.url == (if first.url@.len() > 0 {
            first.url
        } else {
            second.url
        }),
        r.track_total == prefer(first.track_total, second.track_total),
{
    let title = if first.title.unicode_len() > 0 {
        first.title
    } else {
        second.title
    };
    let url = if first.url.unicode_len() > 0 {
        first.url
    } else {
        second.url
    };
    Track {
        platform: first.platform,
        track_id: pick_text(first.track_id, second.track_id),
        release_id: pick_text(first.release_id, second.release_id),
        title,
        artists: pick_list(first.artists, second.artists),
        album: pick_text(first.album, second.album),
        label: pick_text(first.label, second.label),
        genres: pick_list(first.genres, second.genres),
        styles: pick_list(first.styles, second.styles),
        release_year: pick(first.release_year, second.release_year),
        release_date: pick(first.release_date, second.release_date),
        duration: pick(first.duration, second.duration),
        art: pick_text(first.art, second.art),
        thumbnail: pick_text(first.thumbnail, second.thumbnail),
        url,
        track_total: pick(first.track_total, second.track_total),
    }
}

/// The value of a boolean option of a platform, or `default` where the
/// configuration does not set it. The first setting counts.
pub open spec fn custom_flag_spec(config: TaggerConfig, platform: Seq<char>, key: Seq<char>, default: bool, i: int) -> bool
    decreases config.custom@.len() - i,
{
    if i < 0 || i >= config.custom@.len() {
        default
    } else if config.custom@[i].platform@ == platform && config.custom@[i].key@ == key {
        config.custom@[i].value
    } else {
        custom_flag_spec(config, platform, key, default, i + 1)
    }
}

/// Looks up a boolean option of a platform (see `custom_flag_spec`).
pub fn custom_flag(config: &TaggerConfig, platform: &str, key: &str, default: bool) -> (r: bool)
    ensures
        r == custom_flag_spec(*config, platform@, key@, default, 0),
{
    let mut i: usize = 0;
    while i < config.custom.len()
        invariant
            i <= config.custom@.len(),
            custom_flag_spec(*config, platform@, key@, default, 0) == custom_flag_spec(
                *config,
                platform@,
                key@,
                default,
                i as int,
            ),
        decreases config.custom.len() - i,
    {
        if str_eq(config.custom[i].platform.as_str(), platform) && str_eq(config.custom[i].key.as_str(), key) {
            return config.custom[i].value;
        }
        i = i + 1;
    }
    default
}

} // verus!
