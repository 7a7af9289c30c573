use vstd::prelude::*;
use chrono::Datelike;
use crate::matching::{match_result, match_tracks};
use crate::model::{Date, AudioFileInfo, PlatformCustomOption, PlatformInfo, SupportedTag, TaggerConfig, Track, TrackMatch};
use crate::tagging::{custom_flag, custom_flag_spec};
use crate::text::{texts, lower_of, lowercase, replaced, replace_text, str_eq, trim_text, trimmed, first_at, find_chars, lemma_first_at_occurs, substring, to_chars};

verus! {

/// The character of a decimal digit.
pub open spec fn digit_char(d: nat) -> char {
    ((d + 48) as u8) as char
}

/// The decimal digits of `n`, without leading zeros.
pub open spec fn digits(n: nat) -> Seq<char>
    decreases n,
{
    if n < 10 {
        seq![digit_char(n)]
    } else {
        digits(n / 10).push(digit_char(n % 10))
    }
}

/// `n` written in decimal, with a leading '-' where it is negative.
pub open spec fn decimal(n: int) -> Seq<char> {
    if n < 0 {
        seq!['-'] + digits((-n) as nat)
    } else {
        digits(n as nat)
    }
}

/// Relies on the `Display` of `i64` (through `to_string`): the number in decimal.
#[verifier::external_body]
fn decimal_text(n: i64) -> (r: String)
    ensures
        r@ == decimal(n as int),
{
    n.to_string()
}

/// How long to wait before asking again after a refusal, in milliseconds.
pub const RATE_LIMIT_WAIT_MS: u64 = 3000;

/// What to do with a response from Bandcamp.
#[derive(Clone, Copy, Debug, PartialEq, Eq, Structural)]
pub enum ResponseStep {
    /// Read the response.
    Read,
    /// Wait this many milliseconds and send the same request again.
    WaitAndRetry(u64),
}

/// A search answered with a success status is read; any other answer is
/// taken as a rate limit.
pub fn search_response_step(status: u16) -> (r: ResponseStep)
    ensures
        r == (if 200 <= status < 300 {
            ResponseStep::Read
        } else {
            ResponseStep::WaitAndRetry(RATE_LIMIT_WAIT_MS)
        }),
{
    if 200 <= status && status < 300 {
        ResponseStep::Read
    } else {
        ResponseStep::WaitAndRetry(RATE_LIMIT_WAIT_MS)
    }
}

/// A track page answered with a client error status is taken as a rate
/// limit; any other answer is read.
pub fn page_response_step(status: u16) -> (r: ResponseStep)
    ensures
        r == (if 400 <= status < 500 {
            ResponseStep::WaitAndRetry(RATE_LIMIT_WAIT_MS)
        } else {
            ResponseStep::Read
        }),
{
    if 400 <= status && status < 500 {
        ResponseStep::WaitAndRetry(RATE_LIMIT_WAIT_MS)
    } else {
        ResponseStep::Read
    }
}

/// One result of a Bandcamp track search.
#[derive(Clone, Debug)]
pub struct BandcampSearchResult {
    pub id: i64,
    pub album_id: Option<i64>,
    pub band_id: i64,
    pub band_name: String,
    pub album_name: Option<String>,
    pub name: String,
    pub item_url_path: String,
}

/// `t` is the track that the search result `r` describes.
pub open spec fn search_track(r: BandcampSearchResult, t: Track) -> bool {
    &&& t.platform@ == "bandcamp"@
    &&& t.track_id matches Some(i) && i@ == decimal(r.id as int)
    &&& t.title == r.name
    &&& t.artists@.len() == 1 && t.artists@[0] == r.band_name
    &&& t.album == r.album_name
    &&& match r.album_id {
        Some(a) => t.release_id matches Some(x) && x@ == decimal(a as int),
        None => t.release_id is None,
    }
    &&& t.url == r.item_url_path
    &&& t.label is None && t.genres@.len() == 0 && t.styles@.len() == 0 && t.release_year is None
    &&& t.release_date is None
    &&& t.duration is None && t.art is None && t.thumbnail is None && t.track_total is None
}

impl BandcampSearchResult {
    /// The track this result describes (see `search_track`).
    pub fn into_track(self) -> (t: Track)
        ensures
            search_track(self, t),
    {
        let mut t = Track::empty(String::from_str("bandcamp"));
        t.track_id = Some(decimal_text(self.id));
        t.title = self.name;
        let mut artists: Vec<String> = Vec::new();
        artists.push(self.band_name);
        t.artists = artists;
        t.album = self.album_name;
        t.release_id = match self.album_id {
            Some(a) => Some(decimal_text(a)),
            None => None,
        };
        t.url = self.item_url_path;
        t
    }
}

/// The title without its first bracketed qualifier and what follows it:
/// the text before the first " (".
pub open spec fn clean_title(t: Seq<char>) -> Seq<char> {
    match first_at(t, seq![' ', '('], 0) {
        Some(p) => t.subrange(0, p),
        None => t,
    }
}

/// The search text for a file: its first artist, a space, and its cleaned title.
pub open spec fn query_of(info: AudioFileInfo) -> Option<Seq<char>> {
    if info.artists@.len() > 0 && info.title is Some {
        Some(info.artists@[0]@ + seq![' '] + clean_title(info.title->0@))
    } else {
        None
    }
}

/// The search text for a file (see `query_of`); `None` without an artist or a title.
pub fn search_query(info: &AudioFileInfo) -> (r: Option<String>)
    ensures
        match query_of(*info) {
            Some(q) => r matches Some(s) && s@ == q,
            None => r is None,
        },
{
    if info.artists.len() == 0 {
        return None;
    }
    match &info.title {
        None => None,
        Some(title) => {
            let cs = to_chars(title.as_str());
            let n = cs.len();
            let mut sep: Vec<char> = Vec::new();
            sep.push(' ');
            sep.push('(');
            assert(sep@ =~= seq![' ', '(']);
            let cleaned = match find_chars(&cs, &sep) {
                Some(p) => {
                    proof {
                        lemma_first_at_occurs(cs@, sep@, 0);
                    }
                    substring(title.as_str(), 0, p)
                },
                None => String::from_str(title.as_str()),
            };
            proof {
                reveal_strlit(" ");
            }
            let q = String::from_str(info.artists[0].as_str()).concat(" ").concat(cleaned.as_str());
            Some(q)
        },
    }
}

/// Scores the search results against the file, asking for an artist match
/// unless the run's "match_artist" option for Bandcamp is off.
pub fn match_results(info: &AudioFileInfo, results: Vec<BandcampSearchResult>, config: &TaggerConfig) -> (r: Vec<TrackMatch>)
    ensures
        exists|tracks: Seq<Track>|
            tracks.len() == results@.len() && (forall|i: int|
                0 <= i < tracks.len() ==> search_track(#[trigger] results@[i], tracks[i])) && r@
                == match_result(
                *info,
                tracks,
                *config,
                custom_flag_spec(*config, "bandcamp"@, "match_artist"@, true, 0),
            ),
{
    let ghost all = results@;
    let mut tracks: Vec<Track> = Vec::new();
    let mut rest = results;
    let n = rest.len();
    let mut i: usize = 0;
    while rest.len() > 0
        invariant
            n == all.len(),
            i + rest@.len() == n,
            rest@ == all.subrange(i as int, n as int),
            tracks@.len() == i,
            forall|k: int| 0 <= k < i ==> search_track(#[trigger] all[k], tracks@[k]),
        decreases rest.len(),
    {
        let r = rest.remove(0);
        assert(r == all[i as int]);
        assert(rest@ =~= all.subrange(i as int + 1, n as int));
        tracks.push(r.into_track());
        i = i + 1;
    }
    let require_artist = custom_flag(config, "bandcamp", "match_artist", true);
    let ghost tv = tracks@;
    let r = match_tracks(info, tracks, config, require_artist);
    assert(tv.len() == results@.len() && (forall|i: int|
        0 <= i < tv.len() ==> search_track(#[trigger] results@[i], tv[i])));
    r
}

/// The text after the last '/' of `s` (all of `s` where it has none).
pub open spec fn after_last_slash(s: Seq<char>) -> Seq<char>
    decreases s.len(),
{
    if s.len() == 0 {
        s
    } else if s.last() == '/' {
        Seq::empty()
    } else {
        after_last_slash(s.drop_last()).push(s.last())
    }
}

/// ASCII lower case letters become upper case; other characters stay.
pub open spec fn upper(c: char) -> char {
    if 'a' <= c && c <= 'z' {
        ((c as u32 - 32) as u8) as char
    } else {
        c
    }
}

/// The text with its first character in upper case.
pub open spec fn capitalized(s: Seq<char>) -> Seq<char> {
    if s.len() == 0 {
        s
    } else {
        seq![upper(s[0])] + s.drop_first()
    }
}

/// The text with its first character in upper case (see `capitalized`).
pub fn capitalize(s: &str) -> (r: String)
    ensures
        r@ == capitalized(s@),
{
    let n = s.unicode_len();
    if n == 0 {
        return String::new();
    }
    let c = s.get_char(0);
    let first = if 'a' <= c && c <= 'z' {
        substring_upper(c)
    } else {
        String::from_str(s.substring_char(0, 1))
    };
    let rest = s.substring_char(1, n);
    assert(s@.subrange(0, 1) =~= seq![c]);
    assert(s@.subrange(1, n as int) =~= s@.drop_first());
    first.concat(rest)
}

fn substring_upper(c: char) -> (r: String)
    requires
        'a' <= c && c <= 'z',
    ensures
        r@ == seq![upper(c)],
{
    let letters = "ABCDEFGHIJKLMNOPQRSTUVWXYZ";
    proof {
        reveal_strlit("ABCDEFGHIJKLMNOPQRSTUVWXYZ");
    }
    let k = (c as u32 - 'a' as u32) as usize;
    let r = String::from_str(letters.substring_char(k, k + 1));
    assert(letters@.subrange(k as int, k + 1) =~= seq![letters@[k as int]]);
    r
}

/// The publisher of a Bandcamp track page.
#[derive(Clone, Debug)]
pub struct BandcampPublisherSmall {
    pub name: String,
    /// A link whose last part names the genre.
    pub genre: Option<String>,
}

impl BandcampPublisherSmall {
    /// The genre named by the last part of the genre link, capitalised.
    pub fn genre(&self) -> (r: Option<String>)
        ensures
            match self.genre {
                Some(g) => r matches Some(x) && x@ == capitalized(after_last_slash(g@)),
                None => r is None,
            },
    {
        match &self.genre {
            None => None,
            Some(g) => {
                let n = g.unicode_len();
                let mut i: usize = n;
                assert(g@.subrange(0, n as int) =~= g@);
                assert(g@.subrange(n as int, n as int) =~= Seq::<char>::empty());
                assert(g@ + Seq::<char>::empty() =~= g@);
                while i > 0 && g.as_str().get_char(i - 1) != '/'
                    invariant
                        n == g@.len(),
                        i <= n,
                        after_last_slash(g@) == after_last_slash(g@.subrange(0, i as int))
                            + g@.subrange(i as int, n as int),
                    decreases i,
                {
                    proof {
                        let pre = g@.subrange(0, i as int);
                        assert(pre.drop_last() =~= g@.subrange(0, i - 1));
                        assert(g@.subrange(i - 1, n as int) =~= seq![pre.last()] + g@.subrange(i as int, n as int));
                        assert(after_last_slash(pre) =~= after_last_slash(pre.drop_last()).push(pre.last()));
                    }
                    i = i - 1;
                }
                proof {
                    let pre = g@.subrange(0, i as int);
                    if i > 0 {
                        assert(pre.last() == '/');
                    }
                    assert(after_last_slash(pre) =~= Seq::<char>::empty());
                    assert(after_last_slash(g@) =~= g@.subrange(i as int, n as int));
                }
                let last = g.as_str().substring_char(i, n);
                Some(capitalize(last))
            },
        }
    }
}

/// The date that `text` holds in the layout `format`, as chrono's
/// `NaiveDate::parse_from_str` reads it, as (year, month, day).
pub uninterp spec fn parsed_date(text: Seq<char>, format: Seq<char>) -> Option<(int, int, int)>;

/// Relies on chrono's `NaiveDate::parse_from_str` and `Datelike`: the date
/// read, or nothing where the text does not hold one in that layout.
#[verifier::external_body]
fn parse_date(text: &str, format: &str) -> (r: Option<Date>)
    ensures
        match r {
            Some(d) => parsed_date(text@, format@) == Some((d.year as int, d.month as int, d.day as int)),
            None => parsed_date(text@, format@) is None,
        },
{
    chrono::NaiveDate::parse_from_str(text, format).ok().map(
        |d| Date { year: d.year(), month: d.month(), day: d.day() },
    )
}

/// An artist as a Bandcamp track page names it.
#[derive(Clone, Debug)]
pub struct BandcampArtistSmall {
    pub name: String,
}

/// The album of a Bandcamp track page.
#[derive(Clone, Debug)]
pub struct BandcampAlbumSmall {
    pub name: String,
    pub num_tracks: Option<u16>,
    pub id: Option<String>,
    pub by_artist: Option<BandcampArtistSmall>,
}

/// The data of a Bandcamp track page.
#[derive(Clone, Debug)]
pub struct BandcampTrack {
    pub name: String,
    pub description: Option<String>,
    pub duration: Option<String>,
    /// Starts with the day, the abbreviated month and the year, as "05 Mar 2021".
    pub date_published: String,
    pub in_album: BandcampAlbumSmall,
    pub by_artist: BandcampArtistSmall,
    pub publisher: BandcampPublisherSmall,
    pub keywords: Option<Vec<String>>,
    pub image: String,
    pub id: String,
}

/// The first eleven characters (all, where there are fewer).
pub open spec fn date_text(s: Seq<char>) -> Seq<char> {
    if s.len() <= 11 {
        s
    } else {
        s.subrange(0, 11)
    }
}

/// The publication date of a track page.
pub open spec fn published(b: BandcampTrack) -> Option<(int, int, int)> {
    parsed_date(date_text(b.date_published@), "%d %b %Y"@)
}

/// The genre of a track page (see `BandcampPublisherSmall::genre`).
pub open spec fn page_genre(b: BandcampTrack) -> Option<Seq<char>> {
    match b.publisher.genre {
        Some(g) => Some(capitalized(after_last_slash(g@))),
        None => None,
    }
}

/// A keyword counts as a style where it is not the genre (ignoring case) and
/// is a known genre name once lower-cased and trimmed.
pub open spec fn is_style(k: Seq<char>, genre: Option<Seq<char>>, known: Seq<String>) -> bool {
    (match genre {
        Some(g) => lower_of(k) != lower_of(g),
        None => true,
    }) && exists|i: int| 0 <= i < known.len() && known[i]@ == trimmed(lower_of(k))
}

/// How a style is written: " and " becomes " & ", the first letter capitalised.
pub open spec fn style_name(k: Seq<char>) -> Seq<char> {
    capitalized(replaced(k, " and "@, " & "@))
}

/// The styles among the keywords, in order.
pub open spec fn styles_of(keys: Seq<String>, genre: Option<Seq<char>>, known: Seq<String>) -> Seq<Seq<char>>
    decreases keys.len(),
{
    if keys.len() == 0 {
        Seq::empty()
    } else {
        let prev = styles_of(keys.drop_last(), genre, known);
        if is_style(keys.last()@, genre, known) {
            prev.push(style_name(keys.last()@))
        } else {
            prev
        }
    }
}

/// `t` is the track that the page `b` describes, with `known` the known genre names.
pub open spec fn page_track(b: BandcampTrack, known: Seq<String>, t: Track) -> bool {
    &&& t.platform@ == "bandcamp"@
    &&& match published(b) {
        Some((y, m, d)) => t.release_date matches Some(x) && x.year == y && x.month == m && x.day == d
            && t.release_year == Some(x.year),
        None => t.release_date is None && t.release_year is None,
    }
    &&& t.title == b.name
    &&& t.album == Some(b.in_album.name)
    &&& t.artists@.len() == 1
    &&& t.artists@[0] == (match b.in_album.by_artist {
        Some(a) => a.name,
        None => b.by_artist.name,
    })
    &&& t.label == Some(b.publisher.name)
    &&& texts(t.styles@) == styles_of(
        match b.keywords {
            Some(k) => k@,
            None => Seq::empty(),
        },
        page_genre(b),
        known,
    )
    &&& match page_genre(b) {
        Some(g) => t.genres@.len() == 1 && t.genres@[0]@ == g,
        None => t.genres@.len() == 0,
    }
    &&& t.track_id matches Some(x) && x@ == b.id@
    &&& t.url@ == b.id@
    &&& t.release_id == b.in_album.id
    &&& t.track_total == b.in_album.num_tracks
    &&& t.thumbnail matches Some(x) && x@ == replaced(b.image@, "_10."@, "_23."@)
    &&& t.art == Some(b.image)
    &&& t.duration is None
}

fn known_genre(known: &Vec<String>, k: &str) -> (r: bool)
    ensures
        r == exists|i: int| 0 <= i < known@.len() && known@[i]@ == k@,
{
    let mut i: usize = 0;
    while i < known.len()
        invariant
            i <= known@.len(),
            forall|j: int| 0 <= j < i ==> known@[j]@ != k@,
        decreases known.len() - i,
    {
        if str_eq(known[i].as_str(), k) {
            return true;
        }
        i = i + 1;
    }
    false
}

fn style_test(k: &String, genre_lower: &Option<String>, Ghost(genre): Ghost<Option<Seq<char>>>, known: &Vec<String>) -> (r: bool)
    requires
        match genre {
            Some(g) => genre_lower matches Some(x) && x@ == lower_of(g),
            None => genre_lower is None,
        },
    ensures
        r == is_style(k@, genre, known@),
{
    let kl = lowercase(k.as_str());
    let differs = match genre_lower {
        Some(g) => !str_eq(kl.as_str(), g.as_str()),
        None => true,
    };
    if !differs {
        return false;
    }
    let t = trim_text(kl.as_str());
    known_genre(known, t.as_str())
}

impl BandcampTrack {
    /// The publication date read from the first eleven characters of `date_published`.
    pub fn date_published(&self) -> (r: Option<Date>)
        ensures
            match r {
                Some(d) => published(*self) == Some((d.year as int, d.month as int, d.day as int)),
                None => published(*self) is None,
            },
    {
        let n = self.date_published.unicode_len();
        let cut = if n <= 11 {
            n
        } else {
            11
        };
        let d = self.date_published.as_str().substring_char(0, cut);
        assert(n <= 11 ==> self.date_published@.subrange(0, cut as int) =~= self.date_published@);
        parse_date(d, "%d %b %Y")
    }

    /// The track this page describes (see `page_track`); `known` lists the
    /// genre names, in lower case, that count as styles.
    pub fn into_track(self, known: &Vec<String>) -> (t: Track)
        ensures
            page_track(self, known@, t),
    {
        let date = self.date_published();
        let genre = self.publisher.genre();
        let genre_lower = match &genre {
            Some(g) => Some(lowercase(g.as_str())),
            None => None,
        };
        let keys = match self.keywords {
            Some(k) => k,
            None => Vec::new(),
        };
        let ghost gv = page_genre(self);
        let mut styles: Vec<String> = Vec::new();
        let mut i: usize = 0;
        assert(texts(styles@) =~= styles_of(keys@.subrange(0, 0), gv, known@));
        while i < keys.len()
            invariant
                i <= keys@.len(),
                match gv {
                    Some(g) => genre_lower matches Some(x) && x@ == lower_of(g),
                    None => genre_lower is None,
                },
                texts(styles@) == styles_of(keys@.subrange(0, i as int), gv, known@),
            decreases keys.len() - i,
        {
            proof {
                let pre = keys@.subrange(0, i as int + 1);
                assert(pre.drop_last() =~= keys@.subrange(0, i as int));
                assert(pre.last() == keys@[i as int]);
            }
            if style_test(&keys[i], &genre_lower, Ghost(gv), known) {
                proof {
                    reveal_strlit(" and ");
                }
                let r = replace_text(keys[i].as_str(), " and ", " & ");
                let c = capitalize(r.as_str());
                let ghost before = texts(styles@);
                styles.push(c);
                assert(texts(styles@) =~= before.push(style_name(keys@[i as int]@)));
            }
            i = i + 1;
        }
        assert(keys@.subrange(0, i as int) =~= keys@);
        let genres = match genre {
            Some(g) => {
                let mut v: Vec<String> = Vec::new();
                v.push(g);
                v
            },
            None => Vec::new(),
        };
        let artist = match self.in_album.by_artist {
            Some(a) => a.name,
            None => self.by_artist.name,
        };
        let mut artists: Vec<String> = Vec::new();
        artists.push(artist);
        proof {
            reveal_strlit("_10.");
        }
        let thumbnail = replace_text(self.image.as_str(), "_10.", "_23.");
        let mut t = Track::empty(String::from_str("bandcamp"));
        t.release_date = date;
        t.release_year = match date {
            Some(d) => Some(d.year),
            None => None,
        };
        t.title = self.name;
        t.album = Some(self.in_album.name);
        t.artists = artists;
        t.label = Some(self.publisher.name);
        t.styles = styles;
        t.genres = genres;
        t.track_id = Some(self.id.clone());
        t.url = self.id;
        t.release_id = self.in_album.id;
        t.track_total = self.in_album.num_tracks;
        t.thumbnail = Some(thumbnail);
        t.art = Some(self.image);
        t
    }
}

/// Makes Bandcamp sources and describes the platform.
#[derive(Clone, Copy, Debug)]
pub struct BandcampBuilder;

impl BandcampBuilder {
    pub fn new() -> (r: BandcampBuilder) {
        BandcampBuilder
    }

    /// The description of the Bandcamp platform.
    pub fn info(&self) -> (r: PlatformInfo)
        ensures
            r.id@ == "bandcamp"@,
            r.name@ == "Bandcamp"@,
            r.version@ == "1.0.0"@,
            r.max_threads == 4,
            !r.requires_auth,
            r.custom_options@.len() == 1,
            r.custom_options@[0].id@ == "match_artist"@,
            r.custom_options@[0].default,
            r.supported_tags@ == seq![
                SupportedTag::Title,
                SupportedTag::Artist,
                SupportedTag::ReleaseDate,
                SupportedTag::Album,
                SupportedTag::Label,
                SupportedTag::AlbumArt,
                SupportedTag::Style,
                SupportedTag::Genre,
                SupportedTag::TrackId,
                SupportedTag::URL,
                SupportedTag::ReleaseId,
                SupportedTag::TrackTotal,
            ],
    {
        let mut options: Vec<PlatformCustomOption> = Vec::new();
        options.push(
            PlatformCustomOption {
                id: String::from_str("match_artist"),
                label: String::from_str("Match Artist"),
                default: true,
            },
        );
        let tags = vec![
            SupportedTag::Title,
            SupportedTag::Artist,
            SupportedTag::ReleaseDate,
            SupportedTag::Album,
            SupportedTag::Label,
            SupportedTag::AlbumArt,
            SupportedTag::Style,
            SupportedTag::Genre,
            SupportedTag::TrackId,
            SupportedTag::URL,
            SupportedTag::ReleaseId,
            SupportedTag::TrackTotal,
        ];
        PlatformInfo {
            id: String::from_str("bandcamp"),
            name: String::from_str("Bandcamp"),
            description: String::from_str("Specialized in indie artists. Limited amount of tags"),
            version: String::from_str("1.0.0"),
            max_threads: 4,
            custom_options: options,
            requires_auth: false,
            supported_tags: tags,
        }
    }
}

} // verus!
