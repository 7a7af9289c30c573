use vstd::prelude::*;

verus! {

/// A tag field that a platform can supply and the writer can store.
#[derive(Clone, Copy, Debug, PartialEq, Eq, Structural)]
pub enum SupportedTag {
    Title,
    Artist,
    Album,
    Label,
    Genre,
    Style,
    ReleaseDate,
    AlbumArt,
    TrackId,
    ReleaseId,
    URL,
    TrackTotal,
}

/// An identifier that a platform gave to a file in an earlier run.
#[derive(Clone, Debug)]
pub struct PlatformId {
    pub platform: String,
    pub id: String,
}

/// What is known of one audio file before it is matched.
/// Durations are in whole seconds.
#[derive(Clone, Debug)]
pub struct AudioFileInfo {
    pub path: String,
    pub title: Option<String>,
    pub artists: Vec<String>,
    pub duration: Option<u64>,
    pub ids: Vec<PlatformId>,
    pub tagged: bool,
}

/// A calendar date.
#[derive(Clone, Copy, Debug, PartialEq, Eq, Structural)]
pub struct Date {
    pub year: i32,
    pub month: u32,
    pub day: u32,
}

/// A candidate track returned by a platform.
#[derive(Clone, Debug)]
pub struct Track {
    pub platform: String,
    pub track_id: Option<String>,
    pub release_id: Option<String>,
    pub title: String,
    pub artists: Vec<String>,
    pub album: Option<String>,
    pub label: Option<String>,
    pub genres: Vec<String>,
    pub styles: Vec<String>,
    pub release_year: Option<i32>,
    pub release_date: Option<Date>,
    pub duration: Option<u64>,
    pub art: Option<String>,
    pub thumbnail: Option<String>,
    pub url: String,
    pub track_total: Option<u16>,
}

/// A candidate with its confidence, in thousandths (0 to 1000).
#[derive(Debug)]
pub struct TrackMatch {
    pub accuracy: u64,
    pub track: Track,
}

/// A boolean option of one platform, by platform id and option id.
#[derive(Clone, Debug)]
pub struct CustomOption {
    pub platform: String,
    pub key: String,
    pub value: bool,
}

/// The configuration of one tagging run. `strictness` is in thousandths.
#[derive(Clone, Debug)]
pub struct TaggerConfig {
    pub path: Option<String>,
    pub include_subfolders: bool,
    pub platforms: Vec<String>,
    pub tags: Vec<SupportedTag>,
    pub strictness: u64,
    pub threads: u64,
    pub match_duration: bool,
    pub max_duration_difference: u64,
    pub match_by_id: bool,
    pub multiplatform: bool,
    pub overwrite: bool,
    pub skip_tagged: bool,
    pub merge_genres: bool,
    pub id3v24: bool,
    pub album_art_file: bool,
    pub camelot: bool,
    pub short_title: bool,
    pub enable_shazam: bool,
    pub force_shazam: bool,
    pub parse_filename: bool,
    pub only_year: bool,
    pub filename_template: Option<String>,
    pub custom: Vec<CustomOption>,
}

/// A boolean option that a platform declares, with its default.
#[derive(Clone, Debug)]
pub struct PlatformCustomOption {
    pub id: String,
    pub label: String,
    pub default: bool,
}

/// The static description of a platform.
#[derive(Clone, Debug)]
pub struct PlatformInfo {
    pub id: String,
    pub name: String,
    pub description: String,
    pub version: String,
    /// How many requests the platform tolerates at once.
    pub max_threads: u16,
    pub custom_options: Vec<PlatformCustomOption>,
    pub requires_auth: bool,
    pub supported_tags: Vec<SupportedTag>,
}

impl Track {
    /// A track of `platform` with every other field empty.
    pub fn empty(platform: String) -> (r: Track)
        ensures
            r.platform == platform,
            r.track_id is None,
            r.release_id is None,
            r.title@.len() == 0,
            r.artists@.len() == 0,
            r.album is None,
            r.label is None,
            r.genres@.len() == 0,
            r.styles@.len() == 0,
            r.release_year is None,
            r.release_date is None,
            r.duration is None,
            r.art is None,
            r.thumbnail is None,
            r.url@.len() == 0,
            r.track_total is None,
    {
        Track {
            platform,
            track_id: None,
            release_id: None,
            title: String::new(),
            artists: Vec::new(),
            album: None,
            label: None,
            genres: Vec::new(),
            styles: Vec::new(),
            release_year: None,
            release_date: None,
            duration: None,
            art: None,
            thumbnail: None,
            url: String::new(),
            track_total: None,
        }
    }
}

} // verus!
