use vstd::prelude::*;
use convert_case::Casing;
use crate::model::{SupportedTag, TaggerConfig};
use crate::text::{split_by, split_on, str_eq, texts};

verus! {

/// The text in lower camel case, as convert_case writes it.
pub uninterp spec fn camel_of(s: Seq<char>) -> Seq<char>;

/// Relies on convert_case's `Casing::to_case` with `Case::Camel`: the result
/// depends on the text alone.
#[verifier::external_body]
fn camel_case(s: &str) -> (r: String)
    ensures
        r@ == camel_of(s@),
{
    s.to_case(convert_case::Case::Camel)
}

/// The tag a camel-case name stands for.
pub open spec fn tag_named(name: Seq<char>) -> Option<SupportedTag> {
    if name == "title"@ {
        Some(SupportedTag::Title)
    } else if name == "artist"@ {
        Some(SupportedTag::Artist)
    } else if name == "album"@ {
        Some(SupportedTag::Album)
    } else if name == "label"@ {
        Some(SupportedTag::Label)
    } else if name == "genre"@ {
        Some(SupportedTag::Genre)
    } else if name == "style"@ {
        Some(SupportedTag::Style)
    } else if name == "releaseDate"@ {
        Some(SupportedTag::ReleaseDate)
    } else if name == "albumArt"@ {
        Some(SupportedTag::AlbumArt)
    } else if name == "trackId"@ {
        Some(SupportedTag::TrackId)
    } else if name == "releaseId"@ {
        Some(SupportedTag::ReleaseId)
    } else if name == "url"@ {
        Some(SupportedTag::URL)
    } else if name == "trackTotal"@ {
        Some(SupportedTag::TrackTotal)
    } else {
        None
    }
}

/// The tag a camel-case name stands for (see `tag_named`).
pub fn tag_from_name(name: &str) -> (r: Option<SupportedTag>)
    ensures
        r == tag_named(name@),
{
    if str_eq(name, "title") {
        Some(SupportedTag::Title)
    } else if str_eq(name, "artist") {
        Some(SupportedTag::Artist)
    } else if str_eq(name, "album") {
        Some(SupportedTag::Album)
    } else if str_eq(name, "label") {
        Some(SupportedTag::Label)
    } else if str_eq(name, "genre") {
        Some(SupportedTag::Genre)
    } else if str_eq(name, "style") {
        Some(SupportedTag::Style)
    } else if str_eq(name, "releaseDate") {
        Some(SupportedTag::ReleaseDate)
    } else if str_eq(name, "albumArt") {
        Some(SupportedTag::AlbumArt)
    } else if str_eq(name, "trackId") {
        Some(SupportedTag::TrackId)
    } else if str_eq(name, "releaseId") {
        Some(SupportedTag::ReleaseId)
    } else if str_eq(name, "url") {
        Some(SupportedTag::URL)
    } else if str_eq(name, "trackTotal") {
        Some(SupportedTag::TrackTotal)
    } else {
        None
    }
}

/// The tags named in a list of names, in camel case, in order; unknown names are left out.
pub open spec fn tags_named(names: Seq<Seq<char>>) -> Seq<SupportedTag>
    decreases names.len(),
{
    if names.len() == 0 {
        Seq::empty()
    } else {
        let prev = tags_named(names.drop_last());
        match tag_named(names.last()) {
            Some(t) => prev.push(t),
            None => prev,
        }
    }
}

/// The camel-case forms of the names.
pub open spec fn camels(names: Seq<Seq<char>>) -> Seq<Seq<char>> {
    names.map_values(|n: Seq<char>| camel_of(n))
}

/// The tags of a comma-separated list of names in any case (see `tags_named`).
pub fn parse_tags(list: &str) -> (r: Vec<SupportedTag>)
    ensures
        r@ == tags_named(camels(split_on(list@, ','))),
{
    let names = split_by(list, ',');
    let ghost all = camels(texts(names@));
    let mut r: Vec<SupportedTag> = Vec::new();
    let mut i: usize = 0;
    assert(all.subrange(0, 0) =~= Seq::<Seq<char>>::empty());
    while i < names.len()
        invariant
            i <= names@.len(),
            all == camels(texts(names@)),
            r@ == tags_named(all.subrange(0, i as int)),
        decreases names.len() - i,
    {
        let camel = camel_case(names[i].as_str());
        proof {
            let pre = all.subrange(0, i as int + 1);
            assert(pre.drop_last() =~= all.subrange(0, i as int));
            assert(pre.last() == camel@);
        }
        match tag_from_name(camel.as_str()) {
            Some(t) => r.push(t),
            None => {},
        }
        i = i + 1;
    }
    assert(all.subrange(0, i as int) =~= all);
    r
}

/// What the command line sets on top of a loaded configuration.
/// `strictness` is in percent; a switch that is off leaves the loaded value.
#[derive(Clone, Debug)]
pub struct ConfigOverrides {
    pub path: String,
    pub platforms: Option<String>,
    pub tags: Option<String>,
    pub threads: Option<u64>,
    pub strictness: Option<u8>,
    pub max_duration_difference: Option<u64>,
    pub filename_template: Option<String>,
    pub id3v24: bool,
    pub overwrite: bool,
    pub album_art_file: bool,
    pub merge_genres: bool,
    pub camelot: bool,
    pub short_title: bool,
    pub match_duration: bool,
    pub match_by_id: bool,
    pub enable_shazam: bool,
    pub force_shazam: bool,
    pub skip_tagged: bool,
    pub parse_filename: bool,
    pub only_year: bool,
    pub multiplatform: bool,
    pub no_subfolders: bool,
}

/// The configuration with the command line applied: the path is set; a
/// platform list and a tag list replace the loaded ones; each switch that is
/// on turns its option on; threads, the duration difference and the filename
/// template replace the loaded values where given; a strictness of at most
/// 100 percent replaces the loaded one (in thousandths), a larger one is
/// ignored; "no subfolders" turns subfolders off.
pub fn apply_overrides(config: TaggerConfig, o: ConfigOverrides) -> (r: TaggerConfig)
    ensures
        r.path matches Some(p) && p == o.path,
        match o.platforms {
            Some(p) => texts(r.platforms@) == split_on(p@, ','),
            None => r.platforms == config.platforms,
        },
        match o.tags {
            Some(t) => r.tags@ == tags_named(camels(split_on(t@, ','))),
            None => r.tags == config.tags,
        },
        r.id3v24 == (config.id3v24 || o.id3v24),
        r.overwrite == (config.overwrite || o.overwrite),
        r.album_art_file == (config.album_art_file || o.album_art_file),
        r.merge_genres == (config.merge_genres || o.merge_genres),
        r.camelot == (config.camelot || o.camelot),
        r.short_title == (config.short_title || o.short_title),
        r.match_duration == (config.match_duration || o.match_duration),
        r.match_by_id == (config.match_by_id || o.match_by_id),
        r.enable_shazam == (config.enable_shazam || o.enable_shazam),
        r.force_shazam == (config.force_shazam || o.force_shazam),
        r.skip_tagged == (config.skip_tagged || o.skip_tagged),
        r.parse_filename == (config.parse_filename || o.parse_filename),
        r.only_year == (config.only_year || o.only_year),
        r.multiplatform == (config.multiplatform || o.multiplatform),
        r.threads == (match o.threads {
            Some(t) => t,
            None => config.threads,
        }),
        r.strictness == (match o.strictness {
            Some(p) => if p <= 100 {
                p as int * 10
            } else {
                config.strictness as int
            },
            None => config.strictness as int,
        }),
        r.max_duration_difference == (match o.max_duration_difference {
            Some(d) => d,
            None => config.max_duration_difference,
        }),
        r.filename_template == (match o.filename_template {
            Some(t) => Some(t),
            None => config.filename_template,
        }),
        r.include_subfolders == (config.include_subfolders && !o.no_subfolders),
        r.custom == config.custom,
{
    let platforms = match &o.platforms {
        Some(p) => split_by(p.as_str(), ','),
        None => config.platforms,
    };
    let tags = match &o.tags {
        Some(t) => parse_tags(t.as_str()),
        None => config.tags,
    };
    let threads = match o.threads {
        Some(t) => t,
        None => config.threads,
    };
    let strictness = match o.strictness {
        Some(p) => if p <= 100 {
            p as u64 * 10
        } else {
            config.strictness
        },
        None => config.strictness,
    };
    let max_duration_difference = match o.max_duration_difference {
        Some(d) => d,
        None => config.max_duration_difference,
    };
    let filename_template = match o.filename_template {
        Some(t) => Some(t),
        None => config.filename_template,
    };
    TaggerConfig {
        path: Some(o.path),
        include_subfolders: config.include_subfolders && !o.no_subfolders,
        platforms,
        tags,
        strictness,
        threads,
        match_duration: config.match_duration || o.match_duration,
        max_duration_difference,
        match_by_id: config.match_by_id || o.match_by_id,
        multiplatform: config.multiplatform || o.multiplatform,
        overwrite: config.overwrite || o.overwrite,
        skip_tagged: config.skip_tagged || o.skip_tagged,
        merge_genres: config.merge_genres || o.merge_genres,
        id3v24: config.id3v24 || o.id3v24,
        album_art_file: config.album_art_file || o.album_art_file,
        camelot: config.camelot || o.camelot,
        short_title: config.short_title || o.short_title,
        enable_shazam: config.enable_shazam || o.enable_shazam,
        force_shazam: config.force_shazam || o.force_shazam,
        parse_filename: config.parse_filename || o.parse_filename,
        only_year: config.only_year || o.only_year,
        filename_template,
        custom: config.custom,
    }
}

} // verus!
