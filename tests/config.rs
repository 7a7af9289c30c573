use onetagger::bandcamp::{
    page_response_step, search_response_step, BandcampAlbumSmall, BandcampArtistSmall, BandcampPublisherSmall,
    BandcampTrack, ResponseStep,
};
use onetagger::config::{apply_overrides, parse_tags, tag_from_name, ConfigOverrides};
use onetagger::text::split_by;
use onetagger::model::{Date, SupportedTag, TaggerConfig};
use onetagger::pipeline::PlatformGate;

fn s(x: &str) -> String {
    x.to_string()
}

fn base() -> TaggerConfig {
    TaggerConfig {
        path: None,
        include_subfolders: true,
        platforms: vec![s("beatport")],
        tags: vec![SupportedTag::Title],
        strictness: 700,
        threads: 16,
        match_duration: false,
        max_duration_difference: 30,
        match_by_id: false,
        multiplatform: false,
        overwrite: false,
        skip_tagged: false,
        merge_genres: false,
        id3v24: false,
        album_art_file: false,
        camelot: false,
        short_title: false,
        enable_shazam: false,
        force_shazam: false,
        parse_filename: false,
        only_year: false,
        filename_template: None,
        custom: vec![],
    }
}

fn no_overrides() -> ConfigOverrides {
    ConfigOverrides {
        path: s("/music"),
        platforms: None,
        tags: None,
        threads: None,
        strictness: None,
        max_duration_difference: None,
        filename_template: None,
        id3v24: false,
        overwrite: false,
        album_art_file: false,
        merge_genres: false,
        camelot: false,
        short_title: false,
        match_duration: false,
        match_by_id: false,
        enable_shazam: false,
        force_shazam: false,
        skip_tagged: false,
        parse_filename: false,
        only_year: false,
        multiplatform: false,
        no_subfolders: false,
    }
}

#[test]
fn split_by_commas() {
    assert_eq!(split_by("a,b,,c", ','), vec![s("a"), s("b"), s(""), s("c")]);
    assert_eq!(split_by("", ','), vec![s("")]);
    assert_eq!(split_by("one", ','), vec![s("one")]);
}

#[test]
fn tag_names_in_any_case() {
    assert_eq!(tag_from_name("albumArt"), Some(SupportedTag::AlbumArt));
    assert_eq!(tag_from_name("nope"), None);
    assert_eq!(
        parse_tags("title,album-art,release_date,unknown,TrackTotal"),
        vec![SupportedTag::Title, SupportedTag::AlbumArt, SupportedTag::ReleaseDate, SupportedTag::TrackTotal]
    );
}

#[test]
fn overrides_apply() {
    let mut o = no_overrides();
    o.platforms = Some(s("bandcamp,discogs"));
    o.tags = Some(s("genre,style"));
    o.strictness = Some(85);
    o.threads = Some(2);
    o.overwrite = true;
    o.no_subfolders = true;
    o.filename_template = Some(s("%artist% - %title%"));
    let c = apply_overrides(base(), o);
    assert_eq!(c.path, Some(s("/music")));
    assert_eq!(c.platforms, vec![s("bandcamp"), s("discogs")]);
    assert_eq!(c.tags, vec![SupportedTag::Genre, SupportedTag::Style]);
    assert_eq!(c.strictness, 850);
    assert_eq!(c.threads, 2);
    assert!(c.overwrite);
    assert!(!c.include_subfolders);
    assert_eq!(c.filename_template, Some(s("%artist% - %title%")));
}

#[test]
fn out_of_range_strictness_is_ignored() {
    let mut o = no_overrides();
    o.strictness = Some(101);
    let c = apply_overrides(base(), o);
    assert_eq!(c.strictness, 700);
    assert_eq!(c.platforms, vec![s("beatport")]);
    assert_eq!(c.tags, vec![SupportedTag::Title]);
    assert!(c.include_subfolders);
    let mut o = no_overrides();
    o.strictness = Some(100);
    assert_eq!(apply_overrides(base(), o).strictness, 1000);
}

#[test]
fn auth_failure_reported_once() {
    let mut g = PlatformGate::new(2);
    assert!(!g.is_excluded(1));
    assert!(g.auth_failed(1));
    assert!(!g.auth_failed(1));
    assert!(g.is_excluded(1));
    assert!(!g.is_excluded(0));
}

#[test]
fn rate_limit_steps() {
    assert_eq!(search_response_step(200), ResponseStep::Read);
    assert_eq!(search_response_step(429), ResponseStep::WaitAndRetry(3000));
    assert_eq!(search_response_step(500), ResponseStep::WaitAndRetry(3000));
    assert_eq!(page_response_step(404), ResponseStep::WaitAndRetry(3000));
    assert_eq!(page_response_step(200), ResponseStep::Read);
    assert_eq!(page_response_step(503), ResponseStep::Read);
}

fn page() -> BandcampTrack {
    BandcampTrack {
        name: s("Song"),
        description: None,
        duration: Some(s("P00H04M10S")),
        date_published: s("05 Mar 2021 00:00:00 GMT"),
        in_album: BandcampAlbumSmall {
            name: s("Album"),
            num_tracks: Some(9),
            id: Some(s("https://x.bandcamp.com/album/a")),
            by_artist: Some(BandcampArtistSmall { name: s("Album Artist") }),
        },
        by_artist: BandcampArtistSmall { name: s("Track Artist") },
        publisher: BandcampPublisherSmall { name: s("Label"), genre: Some(s("https://bandcamp.com/tag/electronic")) },
        keywords: Some(vec![s("Electronic"), s("drum and bass"), s("berlin"), s(" Techno ")]),
        image: s("https://f4.bcbits.com/img/a1_10.jpg"),
        id: s("https://x.bandcamp.com/track/song"),
    }
}

#[test]
fn track_page_date() {
    assert_eq!(page().date_published(), Some(Date { year: 2021, month: 3, day: 5 }));
    let mut p = page();
    p.date_published = s("not a date");
    assert_eq!(p.date_published(), None);
}

#[test]
fn track_page_becomes_track() {
    let known = vec![s("electronic"), s("drum and bass"), s("techno")];
    let t = page().into_track(&known);
    assert_eq!(t.platform, "bandcamp");
    assert_eq!(t.title, "Song");
    assert_eq!(t.album, Some(s("Album")));
    assert_eq!(t.artists, vec![s("Album Artist")]);
    assert_eq!(t.label, Some(s("Label")));
    assert_eq!(t.genres, vec![s("Electronic")]);
    assert_eq!(t.styles, vec![s("Drum & bass"), s(" Techno ")]);
    assert_eq!(t.release_year, Some(2021));
    assert_eq!(t.release_date, Some(Date { year: 2021, month: 3, day: 5 }));
    assert_eq!(t.track_id, Some(s("https://x.bandcamp.com/track/song")));
    assert_eq!(t.url, "https://x.bandcamp.com/track/song");
    assert_eq!(t.track_total, Some(9));
    assert_eq!(t.thumbnail, Some(s("https://f4.bcbits.com/img/a1_23.jpg")));
    assert_eq!(t.art, Some(s("https://f4.bcbits.com/img/a1_10.jpg")));
}
