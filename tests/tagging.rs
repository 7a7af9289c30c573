use onetagger::bandcamp::{BandcampBuilder, BandcampPublisherSmall, BandcampSearchResult, capitalize, match_results, search_query};
use onetagger::matching::{match_tracks, similarity_of, words_of};
use onetagger::model::{AudioFileInfo, CustomOption, PlatformId, SupportedTag, TaggerConfig, Track};
use onetagger::pipeline::{run_file, Action, FileRun, Outcome, Phase, Scheduler, TaggingStatus};
use onetagger::tagging::{best_confidence, custom_flag, merge_tracks, prepare_info, should_skip, split_artist_title};
use onetagger::writer::{merge_genre_lists, write_tags, FileTags};

fn s(x: &str) -> String {
    x.to_string()
}

pub fn config(strictness: u64) -> TaggerConfig {
    TaggerConfig {
        path: None,
        include_subfolders: true,
        platforms: vec![s("p1")],
        tags: vec![SupportedTag::Title, SupportedTag::Artist, SupportedTag::Album, SupportedTag::Genre],
        strictness,
        threads: 4,
        match_duration: true,
        max_duration_difference: 30,
        match_by_id: false,
        multiplatform: false,
        overwrite: false,
        skip_tagged: true,
        merge_genres: false,
        id3v24: true,
        album_art_file: false,
        camelot: false,
        short_title: false,
        enable_shazam: false,
        force_shazam: false,
        parse_filename: false,
        only_year: false,
        filename_template: None,
        custom: vec![],
    }
}

fn file(title: &str, artists: &[&str], duration: Option<u64>) -> AudioFileInfo {
    AudioFileInfo {
        path: s("track01.mp3"),
        title: Some(s(title)),
        artists: artists.iter().map(|a| s(a)).collect(),
        duration,
        ids: vec![],
        tagged: false,
    }
}

fn track(platform: &str, title: &str, artists: &[&str], duration: Option<u64>) -> Track {
    let mut t = Track::empty(s(platform));
    t.title = s(title);
    t.artists = artists.iter().map(|a| s(a)).collect();
    t.duration = duration;
    t
}

fn chars(x: &str) -> Vec<char> {
    x.chars().collect()
}

#[test]
fn words_are_lowercased_and_brackets_stripped() {
    let w = words_of(&chars("Song (Original Mix) [feat. X] Two"), true);
    assert_eq!(w, vec![chars("song"), chars("two")]);
    let w = words_of(&chars("Song (Original Mix)"), false);
    assert_eq!(w, vec![chars("song"), chars("original"), chars("mix")]);
    assert!(words_of(&chars(""), true).is_empty());
}

#[test]
fn similarity_values() {
    let a = words_of(&chars("one two"), true);
    let b = words_of(&chars("one three"), true);
    assert_eq!(similarity_of(&a, &b), 500);
    assert_eq!(similarity_of(&a, &a), 1000);
    let e: Vec<Vec<char>> = vec![];
    assert_eq!(similarity_of(&e, &e), 0);
    assert_eq!(similarity_of(&a, &e), 0);
}

#[test]
fn matches_sorted_by_confidence_stably() {
    let info = file("Song", &["Artist"], None);
    let c = config(800);
    let cands = vec![
        track("p1", "Other", &["Artist"], None),
        track("p1", "Song", &["Someone"], None),
        track("p1", "Song", &["Artist"], None),
        track("p1", "Song", &["Nobody"], None),
    ];
    let r = match_tracks(&info, cands, &c, false);
    let got: Vec<(u64, String, String)> =
        r.iter().map(|m| (m.accuracy, m.track.title.clone(), m.track.artists[0].clone())).collect();
    assert_eq!(
        got,
        vec![
            (1000, s("Song"), s("Artist")),
            (900, s("Song"), s("Someone")),
            (900, s("Song"), s("Nobody")),
            (100, s("Other"), s("Artist")),
        ]
    );
}

#[test]
fn empty_candidates_give_empty_matches() {
    let info = file("Song", &["Artist"], None);
    assert!(match_tracks(&info, vec![], &config(800), false).is_empty());
}

#[test]
fn artist_requirement_excludes() {
    let info = file("Song", &["Artist"], None);
    let cands = vec![track("p1", "Song", &["Someone"], None), track("p1", "Song", &["ARTIST"], None)];
    let r = match_tracks(&info, cands, &config(0), true);
    assert_eq!(r.len(), 1);
    assert_eq!(r[0].track.artists[0], "ARTIST");
    assert_eq!(r[0].accuracy, 1000);
}

#[test]
fn duration_filter_excludes_far_candidates() {
    let info = file("Song", &["Artist"], Some(300));
    let cands = vec![
        track("p1", "Song", &["Artist"], Some(331)),
        track("p1", "Song", &["Artist"], Some(330)),
        track("p1", "Song", &["Artist"], None),
    ];
    let r = match_tracks(&info, cands, &config(0), false);
    assert_eq!(r.len(), 2);
    assert_eq!(r[0].track.duration, Some(330));
    assert_eq!(r[1].track.duration, None);
    let mut off = config(0);
    off.match_duration = false;
    let cands = vec![track("p1", "Song", &["Artist"], Some(900))];
    assert_eq!(match_tracks(&info, cands, &off, false).len(), 1);
}

#[test]
fn id_fast_path_returns_one_full_match() {
    let mut info = file("Completely different", &["Nobody"], None);
    info.ids = vec![PlatformId { platform: s("p1"), id: s("42") }];
    let mut c = config(800);
    c.match_by_id = true;
    let mut a = track("p1", "Song", &["Artist"], None);
    a.track_id = Some(s("41"));
    let mut b = track("p1", "Unrelated", &["X"], None);
    b.track_id = Some(s("42"));
    let r = match_tracks(&info, vec![a, b], &c, true);
    assert_eq!(r.len(), 1);
    assert_eq!(r[0].accuracy, 1000);
    assert_eq!(r[0].track.track_id, Some(s("42")));
}

#[test]
fn matching_is_deterministic() {
    let info = file("Song", &["Artist"], None);
    let make = || vec![track("p1", "Song", &["A"], None), track("p1", "Song x", &["Artist"], None)];
    let r1 = match_tracks(&info, make(), &config(0), false);
    let r2 = match_tracks(&info, make(), &config(0), false);
    let v1: Vec<(u64, String)> = r1.iter().map(|m| (m.accuracy, m.track.title.clone())).collect();
    let v2: Vec<(u64, String)> = r2.iter().map(|m| (m.accuracy, m.track.title.clone())).collect();
    assert_eq!(v1, v2);
}

/// Drives one file through the state machine against one platform answering `cands`.
fn tag_one(info: AudioFileInfo, cands: Vec<Track>, c: &TaggerConfig, tags: FileTags) -> (Outcome, Option<String>, FileTags) {
    let info = prepare_info(info);
    let mut run = FileRun::new(c.platforms.len(), c.strictness, c.multiplatform);
    let mut action = run.start(should_skip(&info, c));
    let mut chosen = None;
    let mut tags = Some(tags);
    let mut written = None;
    let mut pending = Some(cands);
    loop {
        match action {
            Action::Query(_) => {
                let m = match_tracks(&info, pending.take().unwrap_or_default(), c, false);
                let best = best_confidence(&m);
                chosen = m.into_iter().next();
                action = run.searched(best);
            }
            Action::Extend(_) => action = run.extended(true),
            Action::Write => {
                let t = chosen.take().unwrap().track;
                written = Some(write_tags(tags.take().unwrap(), t, c));
                action = run.written(true);
            }
            Action::Finish(o) => {
                let platform = if o == Outcome::Done { Some(c.platforms[0].clone()) } else { None };
                return (o, platform, written.or(tags).unwrap());
            }
        }
    }
}

#[test]
fn scenario_match_is_written() {
    let c = config(800);
    let info = file("Artist - Song (Original Mix)", &[], Some(300));
    let mut cand = track("p1", "Song (Original Mix)", &["Artist"], Some(302));
    cand.album = Some(s("The Album"));
    let (outcome, platform, tags) = tag_one(info, vec![cand], &c, FileTags::empty());
    assert_eq!(outcome, Outcome::Done);
    assert_eq!(platform, Some(s("p1")));
    assert_eq!(tags.title, Some(s("Song (Original Mix)")));
    assert_eq!(tags.artists, vec![s("Artist")]);
    assert_eq!(tags.album, Some(s("The Album")));
    assert!(tags.tagged);

    let mut sched = Scheduler::new(1);
    let f = sched.take_next().unwrap();
    sched.finish(TaggingStatus { file: f, outcome, platform, message: s("ok") });
    assert!(sched.is_finished());
    assert_eq!(sched.statuses.len(), 1);
    assert_eq!(sched.statuses[0].outcome, Outcome::Done);
    assert_eq!(sched.statuses[0].platform, Some(s("p1")));
}

#[test]
fn scenario_below_strictness_is_not_written() {
    let c = config(950);
    let info = file("Artist - Song (Original Mix)", &[], Some(300));
    let cand = track("p1", "Song (Original Mix)", &["Somebody Else"], Some(302));
    let (outcome, platform, tags) = tag_one(info, vec![cand], &c, FileTags::empty());
    assert_eq!(outcome, Outcome::Skipped);
    assert_eq!(platform, None);
    assert_eq!(tags.title, None);
    assert!(tags.artists.is_empty());
    assert!(!tags.tagged);
}

#[test]
fn strictness_is_inclusive_and_monotone() {
    let bests = vec![Some(900), None];
    assert_eq!(run_file(false, &bests, 900, false, true, true), Outcome::Done);
    assert_eq!(run_file(false, &bests, 901, false, true, true), Outcome::Skipped);
    assert_eq!(run_file(false, &bests, 500, false, true, true), Outcome::Done);
    assert_eq!(run_file(false, &bests, 500, false, false, true), Outcome::Failed);
    assert_eq!(run_file(false, &bests, 500, false, true, false), Outcome::Failed);
    assert_eq!(run_file(true, &bests, 500, false, true, true), Outcome::Skipped);
    assert_eq!(run_file(false, &vec![], 0, false, true, true), Outcome::Skipped);
}

#[test]
fn fallback_stops_at_first_acceptable_platform() {
    let mut run = FileRun::new(3, 800, false);
    assert_eq!(run.start(false), Action::Query(0));
    assert_eq!(run.searched(Some(500)), Action::Query(1));
    assert_eq!(run.searched(Some(800)), Action::Extend(1));
    assert_eq!(run.phase, Phase::Extending);
}

#[test]
fn multiplatform_asks_every_platform() {
    let mut run = FileRun::new(3, 800, true);
    assert_eq!(run.start(false), Action::Query(0));
    assert_eq!(run.searched(Some(900)), Action::Query(1));
    assert_eq!(run.searched(None), Action::Query(2));
    assert_eq!(run.searched(Some(850)), Action::Extend(0));
    assert_eq!(run.accepted, vec![0, 2]);
}

#[test]
fn second_run_skips_tagged_files() {
    let c = config(800);
    let info = file("Artist - Song", &[], None);
    let (o1, _, tags) = tag_one(info, vec![track("p1", "Song", &["Artist"], None)], &c, FileTags::empty());
    assert_eq!(o1, Outcome::Done);
    let mut again = file("Artist - Song", &[], None);
    again.tagged = tags.tagged;
    let (o2, _, _) = tag_one(again, vec![track("p1", "Song", &["Artist"], None)], &c, tags);
    assert_eq!(o2, Outcome::Skipped);
}

#[test]
fn scheduler_reports_each_file_once() {
    let mut sched = Scheduler::new(3);
    let mut taken = vec![];
    while let Some(f) = sched.take_next() {
        taken.push(f);
    }
    assert_eq!(taken, vec![0, 1, 2]);
    assert_eq!(sched.in_flight(), 3);
    for f in [2, 0, 1] {
        sched.finish(TaggingStatus { file: f, outcome: Outcome::Skipped, platform: None, message: s("") });
    }
    assert!(sched.is_finished());
    assert_eq!(sched.statuses.len(), 3);
    let sum = sched.summary();
    assert_eq!((sum.done, sum.failed, sum.skipped), (0, 0, 3));
}

#[test]
fn cancellation_stops_handing_out_files() {
    let mut sched = Scheduler::new(5);
    let a = sched.take_next().unwrap();
    let _b = sched.take_next().unwrap();
    sched.cancel();
    assert_eq!(sched.take_next(), None);
    assert_eq!(sched.next, 2);
    assert_eq!(sched.in_flight(), 2);
    sched.finish(TaggingStatus { file: a, outcome: Outcome::Done, platform: None, message: s("") });
    assert!(!sched.is_finished());
    assert_eq!(sched.take_next(), None);
    sched.finish(TaggingStatus { file: 1, outcome: Outcome::Failed, platform: None, message: s("") });
    assert!(sched.is_finished());
    let sum = sched.summary();
    assert_eq!((sum.done, sum.failed, sum.skipped), (1, 1, 0));
}

#[test]
fn split_and_prepare() {
    assert_eq!(split_artist_title("A - B - C"), Some((s("A"), s("B - C"))));
    assert_eq!(split_artist_title("A-B"), None);
    let p = prepare_info(file("X - Y", &["Z"], None));
    assert_eq!(p.title, Some(s("X - Y")));
    assert_eq!(p.artists, vec![s("Z")]);
}

#[test]
fn skip_rules() {
    let mut c = config(800);
    let mut f = file("Song", &[], None);
    assert!(!should_skip(&f, &c));
    f.tagged = true;
    assert!(should_skip(&f, &c));
    c.skip_tagged = false;
    assert!(!should_skip(&f, &c));
    let empty = file("(Remix)", &[], None);
    assert!(should_skip(&empty, &c));
}

#[test]
fn merge_prefers_earlier_platform_unless_empty() {
    let mut a = track("p1", "Song", &[], None);
    a.album = Some(s(""));
    a.label = Some(s("L1"));
    let mut b = track("p2", "Other", &["B"], Some(10));
    b.album = Some(s("Album B"));
    b.label = Some(s("L2"));
    let m = merge_tracks(a, b);
    assert_eq!(m.platform, "p1");
    assert_eq!(m.title, "Song");
    assert_eq!(m.artists, vec![s("B")]);
    assert_eq!(m.album, Some(s("Album B")));
    assert_eq!(m.label, Some(s("L1")));
    assert_eq!(m.duration, Some(10));
}

#[test]
fn writer_respects_overwrite_and_merges_genres() {
    let mut c = config(800);
    let mut existing = FileTags::empty();
    existing.title = Some(s("Old"));
    existing.genres = vec![s("House")];
    let mut t = track("p1", "New", &["Artist"], None);
    t.genres = vec![s("Techno"), s("House"), s("Techno")];
    t.label = Some(s("Label"));
    let r = write_tags(existing, t, &c);
    assert_eq!(r.title, Some(s("Old")));
    assert_eq!(r.artists, vec![s("Artist")]);
    assert_eq!(r.genres, vec![s("House")]);
    assert_eq!(r.label, None);
    assert!(r.tagged);

    c.overwrite = true;
    c.merge_genres = true;
    let mut existing = FileTags::empty();
    existing.title = Some(s("Old"));
    existing.genres = vec![s("House")];
    let mut t = track("p1", "New", &["Artist"], None);
    t.genres = vec![s("Techno"), s("House"), s("Techno")];
    let r = write_tags(existing, t, &c);
    assert_eq!(r.title, Some(s("New")));
    assert_eq!(r.genres, vec![s("House"), s("Techno")]);
    assert_eq!(merge_genre_lists(vec![], vec![s("A"), s("A")]), vec![s("A")]);
}

#[test]
fn custom_flags() {
    let mut c = config(800);
    assert!(custom_flag(&c, "bandcamp", "match_artist", true));
    c.custom = vec![
        CustomOption { platform: s("bandcamp"), key: s("match_artist"), value: false },
        CustomOption { platform: s("bandcamp"), key: s("match_artist"), value: true },
    ];
    assert!(!custom_flag(&c, "bandcamp", "match_artist", true));
    assert!(custom_flag(&c, "other", "match_artist", true));
}

#[test]
fn bandcamp_search_result_becomes_track() {
    let r = BandcampSearchResult {
        id: 12345,
        album_id: Some(-7),
        band_id: 1,
        band_name: s("Band"),
        album_name: Some(s("Album")),
        name: s("Name"),
        item_url_path: s("https://band.bandcamp.com/track/name"),
    };
    let t = r.into_track();
    assert_eq!(t.platform, "bandcamp");
    assert_eq!(t.track_id, Some(s("12345")));
    assert_eq!(t.release_id, Some(s("-7")));
    assert_eq!(t.title, "Name");
    assert_eq!(t.artists, vec![s("Band")]);
    assert_eq!(t.url, "https://band.bandcamp.com/track/name");
}

#[test]
fn bandcamp_query_and_match() {
    let info = file("Song (Original Mix)", &["Artist"], None);
    assert_eq!(search_query(&info), Some(s("Artist Song")));
    assert_eq!(search_query(&file("Song", &[], None)), None);
    let results = vec![
        BandcampSearchResult { id: 1, album_id: None, band_id: 1, band_name: s("Other"), album_name: None, name: s("Song"), item_url_path: s("u1") },
        BandcampSearchResult { id: 2, album_id: None, band_id: 2, band_name: s("Artist"), album_name: None, name: s("Song"), item_url_path: s("u2") },
    ];
    let m = match_results(&info, results, &config(0));
    assert_eq!(m.len(), 1);
    assert_eq!(m[0].track.url, "u2");
}

#[test]
fn bandcamp_genre_and_info() {
    let p = BandcampPublisherSmall { name: s("Label"), genre: Some(s("https://bandcamp.com/tag/electronic")) };
    assert_eq!(p.genre(), Some(s("Electronic")));
    let p = BandcampPublisherSmall { name: s("Label"), genre: None };
    assert_eq!(p.genre(), None);
    assert_eq!(capitalize("ambient"), "Ambient");
    assert_eq!(capitalize(""), "");
    let info = BandcampBuilder::new().info();
    assert_eq!(info.id, "bandcamp");
    assert_eq!(info.max_threads, 4);
    assert_eq!(info.supported_tags.len(), 12);
}
