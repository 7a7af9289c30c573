use onetagger::page_info::{
    channel_target, extract_description_from_html, extract_video_count_from_html, get_url_info, parse_u32,
    soundcloud_page_info, spotify_page_info, youtube_content_type,
};
use onetagger::songdownloader::QueryError;

fn s(x: &str) -> String {
    x.to_string()
}

#[test]
fn page_reader_by_url() {
    assert_eq!(get_url_info("https://www.youtube.com/watch?v=a"), Ok("youtube"));
    assert_eq!(get_url_info("https://youtu.be/a"), Ok("youtube"));
    assert_eq!(get_url_info("https://open.spotify.com/track/a"), Ok("spotify"));
    assert_eq!(get_url_info("https://soundcloud.com/a"), Ok("soundcloud"));
    assert_eq!(get_url_info("https://example.com"), Err(QueryError::UnsupportedPlatform));
}

#[test]
fn spotify_pages() {
    let i = spotify_page_info("https://open.spotify.com/album/1", Some(s("Discovery - Spotify")));
    assert_eq!(i.platform, "spotify");
    assert_eq!(i.content_type, "Album");
    assert_eq!(i.title, "Discovery");
    assert_eq!(i.description, Some(s("Downloading all tracks from this album")));
    let i = spotify_page_info("https://open.spotify.com/show/1", None);
    assert_eq!(i.content_type, "Content");
    assert_eq!(i.title, "Unknown Title");
    assert_eq!(i.description, None);
}

#[test]
fn soundcloud_pages() {
    let i = soundcloud_page_info("https://soundcloud.com/artist", Some(s("Artist | Free Listening on SoundCloud")));
    assert_eq!(i.content_type, "Artist");
    assert_eq!(i.title, "Artist");
    assert_eq!(i.description, Some(s("Downloading tracks from this artist")));
    assert_eq!(soundcloud_page_info("https://soundcloud.com/a/sets/b", None).content_type, "Playlist");
    assert_eq!(soundcloud_page_info("https://soundcloud.com/a/b", None).content_type, "Track");
}

#[test]
fn youtube_kinds_and_channels() {
    assert_eq!(youtube_content_type("https://www.youtube.com/@name"), "Channel");
    assert_eq!(youtube_content_type("https://www.youtube.com/watch?v=x"), "Video");
    assert_eq!(youtube_content_type("https://www.youtube.com/playlist?list=x"), "Playlist");
    assert_eq!(youtube_content_type("https://www.youtube.com/feed"), "Content");
    assert_eq!(
        channel_target("https://www.youtube.com/@name/featured"),
        Some((s("name"), s("https://www.youtube.com/@name/featured/videos")))
    );
    assert_eq!(
        channel_target("https://www.youtube.com/@name//"),
        Some((s("name"), s("https://www.youtube.com/@name/videos")))
    );
    assert_eq!(
        channel_target("https://www.youtube.com/@name/videos"),
        Some((s("name"), s("https://www.youtube.com/@name/videos")))
    );
    assert_eq!(channel_target("https://www.youtube.com/watch?v=x"), None);
}

#[test]
fn numbers() {
    assert_eq!(parse_u32("123"), Some(123));
    assert_eq!(parse_u32("+7"), Some(7));
    assert_eq!(parse_u32(""), None);
    assert_eq!(parse_u32("+"), None);
    assert_eq!(parse_u32("4294967295"), Some(u32::MAX));
    assert_eq!(parse_u32("4294967296"), None);
    assert_eq!(parse_u32("12a"), None);
    assert_eq!(parse_u32("-1"), None);
    for t in ["0", "007", "99999", "4294967295", "4294967296", "+12", "1_0"] {
        assert_eq!(parse_u32(t), t.parse::<u32>().ok());
    }
}

#[test]
fn video_counts() {
    assert_eq!(extract_video_count_from_html("<span>42 videos</span>"), 42);
    assert_eq!(extract_video_count_from_html("x videoCount\":\"17\" y"), 17);
    assert_eq!(extract_video_count_from_html("nothing here"), 0);
}

#[test]
fn descriptions() {
    let html = "{\"description\": \"My mix\\nTracklist:\\n00:00 A - B\"}";
    assert_eq!(extract_description_from_html(html), "My mix\nTracklist:\n00:00 A - B");
    let html = "<p>Tracklist: A - B flavourful timestamps: x</p>";
    assert_eq!(extract_description_from_html(html), "Tracklist: A - B ");
    let html = "<div id=\"description-inner\" class=\"x\">Hello</div><p>";
    assert_eq!(extract_description_from_html(html), "<div id=\"description-inner\" class=\"x\">Hello</div>");
    assert_eq!(extract_description_from_html("<p>plain</p>"), "");
}

use onetagger::page_info::{collect_videos, copy_texts, extract_videos_from_json_data, listing_info, video_info};

#[test]
fn videos_with_tracklists_are_kept() {
    let links = vec![s("u1"), s("u2"), s("u3")];
    let pages = vec![Some((s("A"), vec![s("x - y")])), None, Some((s("C"), vec![]))];
    let v = collect_videos(&links, pages);
    assert_eq!(v, vec![(s("A"), s("u1"), vec![s("x - y")])]);
    let info = listing_info("channel", "Chan", "https://www.youtube.com/@chan", v);
    assert_eq!(info.content_type, "channel");
    assert_eq!(info.title, "Chan");
    assert_eq!(info.url, "https://www.youtube.com/@chan");
    assert_eq!(info.videos.unwrap().len(), 1);
}

#[test]
fn single_video_info() {
    let info = video_info("https://youtu.be/x", s("Mix"), vec![s("A - B")]);
    assert_eq!(info.content_type, "video");
    assert_eq!(info.title, "Mix");
    assert_eq!(info.video_tracklists, Some(vec![(s("Mix"), vec![s("A - B")])]));
    assert_eq!(info.videos, Some(vec![(s("Mix"), s("https://youtu.be/x"), vec![s("A - B")])]));
    assert_eq!(copy_texts(&vec![s("a"), s("b")]), vec![s("a"), s("b")]);
}

#[test]
fn videos_from_embedded_data() {
    let scripts = vec![
        s("var x = 1;"),
        s("{\"videoRenderer\":{\"videoId\":\"abc\",\"title\":{\"runs\":[{\"text\":\"First\"}]}},\"videoRenderer\":{\"videoId\":\"def\",\"title\":{\"runs\":[{\"text\":\"Second\"}]}}}"),
        s("{\"videoRenderer\":{\"videoId\":\"zzz\",\"title\":{\"runs\":[{\"text\":\"Later\"}]}}}"),
    ];
    assert_eq!(
        extract_videos_from_json_data(&scripts),
        vec![
            (s("First"), s("https://www.youtube.com/watch?v=abc")),
            (s("Second"), s("https://www.youtube.com/watch?v=def")),
        ]
    );
    assert!(extract_videos_from_json_data(&vec![s("nothing")]).is_empty());
}

use onetagger::page_info::{channel_videos_url, is_mix_title, tracks_from_meta};

#[test]
fn mix_titles_and_meta_tracks() {
    assert!(is_mix_title("Deep House MIX 2024"));
    assert!(is_mix_title("Live Set"));
    assert!(!is_mix_title("Interview"));
    let contents = vec![s("Intro Music"), s("Song   Name (Club Mix) @dj -"), s("A - B")];
    assert_eq!(tracks_from_meta(&contents), vec![s("Song Name - (Club Mix)"), s("A - B")]);
}

#[test]
fn channel_videos_tab() {
    assert_eq!(channel_videos_url("https://www.youtube.com/@a/"), "https://www.youtube.com/@a/videos");
    assert_eq!(channel_videos_url("https://www.youtube.com/@a/videos"), "https://www.youtube.com/@a/videos");
}
