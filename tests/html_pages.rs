use onetagger::html_pages::{
    extract_channel_name, extract_playlist_title, extract_soundcloud_artist, extract_soundcloud_playlist_title,
    extract_soundcloud_title, extract_upload_date, extract_video_links, extract_video_title, extract_views,
    has_key_youtube_elements,
};

fn s(x: &str) -> String {
    x.to_string()
}

#[test]
fn youtube_titles() {
    let page = "<html><head><title>My Channel - YouTube</title></head><body></body></html>";
    assert_eq!(extract_channel_name(page), "My Channel");
    assert_eq!(extract_channel_name("<div id=\"channel-name\"> Chan </div>"), "Chan");
    assert_eq!(extract_video_title("<p>nothing</p>"), "Unknown Video");
    assert_eq!(extract_playlist_title("<h1 class=\"title\">Best of</h1>"), "Best of");
}

#[test]
fn soundcloud_titles() {
    let page = "<html><head><title>Song by Artist</title></head></html>";
    assert_eq!(extract_soundcloud_title(page), "Song");
    assert_eq!(extract_soundcloud_artist(page), "Artist");
    let plain = "<html><head><title>Just text</title></head></html>";
    assert_eq!(extract_soundcloud_title(plain), "Just text");
    assert_eq!(extract_soundcloud_artist(plain), "Just text");
    assert_eq!(extract_soundcloud_playlist_title("<h1>List</h1>"), "List");
    assert_eq!(extract_soundcloud_artist("<p></p>"), "Unknown Artist");
}

#[test]
fn key_elements() {
    assert!(has_key_youtube_elements("<title>x</title><div id=\"content\"></div><div id=\"player\"></div>"));
    assert!(!has_key_youtube_elements("<title>x</title>"));
}

#[test]
fn dates_and_views() {
    assert_eq!(extract_upload_date("<meta itemprop=\"uploadDate\" content=\"2024-01-01\">"), Some(s("2024-01-01")));
    assert_eq!(extract_upload_date("<p>nothing</p>"), None);
    assert_eq!(extract_views("<meta itemprop=\"interactionCount\" content=\"1234\">"), Some(s("1234 views")));
    assert_eq!(extract_views("<div class=\"view-count\">5 views</div>"), Some(s("5 views")));
    assert_eq!(extract_views("<p>nothing</p>"), None);
}

#[test]
fn video_links() {
    let page = "<a id=\"video-title\" href=\"/watch?v=abc\">A</a>\
<a id=\"video-title\" href=\"https://www.youtube.com/watch?v=abc\">B</a>\
<a href=\"/watch?v=def\">C</a><a href=\"/about\">D</a>";
    assert_eq!(
        extract_video_links(page),
        vec![s("https://www.youtube.com/watch?v=abc"), s("https://www.youtube.com/watch?v=def")]
    );
    let scripted = "<script>var d = {\"videoId\":\"abcdefghijk\"};</script>";
    assert_eq!(extract_video_links(scripted), vec![s("https://www.youtube.com/watch?v=abcdefghijk")]);
    assert!(extract_video_links("<p>none</p>").is_empty());
}

use onetagger::html_pages::extract_video_description;

#[test]
fn video_descriptions() {
    assert_eq!(extract_video_description("<p></p>", Some(s("Tracklist: A - B"))), "Tracklist: A - B");
    let meta = "<meta property=\"og:description\" content=\"00:00 A - B\">";
    assert_eq!(extract_video_description(meta, Some(s("no list"))), "00:00 A - B");
    let block = "<div id=\"description-inner\">Line one<br>Line two</div>";
    assert_eq!(extract_video_description(block, None), "Line one\nLine two");
    let plain_meta = "<meta property=\"og:description\" content=\"Just a video\">";
    assert_eq!(extract_video_description(plain_meta, None), "Just a video");
    assert_eq!(extract_video_description("<p>x</p>", None), "Description not found");
}
