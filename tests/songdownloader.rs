use onetagger::songdownloader::{
    determine_platform_and_type, determine_soundcloud_type, extract_spotify_id, get_url_info,
    is_valid_url, process_soundcloud, process_spotify, spotify_id_from, QueryError, UrlInfo,
};

#[test]
fn test_determine_soundcloud_type() {
    // Test playlist URL
    let content_type = determine_soundcloud_type("https://soundcloud.com/user-name/sets/playlist-name").unwrap();
    assert_eq!(content_type, "playlist");

    // Test track URL
    let content_type = determine_soundcloud_type("https://soundcloud.com/user-name/track-name").unwrap();
    assert_eq!(content_type, "track");
}

#[test]
fn test_extract_spotify_id() {
    // Test regular URLs
    let (content_type, id) = extract_spotify_id("https://open.spotify.com/track/4iV5W9uYEdYUVa79Axb7Rh").unwrap();
    assert_eq!(content_type, "track");
    assert_eq!(id, "4iV5W9uYEdYUVa79Axb7Rh");

    let (content_type, id) = extract_spotify_id("https://open.spotify.com/album/1DFixLWuPkv3KT3TnV35m3").unwrap();
    assert_eq!(content_type, "album");
    assert_eq!(id, "1DFixLWuPkv3KT3TnV35m3");

    let (content_type, id) = extract_spotify_id("https://open.spotify.com/playlist/37i9dQZF1DX4dyzvuaRJ0n").unwrap();
    assert_eq!(content_type, "playlist");
    assert_eq!(id, "37i9dQZF1DX4dyzvuaRJ0n");

    let (content_type, id) = extract_spotify_id("https://open.spotify.com/artist/4gzpq5DPGxSnKTe4SA8HAU").unwrap();
    assert_eq!(content_type, "artist");
    assert_eq!(id, "4gzpq5DPGxSnKTe4SA8HAU");

    // Test URI format
    let (content_type, id) = extract_spotify_id("spotify:track:4iV5W9uYEdYUVa79Axb7Rh").unwrap();
    assert_eq!(content_type, "track");
    assert_eq!(id, "4iV5W9uYEdYUVa79Axb7Rh");

    // Test invalid URLs
    assert!(extract_spotify_id("https://spotify.com/notavalidurl").is_err());
    assert!(extract_spotify_id("https://youtube.com/watch?v=1234").is_err());
}

#[test]
fn spotify_id_from_given_matches() {
    let web = Some(vec![Some("x".to_string()), Some("album".to_string()), Some("ID1".to_string())]);
    let uri = Some(vec![Some("y".to_string()), Some("track".to_string()), Some("ID2".to_string())]);
    assert_eq!(spotify_id_from(web, uri.clone()).unwrap(), ("album".to_string(), "ID1".to_string()));
    assert_eq!(spotify_id_from(None, uri).unwrap(), ("track".to_string(), "ID2".to_string()));
    let short = Some(vec![Some("x".to_string()), Some("album".to_string())]);
    assert_eq!(spotify_id_from(short, None), Err(QueryError::InvalidSpotifyUrl));
    let missing = Some(vec![Some("x".to_string()), None, Some("ID".to_string())]);
    assert_eq!(spotify_id_from(missing, None), Err(QueryError::InvalidSpotifyUrl));
}

#[test]
fn valid_urls() {
    assert!(is_valid_url("https://www.youtube.com/watch?v=abc"));
    assert!(is_valid_url("https://youtu.be/abc"));
    assert!(is_valid_url("https://open.spotify.com/track/x"));
    assert!(is_valid_url("https://soundcloud.com/a/b"));
    assert!(!is_valid_url("https://example.com/a"));
    assert!(!is_valid_url(""));
}

fn kind(url: &str) -> Result<(String, String), QueryError> {
    determine_platform_and_type(url)
}

fn pair(a: &str, b: &str) -> Result<(String, String), QueryError> {
    Ok((a.to_string(), b.to_string()))
}

#[test]
fn platform_and_type() {
    assert_eq!(kind("https://www.youtube.com/playlist?list=PL1"), pair("youtube", "playlist"));
    assert_eq!(kind("https://www.youtube.com/watch?v=a&list=PL1"), pair("youtube", "playlist"));
    assert_eq!(kind("https://www.youtube.com/@someone"), pair("youtube", "channel"));
    assert_eq!(kind("https://www.youtube.com/channel/UC1"), pair("youtube", "channel"));
    assert_eq!(kind("https://www.youtube.com/watch?v=abc"), pair("youtube", "video"));
    assert_eq!(kind("https://youtu.be/abc"), pair("youtube", "video"));
    assert_eq!(kind("https://www.youtube.com/feed"), Err(QueryError::UnsupportedYoutubeUrl));
    assert_eq!(kind("https://open.spotify.com/playlist/1"), pair("spotify", "playlist"));
    assert_eq!(kind("https://open.spotify.com/album/1"), pair("spotify", "album"));
    assert_eq!(kind("https://open.spotify.com/track/1"), pair("spotify", "track"));
    assert_eq!(kind("https://open.spotify.com/artist/1"), pair("spotify", "artist"));
    assert_eq!(kind("https://open.spotify.com/show/1"), Err(QueryError::UnsupportedSpotifyUrl));
    assert_eq!(kind("https://soundcloud.com/a/sets/b"), pair("soundcloud", "playlist"));
    assert_eq!(kind("https://soundcloud.com/a/b"), pair("soundcloud", "track"));
    assert_eq!(kind("https://example.com"), Err(QueryError::UnsupportedPlatform));
}

#[test]
fn query_plan_errors_and_success() {
    assert_eq!(get_url_info("https://example.com"), Err(QueryError::InvalidUrl));
    assert_eq!(get_url_info("https://open.spotify.com/track/x"), Err(QueryError::SpotifyNotImplemented));
    assert_eq!(get_url_info("https://soundcloud.com/a/b"), Err(QueryError::SoundcloudNotImplemented));
    assert_eq!(get_url_info("https://www.youtube.com/feed"), Err(QueryError::UnsupportedYoutubeUrl));
    assert_eq!(get_url_info("https://www.youtube.com/watch?v=abc"), pair("youtube", "video"));
    assert_eq!(QueryError::InvalidUrl.message(), "Invalid URL. Must be a YouTube, Spotify, or SoundCloud URL.");
}

#[test]
fn soundcloud_and_spotify_placeholders() {
    let s = process_soundcloud("https://soundcloud.com/a/sets/b");
    assert_eq!(s.platform, "soundcloud");
    assert_eq!(s.content_type, "playlist");
    assert_eq!(s.title, "SoundCloud playlist from https://soundcloud.com/a/sets/b");
    assert_eq!(s.url, "https://soundcloud.com/a/sets/b");
    let p = process_spotify("https://open.spotify.com/album/1");
    assert_eq!(p.content_type, "album");
    assert_eq!(p.title, "Spotify album from https://open.spotify.com/album/1");
    let u = process_spotify("https://open.spotify.com/show/1");
    assert_eq!(u.content_type, "unknown");
}

#[test]
fn url_info_builders() {
    let info = UrlInfo::new("youtube", "video", "Mix", Some("desc".to_string()));
    assert_eq!(info.platform, "youtube");
    assert_eq!(info.url, "");
    assert!(info.videos.is_none() && info.video_tracklists.is_none());
    let info = info
        .with_url("https://youtu.be/x".to_string())
        .with_videos(vec![("Mix".to_string(), "https://youtu.be/x".to_string(), vec!["A - B".to_string()])]);
    assert_eq!(info.url, "https://youtu.be/x");
    assert_eq!(info.videos.as_ref().unwrap().len(), 1);
    let info = info
        .add_tracklist("Mix".to_string(), vec!["A - B".to_string()])
        .add_tracklist("Other".to_string(), vec![])
        .add_tracklist("Mix".to_string(), vec!["C - D".to_string()]);
    let t = info.video_tracklists.as_ref().unwrap();
    assert_eq!(t.len(), 2);
    assert_eq!(t[0].0, "Mix");
    assert_eq!(t[0].1, vec!["C - D".to_string()]);
    assert_eq!(t[1].0, "Other");
}

#[test]
fn with_tracklists_keeps_last_list_of_a_title() {
    let info = UrlInfo::new("youtube", "video", "Mix", None).with_tracklists(vec![
        ("A".to_string(), vec!["1".to_string()]),
        ("B".to_string(), vec![]),
        ("A".to_string(), vec!["2".to_string()]),
    ]);
    let t = info.video_tracklists.unwrap();
    assert_eq!(t.len(), 2);
    assert_eq!(t[0], ("A".to_string(), vec!["2".to_string()]));
    assert_eq!(t[1].0, "B");
}
