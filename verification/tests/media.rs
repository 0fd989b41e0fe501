use ttml_processor::media::{parse_apple_music_field, FrontendNowPlayingInfo, RepeatMode};

fn info(artist: Option<&str>, album: Option<&str>) -> FrontendNowPlayingInfo {
    FrontendNowPlayingInfo {
        title: Some("Song".to_string()),
        artist: artist.map(|s| s.to_string()),
        album_title: album.map(|s| s.to_string()),
        duration_ms: Some(1),
        position_ms: Some(2),
        is_playing: Some(true),
        is_shuffle_active: None,
        repeat_mode: Some(RepeatMode::One),
        can_play: None,
        can_pause: None,
        can_skip_next: None,
        can_skip_previous: None,
        cover_data: None,
        cover_data_hash: Some(7),
    }
}

#[test]
fn artist_field_is_split_at_the_dash() {
    let r = parse_apple_music_field(info(Some("Alice  \u{2014}  Wonder \u{2014} Land"), None));
    assert_eq!(r.artist.as_deref(), Some("Alice"));
    assert_eq!(r.album_title.as_deref(), Some("Wonder \u{2014} Land"));
    assert_eq!(r.title.as_deref(), Some("Song"));
    assert_eq!(r.repeat_mode, Some(RepeatMode::One));
    assert_eq!(r.cover_data_hash, Some(7));
}

#[test]
fn album_title_that_is_there_stays() {
    let r = parse_apple_music_field(info(Some("Alice \u{2014} Wonder"), Some("Known")));
    assert_eq!(r.artist.as_deref(), Some("Alice"));
    assert_eq!(r.album_title.as_deref(), Some("Known"));
    let r = parse_apple_music_field(info(Some("Alice \u{2014} Wonder"), Some("")));
    assert_eq!(r.album_title.as_deref(), Some("Wonder"));
}

#[test]
fn artist_field_without_dash_stays() {
    let r = parse_apple_music_field(info(Some(" Alice - Wonder\u{2014}Land "), None));
    assert_eq!(r.artist.as_deref(), Some(" Alice - Wonder\u{2014}Land "));
    assert_eq!(r.album_title, None);
    let r = parse_apple_music_field(info(None, Some("x")));
    assert_eq!(r.artist, None);
    assert_eq!(r.album_title.as_deref(), Some("x"));
}
