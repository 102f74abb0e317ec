use soundbar::now_playing::{parse_now_playing, NowPlaying};
use soundbar::visualizer::{header_line, media_label, SpanStyle};

#[test]
fn parses_media_control_payload() {
    let payload = br#"{
            "title": "30 For 30",
            "artist": "SZA",
            "album": "SOS Deluxe: LANA",
            "bundleIdentifier": "com.apple.Music",
            "playing": true
        }"#;

    let now_playing = parse_now_playing(payload).expect("payload should parse");

    assert_eq!(now_playing.title.as_deref(), Some("30 For 30"));
    assert_eq!(now_playing.artist.as_deref(), Some("SZA"));
    assert_eq!(now_playing.album.as_deref(), Some("SOS Deluxe: LANA"));
    assert_eq!(now_playing.app.as_deref(), Some("com.apple.Music"));
    assert!(now_playing.playing);
}

#[test]
fn payload_fields_are_trimmed_and_blank_ones_dropped() {
    let payload = br#"{"title": "  Song \t", "artist": "   ", "displayName": "Music", "playbackState": "playing"}"#;
    let now_playing = parse_now_playing(payload).expect("payload should parse");
    assert_eq!(now_playing.title.as_deref(), Some("Song"));
    assert_eq!(now_playing.artist, None);
    assert_eq!(now_playing.app.as_deref(), Some("Music"));
    assert!(now_playing.playing);
}

#[test]
fn application_falls_back_in_order() {
    let payload = br#"{"application": "Spotify", "displayName": " ", "playing": false, "playbackState": "playing"}"#;
    let now_playing = parse_now_playing(payload).expect("payload should parse");
    assert_eq!(now_playing.app.as_deref(), Some("Spotify"));
    assert!(!now_playing.playing);
}

#[test]
fn paused_state_is_not_playing() {
    let payload = br#"{"title": "T", "playbackState": "paused"}"#;
    let now_playing = parse_now_playing(payload).expect("payload should parse");
    assert!(!now_playing.playing);
}

#[test]
fn payload_without_track_fields_is_nothing() {
    assert_eq!(parse_now_playing(br#"{"playing": true, "title": 3}"#), None);
    assert_eq!(parse_now_playing(br#"[1, 2]"#), None);
    assert_eq!(parse_now_playing(b"not json"), None);
    assert_eq!(parse_now_playing(b""), None);
}

fn track(title: Option<&str>, artist: Option<&str>, album: Option<&str>, app: Option<&str>, playing: bool) -> NowPlaying {
    NowPlaying {
        title: title.map(str::to_string),
        artist: artist.map(str::to_string),
        album: album.map(str::to_string),
        app: app.map(str::to_string),
        playing,
    }
}

#[test]
fn media_label_joins_title_and_artist() {
    assert_eq!(media_label(&track(Some("A"), Some("B"), Some("C"), None, true)), "> A - B");
    assert_eq!(media_label(&track(Some("A"), None, None, None, false)), "|| A");
    assert_eq!(media_label(&track(None, Some("B"), None, None, true)), "> B");
    assert_eq!(media_label(&track(None, None, Some("C"), Some("D"), true)), "> C");
    assert_eq!(media_label(&track(None, None, None, Some("D"), false)), "|| D");
    assert_eq!(media_label(&track(None, None, None, None, true)), "");
}

#[test]
fn header_shows_hint_only_when_wide_enough() {
    let texts = |width: u16| -> Vec<(String, SpanStyle)> {
        header_line(None, width).into_iter().map(|span| (span.text, span.style)).collect()
    };
    let narrow = texts(34);
    assert_eq!(narrow.len(), 3);
    assert_eq!(narrow[0], ("soundbar".to_string(), SpanStyle::Title));
    assert_eq!(narrow[2], ("system audio".to_string(), SpanStyle::Source));
    let wide = texts(35);
    assert_eq!(wide.len(), 5);
    assert_eq!(wide[4], ("q to quit".to_string(), SpanStyle::Hint));
}

#[test]
fn header_includes_the_media_label() {
    let np = track(Some("Song"), Some("Band"), None, None, true);
    let spans = header_line(Some(&np), 200);
    let texts: Vec<&str> = spans.iter().map(|span| span.text.as_str()).collect();
    assert_eq!(texts, vec!["soundbar", "  ", "system audio", "  ", "> Song - Band", "  ", "q to quit"]);
    assert_eq!(spans[4].style, SpanStyle::Media);
    // 22 + 2 + 13 = 37 characters before the hint.
    assert_eq!(header_line(Some(&np), 49).len(), 5);
    assert_eq!(header_line(Some(&np), 50).len(), 7);
}
