//! Tests for the general-purpose helpers.

use rustify::utils::{
    sanitize_filename, format_duration, parse_duration, format_bytes, get_file_extension,
    is_video_file, is_audio_file, is_valid_youtube_url, extract_video_id, optimal_thread_count,
    media_content_type,
};

#[test]
fn test_sanitize_filename() {
    assert_eq!(sanitize_filename("Hello<World>"), "Hello_World_");
    assert_eq!(sanitize_filename("  test.txt  "), "test.txt");
    assert_eq!(sanitize_filename(""), "untitled");
}

#[test]
fn test_format_duration() {
    assert_eq!(format_duration(65), "01:05");
    assert_eq!(format_duration(3661), "01:01:01");
}

#[test]
fn test_parse_duration() {
    assert_eq!(parse_duration("01:05"), Some(65));
    assert_eq!(parse_duration("01:01:01"), Some(3661));
    assert_eq!(parse_duration("invalid"), None);
}

#[test]
fn test_validate_youtube_url() {
    assert!(is_valid_youtube_url("https://www.youtube.com/watch?v=dQw4w9WgXcQ"));
    assert!(is_valid_youtube_url("https://youtu.be/dQw4w9WgXcQ"));
    assert!(!is_valid_youtube_url("https://example.com"));
}

#[test]
fn test_extract_video_id() {
    assert_eq!(
        extract_video_id("https://www.youtube.com/watch?v=dQw4w9WgXcQ"),
        Some("dQw4w9WgXcQ".to_string())
    );
    assert_eq!(
        extract_video_id("https://youtu.be/dQw4w9WgXcQ"),
        Some("dQw4w9WgXcQ".to_string())
    );
}

#[test]
fn test_extract_video_id_edges() {
    assert_eq!(
        extract_video_id("https://www.youtube.com/watch?v=abc&list=xyz"),
        Some("abc".to_string())
    );
    assert_eq!(extract_video_id("https://example.com/nothing"), None);
    assert_eq!(extract_video_id("https://youtu.be/abc?t=10"), Some("abc".to_string()));
}

#[test]
fn test_url_shapes() {
    assert!(is_valid_youtube_url("http://youtube.com/playlist?list=PL123"));
    assert!(is_valid_youtube_url("https://www.youtube.com/channel/UCabc"));
    assert!(is_valid_youtube_url("https://youtube.com/@handle"));
    assert!(!is_valid_youtube_url("https://www.youtube.com/watch?v="));
    assert!(!is_valid_youtube_url("ftp://youtube.com/watch?v=abc"));
}

#[test]
fn test_format_duration_hours_wide() {
    assert_eq!(format_duration(0), "00:00");
    assert_eq!(format_duration(3600), "01:00:00");
    assert_eq!(format_duration(360000), "100:00:00");
}

#[test]
fn test_parse_duration_edges() {
    assert_eq!(parse_duration("0:0"), Some(0));
    assert_eq!(parse_duration("1:2:3:4"), None);
    assert_eq!(parse_duration(""), None);
    assert_eq!(parse_duration("+1:05"), Some(65));
    assert_eq!(parse_duration("99999999999999999999:00"), None);
}

#[test]
fn test_format_bytes_values() {
    assert_eq!(format_bytes(0), "0 B");
    assert_eq!(format_bytes(1023), "1023 B");
    assert_eq!(format_bytes(1024), "1.0 KB");
    assert_eq!(format_bytes(1536), "1.5 KB");
    assert_eq!(format_bytes(2000), "2.0 KB");
    assert_eq!(format_bytes(1048576), "1.0 MB");
    assert_eq!(format_bytes(1073741824), "1.0 GB");
    assert_eq!(format_bytes(1099511627776), "1.0 TB");
}

#[test]
fn test_file_extensions() {
    assert_eq!(get_file_extension("song.MP3"), Some("mp3".to_string()));
    assert_eq!(get_file_extension("dir/video.mkv"), Some("mkv".to_string()));
    assert_eq!(get_file_extension("noext"), None);
    assert_eq!(get_file_extension(".hidden"), None);
    assert!(is_video_file("a/b/clip.webm"));
    assert!(!is_video_file("a/b/track.mp3"));
    assert!(is_audio_file("track.flac"));
    assert!(!is_audio_file("clip.mp4"));
}

#[test]
fn test_media_content_type() {
    assert_eq!(media_content_type("song.mp3"), "audio/mpeg");
    assert_eq!(media_content_type("clip.webm"), "video/webm");
    assert_eq!(media_content_type("a.m4a"), "audio/mp4");
    assert_eq!(media_content_type("unknown.bin"), "application/octet-stream");
    assert_eq!(media_content_type("mp3"), "application/octet-stream");
}

#[test]
fn test_optimal_thread_count() {
    assert_eq!(optimal_thread_count(1), 1);
    assert_eq!(optimal_thread_count(4), 3);
    assert_eq!(optimal_thread_count(16), 8);
}
