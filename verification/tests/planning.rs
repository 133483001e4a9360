//! Tests for format parsing, size estimation, selector building and batch
//! planning.

use rustify::batch::{BatchFormat, BatchOptions, BatchTaskStatus, TaskFormatStatus};
use rustify::batch::{filter_videos, generate_output_path, plan_batch_tasks};
use rustify::cli::{default_quality_for_format, parse_quality_for_format};
use rustify::converter::{parse_output_format, get_extension_for_format, Converter, OutputFormat};
use rustify::extractor::PlaylistVideo;
use rustify::quality::{estimate_file_size, format_file_size};
use rustify::youtube::{build_format_selector, get_quality_height};

fn video(title: &str, url: &str) -> PlaylistVideo {
    PlaylistVideo {
        id: "id".to_string(),
        title: title.to_string(),
        url: url.to_string(),
        duration: Some(180),
        uploader: "chan".to_string(),
    }
}

fn options(start: usize, limit: Option<usize>, prefix: bool) -> BatchOptions {
    BatchOptions {
        max_concurrent: 3,
        skip_existing: false,
        create_subdirs: false,
        add_index_prefix: prefix,
        video_limit: limit,
        start_index: start,
        download_thumbnails: false,
        create_playlist_file: true,
    }
}

#[test]
fn test_parse_output_format_variants() {
    assert_eq!(parse_output_format("mp3", "320kbps"), Some(OutputFormat::Mp3 { bitrate: 320 }));
    assert_eq!(parse_output_format("aac", "256k"), Some(OutputFormat::Aac { bitrate: 256 }));
    assert_eq!(parse_output_format("mp3", "loud"), Some(OutputFormat::Mp3 { bitrate: 256 }));
    assert_eq!(parse_output_format("ogg", "7"), Some(OutputFormat::Ogg { quality: 7 }));
    assert_eq!(parse_output_format("ogg", "900"), Some(OutputFormat::Ogg { quality: 5 }));
    assert_eq!(
        parse_output_format("mp4", "1080p"),
        Some(OutputFormat::Mp4 { resolution: "1080p".to_string() })
    );
    assert_eq!(parse_output_format("flac", ""), Some(OutputFormat::Flac));
    assert_eq!(parse_output_format("exe", "1"), None);
}

#[test]
fn test_extension_for_format() {
    assert_eq!(get_extension_for_format(&OutputFormat::Flac), "flac");
    assert_eq!(
        get_extension_for_format(&OutputFormat::WebM { resolution: "720p".to_string() }),
        "webm"
    );
    assert!(Converter::new().is_ok());
}

#[test]
fn test_quality_selection_pairs() {
    assert_eq!(
        parse_quality_for_format("mp3:320, mp4 : 1080p", "mp4"),
        Some("1080p".to_string())
    );
    assert_eq!(parse_quality_for_format("mp3:320", "flac"), None);
    assert_eq!(parse_quality_for_format("garbage", "mp3"), None);
    assert_eq!(default_quality_for_format("flac"), "best");
    assert_eq!(default_quality_for_format("mp3"), "256");
    assert_eq!(default_quality_for_format("weird"), "default");
}

#[test]
fn test_estimate_file_size_exact() {
    // 128 kbit/s audio plus 2000 kbit/s for 720p over one minute
    assert_eq!(estimate_file_size(60, Some(128), Some("720p")), 15_960_000);
    assert_eq!(estimate_file_size(10, None, None), 0);
    assert_eq!(estimate_file_size(8, Some(1), None), 1000);
}

#[test]
fn test_format_file_size_matches_format_bytes() {
    assert_eq!(format_file_size(1536), "1.5 KB");
    assert_eq!(format_file_size(999), "999 B");
}

#[test]
fn test_quality_height_and_selector() {
    assert_eq!(get_quality_height("1080p"), "1080");
    assert_eq!(get_quality_height("480p"), "480");
    assert_eq!(get_quality_height("anything"), "720");
    assert_eq!(
        build_format_selector("mp4", "720p").as_deref(),
        Some("best[ext=mp4][height<=720]/best[ext=mp4]/best")
    );
    assert_eq!(
        build_format_selector("mp3", "x").as_deref(),
        Some("bestaudio[ext=m4a]/bestaudio[ext=webm]/bestaudio[ext=mp3]/bestaudio")
    );
    assert_eq!(build_format_selector("flac", "best"), None);
}

#[test]
fn test_filter_videos_window() {
    let videos = vec![video("a", "u0"), video("b", "u1"), video("c", "u2"), video("d", "u3")];
    let picked = filter_videos(&videos, &options(1, Some(2), false));
    let titles: Vec<&str> = picked.iter().map(|v| v.title.as_str()).collect();
    assert_eq!(titles, vec!["b", "c"]);
    let all = filter_videos(&videos, &options(0, None, false));
    assert_eq!(all.len(), 4);
    let beyond = filter_videos(&videos, &options(9, None, false));
    assert!(beyond.is_empty());
}

#[test]
fn test_generate_output_path_shapes() {
    let v = video("A/B: C", "u");
    let fmt = OutputFormat::Mp3 { bitrate: 320 };
    assert_eq!(generate_output_path("/out", &v, 0, &fmt, &options(0, None, true)), "/out/001-A_B_ C.mp3");
    assert_eq!(generate_output_path("/out", &v, 0, &fmt, &options(0, None, false)), "/out/A_B_ C.mp3");
}

#[test]
fn test_plan_batch_tasks_layout() {
    let videos = vec![video("One", "u0"), video("Two", "u1")];
    let formats = vec![
        BatchFormat {
            format: OutputFormat::Mp3 { bitrate: 320 },
            quality: "320".to_string(),
            enabled: true,
        },
        BatchFormat {
            format: OutputFormat::Mp4 { resolution: "1080p".to_string() },
            quality: "1080p".to_string(),
            enabled: false,
        },
        BatchFormat {
            format: OutputFormat::Flac,
            quality: "best".to_string(),
            enabled: true,
        },
    ];
    let tasks = plan_batch_tasks("job-1", &videos, &formats, &options(0, None, true), "/o", 42);
    assert_eq!(tasks.len(), 2);
    assert_eq!(tasks[0].video_title, "One");
    assert_eq!(tasks[0].video_index, 0);
    assert_eq!(tasks[1].video_index, 1);
    assert_eq!(tasks[0].job_id, "job-1");
    assert_eq!(tasks[0].created_at, 42);
    assert!(matches!(tasks[0].status, BatchTaskStatus::Pending));
    assert_eq!(tasks[0].formats.len(), 2);
    assert_eq!(tasks[0].formats[0].output_path, "/o/001-One.mp3");
    assert_eq!(tasks[0].formats[1].output_path, "/o/001-One.flac");
    assert_eq!(tasks[1].formats[0].output_path, "/o/002-Two.mp3");
    assert!(matches!(tasks[0].formats[0].status, TaskFormatStatus::Pending));
    assert_eq!(tasks[0].formats[0].progress_percent, 0);
}
