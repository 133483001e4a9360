//! Audio quality descriptions, quality presets, and file-size estimation.

use vstd::prelude::*;
use crate::text::{spec_contains, str_contains};
use crate::utils::{format_bytes, spec_format_bytes};

verus! {

/// One available audio quality.
pub struct AudioQuality {
    pub bitrate: u32,
    pub format: String,
    pub codec: String,
    pub sample_rate: Option<u32>,
    pub channels: Option<u8>,
    pub file_size: Option<u64>,
}

/// A quick quality selection.
pub enum QualityPreset {
    /// Best available quality.
    Best,
    /// Good quality with a smaller file.
    Good,
    /// Standard quality for most uses.
    Standard,
    /// Lower quality to save bandwidth.
    Low,
    /// Explicit settings.
    Custom { audio_bitrate: Option<u32>, video_resolution: Option<String> },
}

/// The video bitrate (in kbit/s) assumed for a resolution label, judged by
/// the resolution figures it mentions.
pub open spec fn spec_video_bitrate_for(r: Seq<char>) -> int {
    if spec_contains(r, "2160"@) || spec_contains(r, "4K"@) {
        15000
    } else if spec_contains(r, "1440"@) {
        8000
    } else if spec_contains(r, "1080"@) {
        4000
    } else if spec_contains(r, "720"@) {
        2000
    } else if spec_contains(r, "480"@) {
        1000
    } else {
        500
    }
}

/// The total bitrate (in kbit/s) of the requested audio and video.
pub open spec fn spec_total_bitrate(
    audio_bitrate: Option<u32>,
    video_resolution: Option<Seq<char>>,
) -> int {
    (match audio_bitrate {
        Some(b) => b as int,
        None => 0,
    }) + (match video_resolution {
        Some(r) => spec_video_bitrate_for(r),
        None => 0,
    })
}

/// Estimate the produced file's size in bytes: total bitrate times
/// duration, converted from kilobits to bytes.
pub fn estimate_file_size(
    duration_seconds: u64,
    audio_bitrate: Option<u32>,
    video_resolution: Option<&str>,
) -> (r: u64)
    requires
        spec_total_bitrate(
            audio_bitrate,
            match video_resolution {
                Some(s) => Some(s@),
                None => None,
            },
        ) * duration_seconds * 1000 <= u64::MAX,
    ensures
        r == spec_total_bitrate(
            audio_bitrate,
            match video_resolution {
                Some(s) => Some(s@),
                None => None,
            },
        ) * duration_seconds * 1000 / 8,
{
    let audio: u64 = match audio_bitrate {
        Some(b) => b as u64,
        None => 0,
    };
    let video: u64 = match video_resolution {
        Some(r) => {
            if str_contains(r, "2160") || str_contains(r, "4K") {
                15000
            } else if str_contains(r, "1440") {
                8000
            } else if str_contains(r, "1080") {
                4000
            } else if str_contains(r, "720") {
                2000
            } else if str_contains(r, "480") {
                1000
            } else {
                500
            }
        },
        None => 0,
    };
    let total = audio + video;
    (total * duration_seconds * 1000) / 8
}

/// Render a byte count as a human-readable size with one decimal place.
pub fn format_file_size(bytes: u64) -> (r: String)
    ensures
        r@ == spec_format_bytes(bytes as nat),
{
    format_bytes(bytes)
}

} // verus!
