//! Download options and the format-selector text handed to the download
//! tool.

use vstd::prelude::*;
use crate::text::{to_chars, str_eq, push_str_chars, push_chars};
use crate::trusted::chars_to_string;

verus! {

/// One conversion's options, as a handler assembles them.
pub struct ConversionOptions {
    pub url: String,
    pub format: String,
    pub quality: String,
    pub output_dir: String,
}

/// The pixel height a quality selector denotes; unknown selectors default
/// to 720.
pub open spec fn spec_quality_height(q: Seq<char>) -> Seq<char> {
    if q == "1080p60"@ || q == "1080p"@ {
        "1080"@
    } else if q == "720p60"@ || q == "720p"@ {
        "720"@
    } else if q == "480p"@ {
        "480"@
    } else if q == "360p"@ {
        "360"@
    } else {
        "720"@
    }
}

/// The pixel height a quality selector denotes, as text.
pub fn get_quality_height(quality: &str) -> (r: String)
    ensures
        r@ == spec_quality_height(quality@),
{
    if str_eq(quality, "1080p60") || str_eq(quality, "1080p") {
        String::from_str("1080")
    } else if str_eq(quality, "720p60") || str_eq(quality, "720p") {
        String::from_str("720")
    } else if str_eq(quality, "480p") {
        String::from_str("480")
    } else if str_eq(quality, "360p") {
        String::from_str("360")
    } else {
        String::from_str("720")
    }
}

/// The format-selector text handed to the download tool for a format and
/// quality, when the format is supported.
pub open spec fn spec_format_selector(f: Seq<char>, q: Seq<char>) -> Option<Seq<char>> {
    if f == "mp3"@ {
        Some("bestaudio[ext=m4a]/bestaudio[ext=webm]/bestaudio[ext=mp3]/bestaudio"@)
    } else if f == "wav"@ {
        Some("bestaudio[ext=wav]/bestaudio[ext=m4a]/bestaudio"@)
    } else if f == "mp4"@ {
        Some("best[ext=mp4][height<="@ + spec_quality_height(q) + "]/best[ext=mp4]/best"@)
    } else if f == "webm"@ {
        Some("best[ext=webm][height<="@ + spec_quality_height(q) + "]/best[ext=webm]/best"@)
    } else {
        None
    }
}

/// Build the download tool's format selector for a format and quality;
/// unsupported formats are refused.
pub fn build_format_selector(format: &str, quality: &str) -> (r: Option<String>)
    ensures
        (r is Some) == (spec_format_selector(format@, quality@) is Some),
        r matches Some(s) ==> spec_format_selector(format@, quality@) matches Some(t) && s@ == t,
{
    if str_eq(format, "mp3") {
        Some(String::from_str("bestaudio[ext=m4a]/bestaudio[ext=webm]/bestaudio[ext=mp3]/bestaudio"))
    } else if str_eq(format, "wav") {
        Some(String::from_str("bestaudio[ext=wav]/bestaudio[ext=m4a]/bestaudio"))
    } else if str_eq(format, "mp4") {
        let h = get_quality_height(quality);
        let mut out: Vec<char> = Vec::new();
        push_str_chars(&mut out, "best[ext=mp4][height<=");
        push_str_chars(&mut out, h.as_str());
        push_str_chars(&mut out, "]/best[ext=mp4]/best");
        Some(chars_to_string(&out))
    } else if str_eq(format, "webm") {
        let h = get_quality_height(quality);
        let mut out: Vec<char> = Vec::new();
        push_str_chars(&mut out, "best[ext=webm][height<=");
        push_str_chars(&mut out, h.as_str());
        push_str_chars(&mut out, "]/best[ext=webm]/best");
        Some(chars_to_string(&out))
    } else {
        None
    }
}

} // verus!
