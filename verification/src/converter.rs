//! Output formats, conversion settings, and the parsing of format and
//! quality selectors into an output format.

use vstd::prelude::*;
use crate::text::{
    to_chars, remove_pat, spec_remove_pat, parse_u64_range, spec_parse_u64,
};

verus! {

/// The formats a conversion can produce.
#[derive(Debug, Clone, PartialEq)]
pub enum OutputFormat {
    Mp3 { bitrate: u32 },
    Mp4 { resolution: String },
    Flac,
    Aac { bitrate: u32 },
    Ogg { quality: u8 },
    WebM { resolution: String },
}

/// The settings one conversion runs with.
pub struct ConversionSettings {
    pub input_url: String,
    pub output_path: String,
    pub format: OutputFormat,
    pub preserve_quality: bool,
    pub use_hardware_acceleration: bool,
    pub thread_count: Option<usize>,
}

/// The converter handle.  The conversion work itself is performed by
/// outside tools driven from the surrounding program.
pub struct Converter {}

impl Converter {
    /// A converter handle; creation always succeeds.
    pub fn new() -> (r: Result<Converter, String>)
        ensures
            r is Ok,
    {
        Ok(Converter {  })
    }
}

/// The file extension written for a format.
pub fn get_extension_for_format(format: &OutputFormat) -> (r: &'static str)
    ensures
        r@ == (match format {
            OutputFormat::Mp3 { .. } => "mp3"@,
            OutputFormat::Mp4 { .. } => "mp4"@,
            OutputFormat::Flac => "flac"@,
            OutputFormat::Aac { .. } => "aac"@,
            OutputFormat::Ogg { .. } => "ogg"@,
            OutputFormat::WebM { .. } => "webm"@,
        }),
{
    match format {
        OutputFormat::Mp3 { .. } => "mp3",
        OutputFormat::Mp4 { .. } => "mp4",
        OutputFormat::Flac => "flac",
        OutputFormat::Aac { .. } => "aac",
        OutputFormat::Ogg { .. } => "ogg",
        OutputFormat::WebM { .. } => "webm",
    }
}

/// The bitrate a quality selector denotes: the selector with every `kbps`
/// and `k` removed, read as a number, when it fits; 256 otherwise.
pub open spec fn spec_bitrate_of(q: Seq<char>) -> u32 {
    let cleaned = spec_remove_pat(spec_remove_pat(q, "kbps"@), "k"@);
    match spec_parse_u64(cleaned) {
        Some(v) => if v <= u32::MAX {
            v as u32
        } else {
            256
        },
        None => 256,
    }
}

/// The Ogg quality level a selector denotes, when it reads as a small
/// number; 5 otherwise.
pub open spec fn spec_ogg_quality_of(q: Seq<char>) -> u8 {
    match spec_parse_u64(q) {
        Some(v) => if v <= 255 {
            v as u8
        } else {
            5
        },
        None => 5,
    }
}

/// Read a quality selector as a bitrate.
fn parse_bitrate(quality: &str) -> (r: u32)
    ensures
        r == spec_bitrate_of(quality@),
{
    proof {
        reveal_strlit("kbps");
        reveal_strlit("k");
    }
    let v = to_chars(quality);
    let step1 = remove_pat(&v, &to_chars("kbps"));
    let cleaned = remove_pat(&step1, &to_chars("k"));
    match parse_u64_range(&cleaned, 0, cleaned.len()) {
        Some(n) => {
            proof {
                assert(cleaned@.subrange(0, cleaned@.len() as int) =~= cleaned@);
            }
            if n <= 0xFFFFFFFF {
                n as u32
            } else {
                256
            }
        },
        None => {
            proof {
                assert(cleaned@.subrange(0, cleaned@.len() as int) =~= cleaned@);
            }
            256
        },
    }
}

/// What a format selector and quality selector together denote.
pub open spec fn spec_output_format_of(f: Seq<char>, q: Seq<char>) -> Option<OutputFormat> {
    if f == "mp3"@ {
        Some(OutputFormat::Mp3 { bitrate: spec_bitrate_of(q) })
    } else if f == "mp4"@ {
        Some(OutputFormat::Mp4 { resolution: arbitrary() })
    } else if f == "flac"@ {
        Some(OutputFormat::Flac)
    } else if f == "aac"@ {
        Some(OutputFormat::Aac { bitrate: spec_bitrate_of(q) })
    } else if f == "ogg"@ {
        Some(OutputFormat::Ogg { quality: spec_ogg_quality_of(q) })
    } else if f == "webm"@ {
        Some(OutputFormat::WebM { resolution: arbitrary() })
    } else {
        None
    }
}

/// Turn a format selector and quality selector into an output format, as
/// every front end does: audio formats read the quality as a bitrate (with
/// `kbps`/`k` suffixes tolerated), video formats carry the quality through
/// as their resolution, and an unknown selector is refused.
pub fn parse_output_format(format: &str, quality: &str) -> (r: Option<OutputFormat>)
    ensures
        (r is Some) == (spec_output_format_of(format@, quality@) is Some),
        r matches Some(of) ==> match of {
            OutputFormat::Mp3 { bitrate } => format@ == "mp3"@ && bitrate == spec_bitrate_of(
                quality@,
            ),
            OutputFormat::Mp4 { resolution } => format@ == "mp4"@ && resolution@ == quality@,
            OutputFormat::Flac => format@ == "flac"@,
            OutputFormat::Aac { bitrate } => format@ == "aac"@ && bitrate == spec_bitrate_of(
                quality@,
            ),
            OutputFormat::Ogg { quality: q } => format@ == "ogg"@ && q == spec_ogg_quality_of(
                quality@,
            ),
            OutputFormat::WebM { resolution } => format@ == "webm"@ && resolution@ == quality@,
        },
{
    if crate::text::str_eq(format, "mp3") {
        Some(OutputFormat::Mp3 { bitrate: parse_bitrate(quality) })
    } else if crate::text::str_eq(format, "mp4") {
        Some(OutputFormat::Mp4 { resolution: String::from_str(quality) })
    } else if crate::text::str_eq(format, "flac") {
        Some(OutputFormat::Flac)
    } else if crate::text::str_eq(format, "aac") {
        Some(OutputFormat::Aac { bitrate: parse_bitrate(quality) })
    } else if crate::text::str_eq(format, "ogg") {
        let q = match parse_u64_range(&to_chars(quality), 0, to_chars(quality).len()) {
            Some(n) => if n <= 255 {
                n as u8
            } else {
                5
            },
            None => 5,
        };
        proof {
            assert(quality@.subrange(0, quality@.len() as int) =~= quality@);
        }
        Some(OutputFormat::Ogg { quality: q })
    } else if crate::text::str_eq(format, "webm") {
        Some(OutputFormat::WebM { resolution: String::from_str(quality) })
    } else {
        None
    }
}

} // verus!
