//! Command-line argument shapes and the quality-selection helpers.  The
//! copies in the surrounding program carry the parser derives; these carry
//! the data the core computes on.

use vstd::prelude::*;
use crate::text::{to_chars, chars_eq, str_eq, sub_chars, split_str, spec_split};
use crate::utils::{spec_find_char_from, find_char_from};
use crate::trusted::chars_to_string;

verus! {

/// The whole command line.
pub struct Cli {
    pub command: Commands,
    pub verbose: bool,
    pub output: Option<String>,
}

/// The available subcommands.
pub enum Commands {
    Convert(ConvertArgs),
    Playlist(PlaylistArgs),
    Batch(BatchArgs),
    Download(DownloadArgs),
    Info(InfoArgs),
    Quality(QualityArgs),
    Config(ConfigArgs),
}

/// Arguments for converting a single video.
pub struct ConvertArgs {
    pub url: String,
    pub format: String,
    pub quality: String,
    pub name: Option<String>,
    pub preserve: bool,
    pub hardware: bool,
    pub threads: Option<usize>,
}

/// Arguments for converting a playlist.
pub struct PlaylistArgs {
    pub url: String,
    pub format: String,
    pub quality: String,
    pub limit: Option<usize>,
    pub start: usize,
    pub parallel: usize,
}

/// Arguments for a batch conversion over several formats.
pub struct BatchArgs {
    pub url: String,
    pub formats: String,
    pub qualities: Option<String>,
    pub jobs: usize,
    pub skip_existing: bool,
    pub create_subdirs: bool,
    pub add_index: bool,
    pub limit: Option<usize>,
    pub start: usize,
    pub thumbnails: bool,
    pub auto_download: bool,
}

/// Arguments for the download manager.
pub struct DownloadArgs {
    pub action: DownloadAction,
}

/// What the download manager should do.
pub enum DownloadAction {
    List,
    Get { ids: Vec<String>, output: Option<String> },
    Batch { job_id: String, output: Option<String> },
    Clean { days: u64 },
}

/// Arguments for showing a video's information.
pub struct InfoArgs {
    pub url: String,
    pub format: String,
}

/// Arguments for listing available qualities.
pub struct QualityArgs {
    pub url: String,
    pub audio_only: bool,
    pub video_only: bool,
}

/// Arguments for the configuration command.
pub struct ConfigArgs {
    pub action: ConfigAction,
}

/// What the configuration command should do.
pub enum ConfigAction {
    Show,
    SetValue { key: String, value: String },
    Reset,
}

/// ASCII whitespace, as trimmed from selector pieces.
pub open spec fn spec_ws_char(c: char) -> bool {
    c == ' ' || c == '\t' || c == '\n' || c == '\r' || c == '\u{b}' || c == '\u{c}'
}

/// `s` with leading whitespace removed.
pub open spec fn spec_trim_ws_start(s: Seq<char>) -> Seq<char>
    decreases s.len(),
{
    if s.len() == 0 {
        s
    } else if spec_ws_char(s[0]) {
        spec_trim_ws_start(s.drop_first())
    } else {
        s
    }
}

/// `s` with trailing whitespace removed.
pub open spec fn spec_trim_ws_end(s: Seq<char>) -> Seq<char>
    decreases s.len(),
{
    if s.len() == 0 {
        s
    } else if spec_ws_char(s.last()) {
        spec_trim_ws_end(s.drop_last())
    } else {
        s
    }
}

/// `s` with whitespace removed from both ends.
pub open spec fn spec_trim_ws(s: Seq<char>) -> Seq<char> {
    spec_trim_ws_end(spec_trim_ws_start(s))
}

/// Whether `c` is trimmed whitespace.
fn is_ws_char(c: char) -> (r: bool)
    ensures
        r == spec_ws_char(c),
{
    c == ' ' || c == '\t' || c == '\n' || c == '\r' || c == '\u{b}' || c == '\u{c}'
}

/// Trim ASCII whitespace from both ends of `v`.
fn trim_ws(v: &Vec<char>) -> (r: Vec<char>)
    ensures
        r@ == spec_trim_ws(v@),
{
    let n = v.len();
    let mut a: usize = 0;
    proof {
        assert(v@.subrange(0, n as int) =~= v@);
    }
    while a < n && is_ws_char(v[a])
        invariant
            n == v@.len(),
            a <= n,
            spec_trim_ws_start(v@) == spec_trim_ws_start(v@.subrange(a as int, n as int)),
        decreases n - a,
    {
        proof {
            assert(v@.subrange(a as int, n as int).drop_first() =~= v@.subrange(
                a as int + 1,
                n as int,
            ));
        }
        a = a + 1;
    }
    proof {
        if a == n {
            assert(v@.subrange(a as int, n as int) =~= Seq::<char>::empty());
        }
        assert(spec_trim_ws_start(v@) == v@.subrange(a as int, n as int));
    }
    let mut b: usize = n;
    while b > a && is_ws_char(v[b - 1])
        invariant
            n == v@.len(),
            a <= b <= n,
            spec_trim_ws_start(v@) == v@.subrange(a as int, n as int),
            spec_trim_ws_end(v@.subrange(a as int, n as int)) == spec_trim_ws_end(
                v@.subrange(a as int, b as int),
            ),
        decreases b,
    {
        proof {
            assert(v@.subrange(a as int, b as int).drop_last() =~= v@.subrange(
                a as int,
                b as int - 1,
            ));
        }
        b = b - 1;
    }
    proof {
        if b == a {
            assert(v@.subrange(a as int, b as int) =~= Seq::<char>::empty());
        }
        assert(spec_trim_ws_end(v@.subrange(a as int, n as int)) == v@.subrange(
            a as int,
            b as int,
        ));
    }
    sub_chars(v, a, b)
}

/// The quality selected for `format` by one `format:quality` piece, if the
/// piece names it.
pub open spec fn spec_pair_selects(p: Seq<char>, format: Seq<char>) -> Option<Seq<char>> {
    let colon = spec_find_char_from(p, 0, ':');
    if colon < p.len() {
        if spec_trim_ws(p.subrange(0, colon)) == format {
            Some(spec_trim_ws(p.subrange(colon + 1, p.len() as int)))
        } else {
            None
        }
    } else {
        None
    }
}

/// The first piece of `parts` (from position `i` on) that selects a
/// quality for `format`.
pub open spec fn spec_quality_for(parts: Seq<Seq<char>>, format: Seq<char>, i: nat) -> Option<
    Seq<char>,
>
    decreases parts.len() - i,
{
    if i >= parts.len() {
        None
    } else {
        match spec_pair_selects(parts[i as int], format) {
            Some(q) => Some(q),
            None => spec_quality_for(parts, format, i + 1),
        }
    }
}

/// Pick the quality for `format` out of a comma-separated list of
/// `format:quality` pairs, with whitespace around either side tolerated.
pub fn parse_quality_for_format(qualities: &str, format: &str) -> (r: Option<String>)
    ensures
        (r is Some) == (spec_quality_for(spec_split(qualities@, ','), format@, 0) is Some),
        r matches Some(q) ==> spec_quality_for(spec_split(qualities@, ','), format@, 0)
            matches Some(sq) && q@ == sq,
{
    let parts = split_str(qualities, ',');
    let ghost sparts = spec_split(qualities@, ',');
    let fv = to_chars(format);
    let mut i: usize = 0;
    while i < parts.len()
        invariant
            i <= parts@.len(),
            sparts == spec_split(qualities@, ','),
            parts.deep_view() == sparts,
            parts@.len() == sparts.len(),
            fv@ == format@,
            spec_quality_for(sparts, format@, 0) == spec_quality_for(sparts, format@, i as nat),
        decreases parts@.len() - i,
    {
        let p = &parts[i];
        proof {
            assert(p@ =~= sparts[i as int]);
        }
        let colon = find_char_from(p, 0, ':');
        if colon < p.len() {
            let left = sub_chars(p, 0, colon);
            let fmt = trim_ws(&left);
            if chars_eq(&fmt, &fv) {
                let right = sub_chars(p, colon + 1, p.len());
                let q = trim_ws(&right);
                proof {
                    let sp = sparts[i as int];
                    let scolon = spec_find_char_from(sp, 0, ':');
                    assert(scolon == colon as int);
                    assert(left@ =~= sp.subrange(0, scolon));
                    assert(right@ =~= sp.subrange(scolon + 1, sp.len() as int));
                    assert(spec_pair_selects(sp, format@) == Some(q@));
                    assert(spec_quality_for(sparts, format@, i as nat) == Some(q@));
                }
                return Some(chars_to_string(&q));
            }
        }
        i = i + 1;
    }
    None
}

/// The default quality for a format.
pub open spec fn spec_default_quality(f: Seq<char>) -> Seq<char> {
    if f == "mp3"@ || f == "aac"@ {
        "256"@
    } else if f == "mp4"@ || f == "webm"@ {
        "1080p"@
    } else if f == "flac"@ {
        "best"@
    } else if f == "ogg"@ {
        "5"@
    } else {
        "default"@
    }
}

/// The default quality used for a format when none is selected.
pub fn default_quality_for_format(format: &str) -> (r: String)
    ensures
        r@ == spec_default_quality(format@),
{
    if str_eq(format, "mp3") || str_eq(format, "aac") {
        String::from_str("256")
    } else if str_eq(format, "mp4") || str_eq(format, "webm") {
        String::from_str("1080p")
    } else if str_eq(format, "flac") {
        String::from_str("best")
    } else if str_eq(format, "ogg") {
        String::from_str("5")
    } else {
        String::from_str("default")
    }
}

} // verus!
