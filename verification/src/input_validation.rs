//! Injection-hardened request validation: full URL validation through a
//! real URL parser, path-traversal-safe filename cleaning, and a wider
//! injection fingerprint list.

use vstd::prelude::*;
use crate::text::{
    to_chars, str_eq, contains_chars, lower_chars, spec_lower, spec_contains, remove_pat,
    spec_remove_pat,
};
use crate::trusted::{
    chars_to_string, parse_url_parts, url_parse_ok, url_scheme_of, url_host_of, url_path_of,
};
use crate::validation::{
    spec_keep_filename_chars, keep_filename_chars, spec_escape_html,
};

verus! {

/// A single-video conversion request, as a handler receives it.
pub struct ConvertRequest {
    pub url: String,
    pub format: String,
    pub quality: String,
    pub output_path: Option<String>,
}

/// A playlist conversion request, as a handler receives it.
pub struct PlaylistRequest {
    pub url: String,
    pub format: String,
    pub quality: String,
    pub max_videos: Option<u32>,
}

/// The injection fingerprints looked for here (compared
/// case-insensitively); a superset of the simple validator's list.
pub open spec fn spec_has_injection_wide(s: Seq<char>) -> bool {
    let low = spec_lower(s);
    ||| spec_contains(low, "' or '1'='1"@)
    ||| spec_contains(low, "' or 1=1"@)
    ||| spec_contains(low, "'; drop table"@)
    ||| spec_contains(low, "'; delete from"@)
    ||| spec_contains(low, "union select"@)
    ||| spec_contains(low, "insert into"@)
    ||| spec_contains(low, "update set"@)
    ||| spec_contains(low, "' union"@)
    ||| spec_contains(low, "/*"@)
    ||| spec_contains(low, "*/"@)
    ||| spec_contains(low, "--"@)
    ||| spec_contains(low, "xp_cmdshell"@)
    ||| spec_contains(low, "sp_executesql"@)
    ||| spec_contains(low, "<script"@)
    ||| spec_contains(low, "</script>"@)
    ||| spec_contains(low, "javascript:"@)
    ||| spec_contains(low, "vbscript:"@)
    ||| spec_contains(low, "onload="@)
    ||| spec_contains(low, "onerror="@)
    ||| spec_contains(low, "onclick="@)
    ||| spec_contains(low, "onmouseover="@)
    ||| spec_contains(low, "eval("@)
    ||| spec_contains(low, "alert("@)
    ||| spec_contains(low, "confirm("@)
    ||| spec_contains(low, "prompt("@)
}

/// Whether the lower-cased input holds any of the known injection
/// fingerprints.
pub fn contains_injection_patterns(input: &str) -> (r: bool)
    ensures
        r == spec_has_injection_wide(input@),
{
    let v = to_chars(input);
    let low = lower_chars(&v);
    let mut hit = false;
    hit = hit || contains_chars(&low, &to_chars("' or '1'='1"));
    hit = hit || contains_chars(&low, &to_chars("' or 1=1"));
    hit = hit || contains_chars(&low, &to_chars("'; drop table"));
    hit = hit || contains_chars(&low, &to_chars("'; delete from"));
    hit = hit || contains_chars(&low, &to_chars("union select"));
    hit = hit || contains_chars(&low, &to_chars("insert into"));
    hit = hit || contains_chars(&low, &to_chars("update set"));
    hit = hit || contains_chars(&low, &to_chars("' union"));
    hit = hit || contains_chars(&low, &to_chars("/*"));
    hit = hit || contains_chars(&low, &to_chars("*/"));
    hit = hit || contains_chars(&low, &to_chars("--"));
    hit = hit || contains_chars(&low, &to_chars("xp_cmdshell"));
    hit = hit || contains_chars(&low, &to_chars("sp_executesql"));
    hit = hit || contains_chars(&low, &to_chars("<script"));
    hit = hit || contains_chars(&low, &to_chars("</script>"));
    hit = hit || contains_chars(&low, &to_chars("javascript:"));
    hit = hit || contains_chars(&low, &to_chars("vbscript:"));
    hit = hit || contains_chars(&low, &to_chars("onload="));
    hit = hit || contains_chars(&low, &to_chars("onerror="));
    hit = hit || contains_chars(&low, &to_chars("onclick="));
    hit = hit || contains_chars(&low, &to_chars("onmouseover="));
    hit = hit || contains_chars(&low, &to_chars("eval("));
    hit = hit || contains_chars(&low, &to_chars("alert("));
    hit = hit || contains_chars(&low, &to_chars("confirm("));
    hit = hit || contains_chars(&low, &to_chars("prompt("));
    hit
}

/// The hosts a video address may name.
pub open spec fn spec_allowed_host(h: Seq<char>) -> bool {
    h == "youtube.com"@ || h == "www.youtube.com"@ || h == "youtu.be"@ || h == "m.youtube.com"@
}

/// What validating an address answers: nothing when it is accepted, or the
/// code naming the first check it fails.  The parse, scheme, host and path
/// of the address are those the URL parser yields for it.
pub open spec fn spec_validate_url(s: Seq<char>) -> Option<Seq<char>> {
    if spec_has_injection_wide(s) {
        Some("injection_detected"@)
    } else if s.len() > 2048 {
        Some("url_too_long"@)
    } else if !url_parse_ok(s) {
        Some("invalid_url"@)
    } else if !(url_scheme_of(s) == "https"@ || url_scheme_of(s) == "http"@) {
        Some("invalid_scheme"@)
    } else if url_host_of(s) is None {
        Some("no_host"@)
    } else if !(url_host_of(s) matches Some(h) && spec_allowed_host(h)) {
        Some("unauthorized_domain"@)
    } else if spec_contains(url_path_of(s), ".."@) || spec_contains(url_path_of(s), "%2e%2e"@) {
        Some("path_traversal"@)
    } else {
        None
    }
}

/// Validate a single-video address: injection fingerprints, length, a real
/// URL parse, scheme and host whitelists, and a path-traversal check.
pub fn validate_youtube_url(url: &str) -> (r: Result<(), String>)
    ensures
        (r is Ok) == (spec_validate_url(url@) is None),
        r matches Err(e) ==> spec_validate_url(url@) matches Some(m) && e@ == m,
{
    if contains_injection_patterns(url) {
        return Err(String::from_str("injection_detected"));
    }
    if to_chars(url).len() > 2048 {
        return Err(String::from_str("url_too_long"));
    }
    let parts = match parse_url_parts(url) {
        Some(p) => p,
        None => {
            return Err(String::from_str("invalid_url"));
        },
    };
    if !(str_eq(parts.scheme.as_str(), "https") || str_eq(parts.scheme.as_str(), "http")) {
        return Err(String::from_str("invalid_scheme"));
    }
    let host = match &parts.host {
        Some(h) => h,
        None => {
            return Err(String::from_str("no_host"));
        },
    };
    let host_ok = str_eq(host.as_str(), "youtube.com") || str_eq(host.as_str(), "www.youtube.com")
        || str_eq(host.as_str(), "youtu.be") || str_eq(host.as_str(), "m.youtube.com");
    if !host_ok {
        return Err(String::from_str("unauthorized_domain"));
    }
    let path = to_chars(parts.path.as_str());
    if contains_chars(&path, &to_chars("..")) || contains_chars(&path, &to_chars("%2e%2e")) {
        return Err(String::from_str("path_traversal"));
    }
    Ok(())
}

/// What validating a playlist address answers: the single-video checks, and
/// then the address must mention a playlist.
pub open spec fn spec_validate_playlist_url(s: Seq<char>) -> Option<Seq<char>> {
    match spec_validate_url(s) {
        Some(m) => Some(m),
        None => if !(spec_contains(s, "list="@) || spec_contains(s, "playlist"@)) {
            Some("not_playlist_url"@)
        } else {
            None
        },
    }
}

/// Validate a playlist address: the single-video checks, then the address
/// must mention a playlist.
pub fn validate_youtube_playlist_url(url: &str) -> (r: Result<(), String>)
    ensures
        (r is Ok) == (spec_validate_playlist_url(url@) is None),
        r matches Err(e) ==> spec_validate_playlist_url(url@) matches Some(m) && e@ == m,
{
    match validate_youtube_url(url) {
        Ok(()) => {},
        Err(e) => {
            return Err(e);
        },
    }
    let v = to_chars(url);
    if !(contains_chars(&v, &to_chars("list=")) || contains_chars(&v, &to_chars("playlist"))) {
        return Err(String::from_str("not_playlist_url"));
    }
    Ok(())
}

/// The traversal-safe form of a filename: every `..` removed, then only
/// whitelisted characters kept (which drops path separators), cut to at
/// most 255 characters.
pub open spec fn spec_safe_filename(s: Seq<char>) -> Seq<char> {
    let k = spec_keep_filename_chars(spec_remove_pat(s, ".."@));
    if k.len() > 255 {
        k.subrange(0, 255)
    } else {
        k
    }
}

/// Clean a filename against path traversal: remove `..` sequences, keep
/// only whitelisted characters, and cut to at most 255.
pub fn sanitize_filename(filename: &str) -> (r: String)
    ensures
        r@ == spec_safe_filename(filename@),
{
    proof {
        reveal_strlit("..");
    }
    let v = to_chars(filename);
    let dots = to_chars("..");
    let cleaned = remove_pat(&v, &dots);
    let mut kept = keep_filename_chars(&cleaned);
    if kept.len() > 255 {
        kept.truncate(255);
        proof {
            assert(kept@ =~= spec_safe_filename(filename@));
        }
    }
    chars_to_string(&kept)
}

/// Escape HTML metacharacters, exactly as the simple validator does.
pub fn sanitize_html(input: &str) -> (r: String)
    ensures
        r@ == spec_escape_html(input@),
{
    crate::validation::sanitize_html(input)
}

} // verus!
