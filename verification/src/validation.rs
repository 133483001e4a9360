//! Plain input validation: address shape, format and quality whitelists,
//! filename whitelisting, HTML escaping, and injection-pattern detection.

use vstd::prelude::*;
use crate::text::{
    to_chars, str_eq, contains_chars, lower_chars, spec_lower, spec_contains,
};
use crate::trusted::chars_to_string;
use crate::utils::{spec_after_scheme, spec_after_www, spec_prefix_then_word, prefix_then_word_at};

verus! {

/// The injection fingerprints looked for (compared case-insensitively).
pub open spec fn spec_has_injection(s: Seq<char>) -> bool {
    let low = spec_lower(s);
    ||| spec_contains(low, "' or '1'='1"@)
    ||| spec_contains(low, "' or 1=1"@)
    ||| spec_contains(low, "'; drop table"@)
    ||| spec_contains(low, "'; delete from"@)
    ||| spec_contains(low, "union select"@)
    ||| spec_contains(low, "/*"@)
    ||| spec_contains(low, "*/"@)
    ||| spec_contains(low, "--"@)
    ||| spec_contains(low, "xp_cmdshell"@)
    ||| spec_contains(low, "<script"@)
    ||| spec_contains(low, "</script>"@)
    ||| spec_contains(low, "javascript:"@)
    ||| spec_contains(low, "vbscript:"@)
    ||| spec_contains(low, "onload="@)
    ||| spec_contains(low, "onerror="@)
    ||| spec_contains(low, "onclick="@)
    ||| spec_contains(low, "eval("@)
    ||| spec_contains(low, "alert("@)
}

/// Whether the lower-cased input holds any of the known injection
/// fingerprints.
pub fn contains_injection_patterns(input: &str) -> (r: bool)
    ensures
        r == spec_has_injection(input@),
{
    let v = to_chars(input);
    let low = lower_chars(&v);
    let mut hit = false;
    hit = hit || contains_chars(&low, &to_chars("' or '1'='1"));
    hit = hit || contains_chars(&low, &to_chars("' or 1=1"));
    hit = hit || contains_chars(&low, &to_chars("'; drop table"));
    hit = hit || contains_chars(&low, &to_chars("'; delete from"));
    hit = hit || contains_chars(&low, &to_chars("union select"));
    hit = hit || contains_chars(&low, &to_chars("/*"));
    hit = hit || contains_chars(&low, &to_chars("*/"));
    hit = hit || contains_chars(&low, &to_chars("--"));
    hit = hit || contains_chars(&low, &to_chars("xp_cmdshell"));
    hit = hit || contains_chars(&low, &to_chars("<script"));
    hit = hit || contains_chars(&low, &to_chars("</script>"));
    hit = hit || contains_chars(&low, &to_chars("javascript:"));
    hit = hit || contains_chars(&low, &to_chars("vbscript:"));
    hit = hit || contains_chars(&low, &to_chars("onload="));
    hit = hit || contains_chars(&low, &to_chars("onerror="));
    hit = hit || contains_chars(&low, &to_chars("onclick="));
    hit = hit || contains_chars(&low, &to_chars("eval("));
    hit = hit || contains_chars(&low, &to_chars("alert("));
    hit
}

/// The simple accepted address shape: an `http`/`https` watch or short
/// address with an identifier after its fixed prefix.
pub open spec fn spec_simple_url_ok(s: Seq<char>) -> bool {
    match spec_after_scheme(s) {
        Some(t) => {
            let u = spec_after_www(t);
            spec_prefix_then_word(u, "youtube.com/watch?v="@) || spec_prefix_then_word(
                u,
                "youtu.be/"@,
            )
        },
        None => false,
    }
}

/// What validating an address answers: nothing when it is accepted, or the
/// reason it is refused.
pub open spec fn spec_validate_simple_url(s: Seq<char>) -> Option<Seq<char>> {
    if s.len() > 2048 {
        Some("URL too long"@)
    } else if !spec_simple_url_ok(s) {
        Some("Invalid YouTube URL"@)
    } else if spec_has_injection(s) {
        Some("Suspicious content detected"@)
    } else {
        None
    }
}

/// Whether the address has the simple accepted shape.
fn simple_url_ok(url: &str) -> (r: bool)
    ensures
        r == spec_simple_url_ok(url@),
{
    proof {
        reveal_strlit("https://");
        reveal_strlit("http://");
        reveal_strlit("www.");
    }
    let v = to_chars(url);
    let https = to_chars("https://");
    let http = to_chars("http://");
    let mut off: usize = 0;
    if v.len() >= 8 && crate::text::matches_at(&v, &https, 0) {
        off = 8;
    } else if v.len() >= 7 && crate::text::matches_at(&v, &http, 0) {
        off = 7;
        proof {
            assert(url@.subrange(0, 7)[4] == url@[4]);
            if url@.len() >= 8 && url@.subrange(0, 8) == "https://"@ {
                assert(url@.subrange(0, 8)[4] == url@[4]);
            }
        }
    } else {
        proof {
            if url@.len() >= 8 && url@.subrange(0, 8) == "https://"@ {
                assert(crate::text::spec_matches_at(url@, "https://"@, 0));
            }
            if url@.len() >= 7 && url@.subrange(0, 7) == "http://"@ {
                assert(crate::text::spec_matches_at(url@, "http://"@, 0));
            }
        }
        return false;
    }
    let ghost t = url@.skip(off as int);
    proof {
        assert(spec_after_scheme(url@) == Some(t));
    }
    let www = to_chars("www.");
    if v.len() - off >= 4 && crate::text::matches_at(&v, &www, off) {
        proof {
            assert(t.subrange(0, 4) =~= url@.subrange(off as int, off as int + 4));
            assert(spec_after_www(t) == t.skip(4));
            assert(t.skip(4) =~= url@.skip(off as int + 4));
        }
        off = off + 4;
    } else {
        proof {
            if t.len() >= 4 && t.subrange(0, 4) == "www."@ {
                assert(t.subrange(0, 4) =~= url@.subrange(off as int, off as int + 4));
            }
            assert(spec_after_www(t) == t);
        }
    }
    prefix_then_word_at(&v, off, "youtube.com/watch?v=") || prefix_then_word_at(
        &v,
        off,
        "youtu.be/",
    )
}

/// Validate a single-video address: length, shape, then injection check.
pub fn validate_youtube_url(url: &str) -> (r: Result<(), String>)
    ensures
        (r is Ok) == (spec_validate_simple_url(url@) is None),
        r matches Err(e) ==> spec_validate_simple_url(url@) matches Some(m) && e@ == m,
{
    if crate::text::to_chars(url).len() > 2048 {
        return Err(String::from_str("URL too long"));
    }
    if !simple_url_ok(url) {
        return Err(String::from_str("Invalid YouTube URL"));
    }
    if contains_injection_patterns(url) {
        return Err(String::from_str("Suspicious content detected"));
    }
    Ok(())
}

/// The accepted output formats.
pub open spec fn spec_format_allowed(f: Seq<char>) -> bool {
    f == "mp3"@ || f == "mp4"@ || f == "wav"@ || f == "flac"@ || f == "m4a"@
}

/// Validate an output format against the whitelist.
pub fn validate_format(format: &str) -> (r: Result<(), String>)
    ensures
        (r is Ok) == spec_format_allowed(format@),
        r matches Err(e) ==> e@ == "Invalid format"@,
{
    if str_eq(format, "mp3") || str_eq(format, "mp4") || str_eq(format, "wav") || str_eq(
        format,
        "flac",
    ) || str_eq(format, "m4a") {
        Ok(())
    } else {
        Err(String::from_str("Invalid format"))
    }
}

/// The accepted quality selectors.
pub open spec fn spec_quality_allowed(q: Seq<char>) -> bool {
    q == "96"@ || q == "128"@ || q == "192"@ || q == "256"@ || q == "320"@ || q == "flac"@
}

/// Validate a quality selector against the whitelist.
pub fn validate_quality(quality: &str) -> (r: Result<(), String>)
    ensures
        (r is Ok) == spec_quality_allowed(quality@),
        r matches Err(e) ==> e@ == "Invalid quality"@,
{
    if str_eq(quality, "96") || str_eq(quality, "128") || str_eq(quality, "192") || str_eq(
        quality,
        "256",
    ) || str_eq(quality, "320") || str_eq(quality, "flac") {
        Ok(())
    } else {
        Err(String::from_str("Invalid quality"))
    }
}

/// The characters a whitelisted filename may keep: ASCII letters and
/// digits, dashes, underscores and dots.
pub open spec fn spec_filename_char_ok(c: char) -> bool {
    ('a' <= c && c <= 'z') || ('A' <= c && c <= 'Z') || ('0' <= c && c <= '9') || c == '-' || c
        == '_' || c == '.'
}

/// `s` restricted to whitelisted filename characters, in order.
pub open spec fn spec_keep_filename_chars(s: Seq<char>) -> Seq<char>
    decreases s.len(),
{
    if s.len() == 0 {
        Seq::empty()
    } else {
        spec_keep_filename_chars(s.drop_last()) + (if spec_filename_char_ok(s.last()) {
            seq![s.last()]
        } else {
            Seq::<char>::empty()
        })
    }
}

/// The whitelisted filename, cut to at most 255 characters.
pub open spec fn spec_whitelist_filename(s: Seq<char>) -> Seq<char> {
    let k = spec_keep_filename_chars(s);
    if k.len() > 255 {
        k.subrange(0, 255)
    } else {
        k
    }
}

/// Keep only whitelisted characters of `v`.
pub(crate) fn keep_filename_chars(v: &Vec<char>) -> (r: Vec<char>)
    ensures
        r@ == spec_keep_filename_chars(v@),
{
    let mut out: Vec<char> = Vec::new();
    let mut i: usize = 0;
    while i < v.len()
        invariant
            i <= v@.len(),
            out@ == spec_keep_filename_chars(v@.subrange(0, i as int)),
        decreases v@.len() - i,
    {
        proof {
            assert(v@.subrange(0, i as int + 1).drop_last() =~= v@.subrange(0, i as int));
        }
        let c = v[i];
        let ok = (c >= 'a' && c <= 'z') || (c >= 'A' && c <= 'Z') || (c >= '0' && c <= '9') || c
            == '-' || c == '_' || c == '.';
        if ok {
            out.push(c);
        }
        i = i + 1;
        proof {
            assert(out@ =~= spec_keep_filename_chars(v@.subrange(0, i as int)));
        }
    }
    proof {
        assert(v@.subrange(0, v@.len() as int) =~= v@);
    }
    out
}

/// Reduce a filename to whitelisted characters, at most 255 of them.
pub fn sanitize_filename(filename: &str) -> (r: String)
    ensures
        r@ == spec_whitelist_filename(filename@),
{
    let v = to_chars(filename);
    let mut kept = keep_filename_chars(&v);
    if kept.len() > 255 {
        kept.truncate(255);
        proof {
            assert(kept@ =~= spec_whitelist_filename(filename@));
        }
    }
    chars_to_string(&kept)
}

/// What one character becomes under the HTML escaping chain.  The ampersand
/// replacement runs last in the chain, so the ampersands introduced by the
/// earlier entities are themselves escaped.
pub open spec fn spec_escape_char(c: char) -> Seq<char> {
    if c == '<' {
        "&amp;lt;"@
    } else if c == '>' {
        "&amp;gt;"@
    } else if c == '"' {
        "&amp;quot;"@
    } else if c == '\'' {
        "&amp;#x27;"@
    } else if c == '&' {
        "&amp;"@
    } else {
        seq![c]
    }
}

/// The whole text under the HTML escaping chain.
pub open spec fn spec_escape_html(s: Seq<char>) -> Seq<char>
    decreases s.len(),
{
    if s.len() == 0 {
        Seq::empty()
    } else {
        spec_escape_html(s.drop_last()) + spec_escape_char(s.last())
    }
}

/// Escape HTML metacharacters.
pub fn sanitize_html(input: &str) -> (r: String)
    ensures
        r@ == spec_escape_html(input@),
{
    let v = to_chars(input);
    let mut out: Vec<char> = Vec::new();
    let mut i: usize = 0;
    while i < v.len()
        invariant
            i <= v@.len(),
            out@ == spec_escape_html(v@.subrange(0, i as int)),
        decreases v@.len() - i,
    {
        proof {
            assert(v@.subrange(0, i as int + 1).drop_last() =~= v@.subrange(0, i as int));
        }
        let c = v[i];
        if c == '<' {
            crate::text::push_str_chars(&mut out, "&amp;lt;");
        } else if c == '>' {
            crate::text::push_str_chars(&mut out, "&amp;gt;");
        } else if c == '"' {
            crate::text::push_str_chars(&mut out, "&amp;quot;");
        } else if c == '\'' {
            crate::text::push_str_chars(&mut out, "&amp;#x27;");
        } else if c == '&' {
            crate::text::push_str_chars(&mut out, "&amp;");
        } else {
            out.push(c);
        }
        i = i + 1;
        proof {
            assert(out@ =~= spec_escape_html(v@.subrange(0, i as int)));
        }
    }
    proof {
        assert(v@.subrange(0, v@.len() as int) =~= v@);
    }
    chars_to_string(&out)
}

} // verus!
