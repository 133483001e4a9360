//! General-purpose helpers: safe filenames, duration and size formatting,
//! file-extension classification, and address recognition for the supported
//! video site.

use vstd::prelude::*;
use crate::text::{
    to_chars, sub_chars, chars_eq, matches_at, push_chars, push_str_chars, dec_chars, pad2_chars,
    digit_char, split_str, parse_u64_range, lower_chars, spec_lower, spec_dec, spec_pad2,
    spec_split, spec_parse_u64, spec_digit_char, spec_matches_at,
};
use crate::trusted::chars_to_string;

verus! {

/// Characters that may not appear in a filename.
pub open spec fn spec_invalid_filename_char(c: char) -> bool {
    c == '<' || c == '>' || c == ':' || c == '"' || c == '/' || c == '\\' || c == '|' || c == '?'
        || c == '*'
}

/// Every invalid filename character replaced by an underscore.
pub open spec fn spec_replace_invalid(s: Seq<char>) -> Seq<char> {
    s.map_values(
        |c: char|
            if spec_invalid_filename_char(c) {
                '_'
            } else {
                c
            },
    )
}

/// Characters trimmed from the ends of a filename: ASCII whitespace and dots.
pub open spec fn spec_trim_char(c: char) -> bool {
    c == ' ' || c == '\t' || c == '\n' || c == '\r' || c == '\u{b}' || c == '\u{c}' || c == '.'
}

/// `s` with leading trim characters removed.
pub open spec fn spec_trim_start(s: Seq<char>) -> Seq<char>
    decreases s.len(),
{
    if s.len() == 0 {
        s
    } else if spec_trim_char(s[0]) {
        spec_trim_start(s.drop_first())
    } else {
        s
    }
}

/// `s` with trailing trim characters removed.
pub open spec fn spec_trim_end(s: Seq<char>) -> Seq<char>
    decreases s.len(),
{
    if s.len() == 0 {
        s
    } else if spec_trim_char(s.last()) {
        spec_trim_end(s.drop_last())
    } else {
        s
    }
}

/// The sanitized form of a filename: invalid characters replaced by `'_'`,
/// whitespace and dots trimmed from both ends, the result cut to at most 200
/// characters, and an empty result replaced by `"untitled"`.
pub open spec fn spec_sanitize_filename(s: Seq<char>) -> Seq<char> {
    let t = spec_trim_end(spec_trim_start(spec_replace_invalid(s)));
    let l = if t.len() > 200 {
        t.subrange(0, 200)
    } else {
        t
    };
    if l.len() == 0 {
        "untitled"@
    } else {
        l
    }
}

/// Whether `c` is trimmed from the ends of a filename.
fn is_trim_char(c: char) -> (r: bool)
    ensures
        r == spec_trim_char(c),
{
    c == ' ' || c == '\t' || c == '\n' || c == '\r' || c == '\u{b}' || c == '\u{c}' || c == '.'
}

/// Make a filename safe for the filesystem.
pub fn sanitize_filename(name: &str) -> (r: String)
    ensures
        r@ == spec_sanitize_filename(name@),
{
    let v = to_chars(name);
    let mut rep: Vec<char> = Vec::new();
    let mut i: usize = 0;
    while i < v.len()
        invariant
            i <= v@.len(),
            rep@ == spec_replace_invalid(v@).subrange(0, i as int),
        decreases v@.len() - i,
    {
        let c = v[i];
        let invalid = c == '<' || c == '>' || c == ':' || c == '"' || c == '/' || c == '\\' || c
            == '|' || c == '?' || c == '*';
        if invalid {
            rep.push('_');
        } else {
            rep.push(c);
        }
        i = i + 1;
        proof {
            assert(rep@ =~= spec_replace_invalid(v@).subrange(0, i as int));
        }
    }
    proof {
        assert(rep@ =~= spec_replace_invalid(v@));
    }
    let n = rep.len();
    let mut a: usize = 0;
    while a < n && is_trim_char(rep[a])
        invariant
            n == rep@.len(),
            a <= n,
            spec_trim_start(rep@) == spec_trim_start(rep@.subrange(a as int, n as int)),
        decreases n - a,
    {
        proof {
            assert(rep@.subrange(a as int, n as int).drop_first() =~= rep@.subrange(
                a as int + 1,
                n as int,
            ));
        }
        a = a + 1;
    }
    proof {
        if a == n {
            assert(rep@.subrange(a as int, n as int) =~= Seq::<char>::empty());
        }
        assert(spec_trim_start(rep@) == rep@.subrange(a as int, n as int));
    }
    let mut b: usize = n;
    while b > a && is_trim_char(rep[b - 1])
        invariant
            n == rep@.len(),
            a <= b <= n,
            spec_trim_start(rep@) == rep@.subrange(a as int, n as int),
            spec_trim_end(rep@.subrange(a as int, n as int)) == spec_trim_end(
                rep@.subrange(a as int, b as int),
            ),
        decreases b,
    {
        proof {
            assert(rep@.subrange(a as int, b as int).drop_last() =~= rep@.subrange(
                a as int,
                b as int - 1,
            ));
        }
        b = b - 1;
    }
    proof {
        if b == a {
            assert(rep@.subrange(a as int, b as int) =~= Seq::<char>::empty());
        }
        assert(spec_trim_end(rep@.subrange(a as int, n as int)) == rep@.subrange(
            a as int,
            b as int,
        ));
    }
    let cut = if b - a > 200 {
        a + 200
    } else {
        b
    };
    proof {
        if b - a > 200 {
            assert(rep@.subrange(a as int, cut as int) =~= rep@.subrange(a as int, b as int)
                .subrange(0, 200));
        }
    }
    let kept = sub_chars(&rep, a, cut);
    if kept.len() == 0 {
        String::from_str("untitled")
    } else {
        chars_to_string(&kept)
    }
}

/// The `HH:MM:SS` (or `MM:SS` when there is no full hour) rendering of a
/// duration in seconds, each part zero-padded to two digits.
pub open spec fn spec_format_duration(n: nat) -> Seq<char> {
    let h = n / 3600;
    let m = (n % 3600) / 60;
    let s = n % 60;
    if h > 0 {
        spec_pad2(h) + seq![':'] + spec_pad2(m) + seq![':'] + spec_pad2(s)
    } else {
        spec_pad2(m) + seq![':'] + spec_pad2(s)
    }
}

/// Render a duration in seconds as `HH:MM:SS`, or `MM:SS` below one hour.
pub fn format_duration(seconds: u64) -> (r: String)
    ensures
        r@ == spec_format_duration(seconds as nat),
{
    let hours = seconds / 3600;
    let minutes = (seconds % 3600) / 60;
    let secs = seconds % 60;
    let mut out: Vec<char> = Vec::new();
    if hours > 0 {
        let p = pad2_chars(hours);
        push_chars(&mut out, &p);
        out.push(':');
    }
    let p = pad2_chars(minutes);
    push_chars(&mut out, &p);
    out.push(':');
    let p = pad2_chars(secs);
    push_chars(&mut out, &p);
    proof {
        assert(out@ =~= spec_format_duration(seconds as nat));
    }
    chars_to_string(&out)
}

/// Minutes and seconds combined, when the sum fits in a `u64`.
pub open spec fn spec_combine_ms(m: Option<u64>, s: Option<u64>) -> Option<u64> {
    match (m, s) {
        (Some(m), Some(s)) => if m * 60 + s <= u64::MAX {
            Some((m * 60 + s) as u64)
        } else {
            None
        },
        _ => None,
    }
}

/// Hours, minutes and seconds combined, when the sum fits in a `u64`.
pub open spec fn spec_combine_hms(h: Option<u64>, m: Option<u64>, s: Option<u64>) -> Option<u64> {
    match (h, m, s) {
        (Some(h), Some(m), Some(s)) => if h * 3600 + m * 60 + s <= u64::MAX {
            Some((h * 3600 + m * 60 + s) as u64)
        } else {
            None
        },
        _ => None,
    }
}

/// What `parse_duration` accepts: `MM:SS` or `HH:MM:SS` with each part a
/// decimal number, yielding the total seconds when it fits in a `u64`.
pub open spec fn spec_parse_duration(s: Seq<char>) -> Option<u64> {
    let parts = spec_split(s, ':');
    if parts.len() == 2 {
        spec_combine_ms(spec_parse_u64(parts[0]), spec_parse_u64(parts[1]))
    } else if parts.len() == 3 {
        spec_combine_hms(
            spec_parse_u64(parts[0]),
            spec_parse_u64(parts[1]),
            spec_parse_u64(parts[2]),
        )
    } else {
        None
    }
}

/// Parse a `MM:SS` or `HH:MM:SS` duration into seconds.
pub fn parse_duration(duration_str: &str) -> (r: Option<u64>)
    ensures
        r == spec_parse_duration(duration_str@),
{
    let parts = split_str(duration_str, ':');
    let ghost sparts = spec_split(duration_str@, ':');
    proof {
        assert(parts@.len() == sparts.len());
    }
    if parts.len() == 2 {
        let m = parse_u64_range(&parts[0], 0, parts[0].len());
        let s = parse_u64_range(&parts[1], 0, parts[1].len());
        proof {
            assert(parts@[0]@.subrange(0, parts@[0]@.len() as int) =~= sparts[0]);
            assert(parts@[1]@.subrange(0, parts@[1]@.len() as int) =~= sparts[1]);
        }
        match (m, s) {
            (Some(m), Some(s)) => {
                if m > (u64::MAX - s) / 60 {
                    None
                } else {
                    Some(m * 60 + s)
                }
            },
            _ => None,
        }
    } else if parts.len() == 3 {
        let h = parse_u64_range(&parts[0], 0, parts[0].len());
        let m = parse_u64_range(&parts[1], 0, parts[1].len());
        let s = parse_u64_range(&parts[2], 0, parts[2].len());
        proof {
            assert(parts@[0]@.subrange(0, parts@[0]@.len() as int) =~= sparts[0]);
            assert(parts@[1]@.subrange(0, parts@[1]@.len() as int) =~= sparts[1]);
            assert(parts@[2]@.subrange(0, parts@[2]@.len() as int) =~= sparts[2]);
        }
        match (h, m, s) {
            (Some(h), Some(m), Some(s)) => {
                if m > (u64::MAX - s) / 60 {
                    None
                } else {
                    let ms = m * 60 + s;
                    if h > (u64::MAX - ms) / 3600 {
                        None
                    } else {
                        Some(h * 3600 + ms)
                    }
                }
            },
            _ => None,
        }
    } else {
        None
    }
}

/// The size unit shown for scale `k`.
pub open spec fn spec_size_unit(k: nat) -> Seq<char> {
    if k == 0 {
        "B"@
    } else if k == 1 {
        "KB"@
    } else if k == 2 {
        "MB"@
    } else if k == 3 {
        "GB"@
    } else {
        "TB"@
    }
}

/// The scale at which `n` bytes are shown: the largest power of 1024 (at
/// most the fourth) that `n` reaches.
pub open spec fn spec_unit_index(n: nat) -> nat {
    if n < 1024 {
        0
    } else if n < 1048576 {
        1
    } else if n < 1073741824 {
        2
    } else if n < 1099511627776 {
        3
    } else {
        4
    }
}

/// The divisor for scale `k >= 1`.
pub open spec fn spec_unit_divisor(k: nat) -> nat {
    if k <= 1 {
        1024
    } else if k == 2 {
        1048576
    } else if k == 3 {
        1073741824
    } else {
        1099511627776
    }
}

/// The human-readable rendering of a byte count: an exact integer below one
/// kilobyte, otherwise the scaled value rounded to one decimal place
/// (half-up), followed by the unit.
pub open spec fn spec_format_bytes(n: nat) -> Seq<char> {
    let k = spec_unit_index(n);
    if k == 0 {
        spec_dec(n) + seq![' '] + "B"@
    } else {
        let div = spec_unit_divisor(k);
        let t = (n * 10 + div / 2) / div;
        spec_dec(t / 10) + seq!['.'] + seq![spec_digit_char(t % 10)] + seq![' '] + spec_size_unit(
            k,
        )
    }
}

/// Render a byte count as a human-readable size with one decimal place.
pub fn format_bytes(bytes: u64) -> (r: String)
    ensures
        r@ == spec_format_bytes(bytes as nat),
{
    let mut out: Vec<char> = Vec::new();
    if bytes < 1024 {
        let d = dec_chars(bytes);
        push_chars(&mut out, &d);
        out.push(' ');
        push_str_chars(&mut out, "B");
        proof {
            assert(out@ =~= spec_format_bytes(bytes as nat));
        }
        return chars_to_string(&out);
    }
    let div: u64 = if bytes < 1048576 {
        1024
    } else if bytes < 1073741824 {
        1048576
    } else if bytes < 1099511627776 {
        1073741824
    } else {
        1099511627776
    };
    let wide: u128 = ((bytes as u128) * 10 + ((div / 2) as u128)) / (div as u128);
    proof {
        assert(wide == ((bytes as nat) * 10 + (div as nat) / 2) / (div as nat));
        assert(wide <= u64::MAX) by {
            assert((bytes as nat) * 10 + (div as nat) / 2 <= u64::MAX * 10 + 549755813888);
        }
    }
    let t = wide as u64;
    let d = dec_chars(t / 10);
    push_chars(&mut out, &d);
    out.push('.');
    out.push(digit_char((t % 10) as u8));
    out.push(' ');
    if bytes < 1048576 {
        push_str_chars(&mut out, "KB");
    } else if bytes < 1073741824 {
        push_str_chars(&mut out, "MB");
    } else if bytes < 1099511627776 {
        push_str_chars(&mut out, "GB");
    } else {
        push_str_chars(&mut out, "TB");
    }
    proof {
        assert(out@ =~= spec_format_bytes(bytes as nat));
    }
    chars_to_string(&out)
}

/// The index of the last occurrence of `c` in `s`, if any.
pub open spec fn spec_rfind(s: Seq<char>, c: char) -> Option<int>
    decreases s.len(),
{
    if s.len() == 0 {
        None
    } else if s.last() == c {
        Some(s.len() - 1)
    } else {
        spec_rfind(s.drop_last(), c)
    }
}

/// The final component of a path: everything after the last `'/'`.
pub open spec fn spec_file_part(s: Seq<char>) -> Seq<char> {
    match spec_rfind(s, '/') {
        Some(i) => s.subrange(i + 1, s.len() as int),
        None => s,
    }
}

/// The lower-cased extension of a path's final component: the text after its
/// last dot, provided that dot is not the component's first character.
pub open spec fn spec_file_extension(s: Seq<char>) -> Option<Seq<char>> {
    let f = spec_file_part(s);
    match spec_rfind(f, '.') {
        Some(i) => if i > 0 {
            Some(spec_lower(f.subrange(i + 1, f.len() as int)))
        } else {
            None
        },
        None => None,
    }
}

/// The index of the last occurrence of `c` in `v`, if any.
pub fn rfind_char(v: &Vec<char>, c: char) -> (r: Option<usize>)
    ensures
        match r {
            Some(i) => i < v@.len() && spec_rfind(v@, c) == Some(i as int),
            None => spec_rfind(v@, c) is None,
        },
{
    let mut b: usize = v.len();
    proof {
        assert(v@.subrange(0, v@.len() as int) =~= v@);
    }
    while b > 0
        invariant
            b <= v@.len(),
            spec_rfind(v@, c) == spec_rfind(v@.subrange(0, b as int), c),
        decreases b,
    {
        proof {
            assert(v@.subrange(0, b as int).drop_last() =~= v@.subrange(0, b as int - 1));
        }
        if v[b - 1] == c {
            return Some(b - 1);
        }
        b = b - 1;
    }
    proof {
        assert(v@.subrange(0, 0) =~= Seq::<char>::empty());
    }
    None
}

/// The lower-cased extension of `path`, if its final component has one.
pub fn get_file_extension(path: &str) -> (r: Option<String>)
    ensures
        (r is Some) == (spec_file_extension(path@) is Some),
        r matches Some(e) ==> spec_file_extension(path@) matches Some(se) && e@ == se,
{
    let v = to_chars(path);
    proof {
        assert(v.len() == v@.len());
    }
    let start = match rfind_char(&v, '/') {
        Some(i) => i + 1,
        None => 0,
    };
    let f = sub_chars(&v, start, v.len());
    proof {
        assert(f@ == spec_file_part(path@));
    }
    match rfind_char(&f, '.') {
        Some(i) => {
            if i > 0 {
                let ext = sub_chars(&f, i + 1, f.len());
                let low = lower_chars(&ext);
                Some(chars_to_string(&low))
            } else {
                None
            }
        },
        None => None,
    }
}

/// The file extensions treated as video.
pub open spec fn spec_is_video_ext(e: Seq<char>) -> bool {
    e == "mp4"@ || e == "avi"@ || e == "mkv"@ || e == "mov"@ || e == "wmv"@ || e == "flv"@ || e
        == "webm"@
}

/// The file extensions treated as audio.
pub open spec fn spec_is_audio_ext(e: Seq<char>) -> bool {
    e == "mp3"@ || e == "flac"@ || e == "aac"@ || e == "ogg"@ || e == "wav"@ || e == "m4a"@
}

/// Whether the path names a video file, judged by its extension.
pub fn is_video_file(path: &str) -> (r: bool)
    ensures
        r == (spec_file_extension(path@) matches Some(e) && spec_is_video_ext(e)),
{
    match get_file_extension(path) {
        Some(ext) => {
            let e = ext.as_str();
            crate::text::str_eq(e, "mp4") || crate::text::str_eq(e, "avi") || crate::text::str_eq(
                e,
                "mkv",
            ) || crate::text::str_eq(e, "mov") || crate::text::str_eq(e, "wmv")
                || crate::text::str_eq(e, "flv") || crate::text::str_eq(e, "webm")
        },
        None => false,
    }
}

/// Whether the path names an audio file, judged by its extension.
pub fn is_audio_file(path: &str) -> (r: bool)
    ensures
        r == (spec_file_extension(path@) matches Some(e) && spec_is_audio_ext(e)),
{
    match get_file_extension(path) {
        Some(ext) => {
            let e = ext.as_str();
            crate::text::str_eq(e, "mp3") || crate::text::str_eq(e, "flac") || crate::text::str_eq(
                e,
                "aac",
            ) || crate::text::str_eq(e, "ogg") || crate::text::str_eq(e, "wav")
                || crate::text::str_eq(e, "m4a")
        },
        None => false,
    }
}

/// Whether `c` may appear in a video, playlist, channel or handle identifier.
pub open spec fn spec_is_word_char(c: char) -> bool {
    ('a' <= c && c <= 'z') || ('A' <= c && c <= 'Z') || ('0' <= c && c <= '9') || c == '_' || c
        == '-'
}

/// The rest of `s` after its `http://` or `https://` scheme, if it has one.
pub open spec fn spec_after_scheme(s: Seq<char>) -> Option<Seq<char>> {
    if s.len() >= 8 && s.subrange(0, 8) == "https://"@ {
        Some(s.skip(8))
    } else if s.len() >= 7 && s.subrange(0, 7) == "http://"@ {
        Some(s.skip(7))
    } else {
        None
    }
}

/// `s` with one leading `www.` removed, if present.
pub open spec fn spec_after_www(s: Seq<char>) -> Seq<char> {
    if s.len() >= 4 && s.subrange(0, 4) == "www."@ {
        s.skip(4)
    } else {
        s
    }
}

/// `s` starts with the literal `p` followed by at least one identifier
/// character.
pub open spec fn spec_prefix_then_word(s: Seq<char>, p: Seq<char>) -> bool {
    s.len() > p.len() && s.subrange(0, p.len() as int) == p && spec_is_word_char(
        s[p.len() as int],
    )
}

/// The accepted address shapes of the supported video site: a watch, short,
/// playlist, channel or handle address with an identifier after its fixed
/// prefix.
pub open spec fn spec_is_valid_youtube_url(s: Seq<char>) -> bool {
    match spec_after_scheme(s) {
        Some(t) => {
            let u = spec_after_www(t);
            spec_prefix_then_word(u, "youtube.com/watch?v="@) || spec_prefix_then_word(
                u,
                "youtu.be/"@,
            ) || spec_prefix_then_word(u, "youtube.com/playlist?list="@) || spec_prefix_then_word(
                u,
                "youtube.com/channel/"@,
            ) || spec_prefix_then_word(u, "youtube.com/@"@)
        },
        None => false,
    }
}

/// Whether `c` may appear in an identifier.
fn is_word_char(c: char) -> (r: bool)
    ensures
        r == spec_is_word_char(c),
{
    (c >= 'a' && c <= 'z') || (c >= 'A' && c <= 'Z') || (c >= '0' && c <= '9') || c == '_' || c
        == '-'
}

/// Whether the literal `p` stands at position `off` of `v`, followed by at
/// least one identifier character.
pub(crate) fn prefix_then_word_at(v: &Vec<char>, off: usize, p: &str) -> (r: bool)
    requires
        off <= v@.len(),
    ensures
        r == spec_prefix_then_word(v@.skip(off as int), p@),
{
    let pv = to_chars(p);
    let ghost u = v@.skip(off as int);
    if v.len() - off <= pv.len() {
        proof {
            assert(u.len() <= p@.len());
        }
        return false;
    }
    let m = matches_at(v, &pv, off);
    if !m {
        proof {
            if spec_prefix_then_word(u, p@) {
                assert(u.subrange(0, p@.len() as int) =~= v@.subrange(
                    off as int,
                    off + p@.len() as int,
                ));
            }
        }
        return false;
    }
    proof {
        assert(u.subrange(0, p@.len() as int) =~= v@.subrange(off as int, off + p@.len() as int));
        assert(u[p@.len() as int] == v@[off + p@.len()]);
    }
    is_word_char(v[off + pv.len()])
}

/// Whether the address belongs to the supported video site, in one of its
/// accepted shapes.
pub fn is_valid_youtube_url(url: &str) -> (r: bool)
    ensures
        r == spec_is_valid_youtube_url(url@),
{
    proof {
        reveal_strlit("https://");
        reveal_strlit("http://");
        reveal_strlit("www.");
    }
    let v = to_chars(url);
    let https = to_chars("https://");
    let http = to_chars("http://");
    let mut off: usize = 0;
    if v.len() >= 8 && matches_at(&v, &https, 0) {
        off = 8;
    } else if v.len() >= 7 && matches_at(&v, &http, 0) {
        off = 7;
        proof {
            assert(url@.subrange(0, 7)[4] == url@[4]);
            if url@.len() >= 8 && url@.subrange(0, 8) == "https://"@ {
                assert(url@.subrange(0, 8)[4] == url@[4]);
            }
        }
    } else {
        proof {
            if url@.len() >= 8 && url@.subrange(0, 8) == "https://"@ {
                assert(spec_matches_at(url@, "https://"@, 0));
            }
            if url@.len() >= 7 && url@.subrange(0, 7) == "http://"@ {
                assert(spec_matches_at(url@, "http://"@, 0));
            }
        }
        return false;
    }
    let ghost t = url@.skip(off as int);
    proof {
        assert(spec_after_scheme(url@) == Some(t));
    }
    let www = to_chars("www.");
    if v.len() - off >= 4 && matches_at(&v, &www, off) {
        proof {
            assert(t.subrange(0, 4) =~= url@.subrange(off as int, off as int + 4));
            assert(spec_after_www(t) == t.skip(4));
            assert(t.skip(4) =~= url@.skip(off as int + 4));
        }
        off = off + 4;
    } else {
        proof {
            if t.len() >= 4 && t.subrange(0, 4) == "www."@ {
                assert(t.subrange(0, 4) =~= url@.subrange(off as int, off as int + 4));
            }
            assert(spec_after_www(t) == t);
        }
    }
    let ghost u = url@.skip(off as int);
    prefix_then_word_at(&v, off, "youtube.com/watch?v=") || prefix_then_word_at(
        &v,
        off,
        "youtu.be/",
    ) || prefix_then_word_at(&v, off, "youtube.com/playlist?list=") || prefix_then_word_at(
        &v,
        off,
        "youtube.com/channel/",
    ) || prefix_then_word_at(&v, off, "youtube.com/@")
}

/// The first position at or after `i` where a `v=` query parameter with a
/// nonempty value starts: a `'?'` or `'&'`, then `v=`, then a character other
/// than `'&'`.
pub open spec fn spec_find_vparam(s: Seq<char>, i: nat) -> Option<int>
    decreases s.len() - i,
{
    if i + 4 > s.len() {
        None
    } else if (s[i as int] == '?' || s[i as int] == '&') && s[i + 1int] == 'v' && s[i + 2int] == '='
        && s[i + 3int] != '&' {
        Some(i as int)
    } else {
        spec_find_vparam(s, i + 1)
    }
}

/// The first position at or after `i` holding `c`, or the length of `s`.
pub open spec fn spec_find_char_from(s: Seq<char>, i: nat, c: char) -> int
    decreases s.len() - i,
{
    if i >= s.len() {
        s.len() as int
    } else if s[i as int] == c {
        i as int
    } else {
        spec_find_char_from(s, i + 1, c)
    }
}

/// The first position at or after `i` where `p` occurs in `s`.
pub open spec fn spec_find_sub(s: Seq<char>, p: Seq<char>, i: nat) -> Option<int>
    decreases s.len() + 1 - i,
{
    if i + p.len() > s.len() {
        None
    } else if s.subrange(i as int, i + p.len() as int) == p {
        Some(i as int)
    } else {
        spec_find_sub(s, p, i + 1)
    }
}

/// The video identifier of an address: the value of its first `v=` query
/// parameter, or, failing that, the nonempty text between the first
/// `youtu.be/` and the next `'?'`.
pub open spec fn spec_extract_video_id(s: Seq<char>) -> Option<Seq<char>> {
    match spec_find_vparam(s, 0) {
        Some(i) => Some(s.subrange(i + 3int, spec_find_char_from(s, (i + 3) as nat, '&'))),
        None => match spec_find_sub(s, "youtu.be/"@, 0) {
            Some(m) => {
                let st = m + 9;
                let end = spec_find_char_from(s, st as nat, '?');
                if end > st {
                    Some(s.subrange(st, end))
                } else {
                    None
                }
            },
            None => None,
        },
    }
}

/// Find the start of the first nonempty `v=` query parameter.
fn find_vparam(v: &Vec<char>) -> (r: Option<usize>)
    ensures
        match r {
            Some(i) => i + 4 <= v@.len() && spec_find_vparam(v@, 0) == Some(i as int),
            None => spec_find_vparam(v@, 0) is None,
        },
{
    let n = v.len();
    if n < 4 {
        return None;
    }
    let mut i: usize = 0;
    while i <= n - 4
        invariant
            4 <= n == v@.len(),
            i <= n - 3,
            spec_find_vparam(v@, 0) == spec_find_vparam(v@, i as nat),
        decreases n - i,
    {
        let hit = (v[i] == '?' || v[i] == '&') && v[i + 1] == 'v' && v[i + 2] == '=' && v[i + 3]
            != '&';
        if hit {
            return Some(i);
        }
        i = i + 1;
    }
    None
}

/// Find the first position at or after `start` holding `c`.
pub(crate) fn find_char_from(v: &Vec<char>, start: usize, c: char) -> (r: usize)
    requires
        start <= v@.len(),
    ensures
        start <= r <= v@.len(),
        r as int == spec_find_char_from(v@, start as nat, c),
{
    let n = v.len();
    let mut j: usize = start;
    while j < n && v[j] != c
        invariant
            start <= j <= n == v@.len(),
            spec_find_char_from(v@, start as nat, c) == spec_find_char_from(v@, j as nat, c),
        decreases n - j,
    {
        j = j + 1;
    }
    j
}

/// Find the first occurrence of `p` in `v` (for a nonempty `p`).
fn find_sub(v: &Vec<char>, p: &Vec<char>) -> (r: Option<usize>)
    requires
        p@.len() >= 1,
    ensures
        match r {
            Some(m) => m + p@.len() <= v@.len() && spec_find_sub(v@, p@, 0) == Some(m as int),
            None => spec_find_sub(v@, p@, 0) is None,
        },
{
    let n = v.len();
    if p.len() > n {
        return None;
    }
    let mut m: usize = 0;
    while m <= n - p.len()
        invariant
            1 <= p@.len() <= n == v@.len(),
            m <= n - p@.len() + 1,
            spec_find_sub(v@, p@, 0) == spec_find_sub(v@, p@, m as nat),
        decreases n - m,
    {
        if matches_at(v, p, m) {
            return Some(m);
        }
        m = m + 1;
    }
    None
}

/// Pull the video identifier out of an address, if it holds one.
pub fn extract_video_id(url: &str) -> (r: Option<String>)
    ensures
        (r is Some) == (spec_extract_video_id(url@) is Some),
        r matches Some(x) ==> spec_extract_video_id(url@) matches Some(sv) && x@ == sv,
{
    let v = to_chars(url);
    match find_vparam(&v) {
        Some(i) => {
            let end = find_char_from(&v, i + 3, '&');
            let id = sub_chars(&v, i + 3, end);
            Some(chars_to_string(&id))
        },
        None => {
            let p = to_chars("youtu.be/");
            proof {
                reveal_strlit("youtu.be/");
            }
            match find_sub(&v, &p) {
                Some(m) => {
                    proof {
                        assert(v.len() == v@.len());
                    }
                    let st = m + 9;
                    let end = find_char_from(&v, st, '?');
                    if end > st {
                        let id = sub_chars(&v, st, end);
                        Some(chars_to_string(&id))
                    } else {
                        None
                    }
                },
                None => None,
            }
        },
    }
}

/// `s` ends with the suffix `suf`.
pub open spec fn spec_ends_with(s: Seq<char>, suf: Seq<char>) -> bool {
    suf.len() <= s.len() && s.subrange(s.len() - suf.len(), s.len() as int) == suf
}

/// Whether the string ends with the given suffix.
pub fn str_ends_with(s: &str, suf: &str) -> (r: bool)
    ensures
        r == spec_ends_with(s@, suf@),
{
    let v = to_chars(s);
    let sv = to_chars(suf);
    if sv.len() > v.len() {
        return false;
    }
    matches_at(&v, &sv, v.len() - sv.len())
}

/// The content type served for a produced file, judged by its name's
/// ending.
pub open spec fn spec_content_type(name: Seq<char>) -> Seq<char> {
    if spec_ends_with(name, ".mp3"@) {
        "audio/mpeg"@
    } else if spec_ends_with(name, ".wav"@) {
        "audio/wav"@
    } else if spec_ends_with(name, ".mp4"@) {
        "video/mp4"@
    } else if spec_ends_with(name, ".webm"@) {
        "video/webm"@
    } else if spec_ends_with(name, ".m4a"@) {
        "audio/mp4"@
    } else {
        "application/octet-stream"@
    }
}

/// The content type served for a produced file.
pub fn media_content_type(filename: &str) -> (r: &'static str)
    ensures
        r@ == spec_content_type(filename@),
{
    if str_ends_with(filename, ".mp3") {
        "audio/mpeg"
    } else if str_ends_with(filename, ".wav") {
        "audio/wav"
    } else if str_ends_with(filename, ".mp4") {
        "video/mp4"
    } else if str_ends_with(filename, ".webm") {
        "video/webm"
    } else if str_ends_with(filename, ".m4a") {
        "audio/mp4"
    } else {
        "application/octet-stream"
    }
}

/// The thread count used for conversion work: three quarters of the cores,
/// but at least one and at most eight.
pub fn optimal_thread_count(cpu_count: usize) -> (r: usize)
    requires
        cpu_count <= usize::MAX / 3,
    ensures
        r as int == if (cpu_count * 3) / 4 < 1 {
            1
        } else if (cpu_count * 3) / 4 > 8 {
            8
        } else {
            (cpu_count * 3) / 4
        },
{
    let base = (cpu_count * 3) / 4;
    if base < 1 {
        1
    } else if base > 8 {
        8
    } else {
        base
    }
}

} // verus!
