//! Trusted boundary of the library.
//!
//! Every function here is `#[verifier::external_body]`: its body makes one
//! call into an outside crate (or into a part of std that vstd gives no
//! specification for), and its contract states only what that call's source
//! or documentation shows.  Results that are functions of the arguments alone
//! but have no short statement (a digest, a base64 text) are given a name by
//! an `uninterp` spec function, and the contracts of the verified callers
//! speak through that name.

use vstd::prelude::*;

verus! {

/// The characters a `String` collects from a vector of characters.
///
/// Relies on `String: FromIterator<char>`: collecting characters yields the
/// string of exactly those characters in order.
#[verifier::external_body]
pub(crate) fn chars_to_string(v: &Vec<char>) -> (r: String)
    ensures
        r@ == v@,
{
    v.iter().collect()
}

/// Milliseconds since the Unix epoch, clamped to zero for times before it.
///
/// Relies on `chrono::Utc::now`; nothing is promised of the value, since it
/// depends on the machine's clock.
#[verifier::external_body]
pub(crate) fn now_millis() -> u64 {
    let ms = chrono::Utc::now().timestamp_millis();
    if ms < 0 {
        0
    } else {
        ms as u64
    }
}

/// A fresh random 64-bit value.
///
/// Relies on `rand::random`; nothing is promised of the value.
#[verifier::external_body]
pub(crate) fn random_u64() -> u64 {
    rand::random::<u64>()
}

/// The SHA-256 digest of a byte sequence: a function of the bytes alone.
pub uninterp spec fn sha256_of(data: Seq<u8>) -> Seq<u8>;

/// Relies on `sha2::Sha256::digest`: the digest depends on the input bytes
/// alone and is exactly 32 bytes long.
#[verifier::external_body]
pub(crate) fn sha256_digest(data: &Vec<u8>) -> (r: Vec<u8>)
    ensures
        r@ == sha256_of(data@),
        r@.len() == 32,
{
    <sha2::Sha256 as sha2::Digest>::digest(data.as_slice()).to_vec()
}

/// The standard (padded) base64 text of a byte sequence: a function of the
/// bytes alone.
pub uninterp spec fn base64_of(data: Seq<u8>) -> Seq<char>;

/// Whether a character sequence decodes as standard base64.
pub uninterp spec fn base64_decodable(s: Seq<char>) -> bool;

/// Relies on `base64::engine::general_purpose::STANDARD.encode`: the text
/// depends on the input bytes alone, is padded to four characters per three
/// input bytes, and decodes back under the same engine.
#[verifier::external_body]
pub(crate) fn base64_encode(data: &Vec<u8>) -> (r: String)
    ensures
        r@ == base64_of(data@),
        r@.len() == 4 * ((data@.len() + 2) / 3),
        base64_decodable(r@),
{
    base64::Engine::encode(&base64::engine::general_purpose::STANDARD, data.as_slice())
}

/// Relies on `base64::engine::general_purpose::STANDARD.decode`: whether the
/// text is accepted depends on the text alone.
#[verifier::external_body]
pub(crate) fn base64_decode_ok(s: &str) -> (r: bool)
    ensures
        r == base64_decodable(s@),
{
    base64::Engine::decode(&base64::engine::general_purpose::STANDARD, s).is_ok()
}

/// Whether the text parses as an absolute URL.
pub uninterp spec fn url_parse_ok(s: Seq<char>) -> bool;

/// The scheme of a text that parses as a URL.
pub uninterp spec fn url_scheme_of(s: Seq<char>) -> Seq<char>;

/// The host of a text that parses as a URL, when it has one.
pub uninterp spec fn url_host_of(s: Seq<char>) -> Option<Seq<char>>;

/// The path of a text that parses as a URL.
pub uninterp spec fn url_path_of(s: Seq<char>) -> Seq<char>;

/// The pieces of a parsed URL the validation logic reads.
pub(crate) struct UrlParts {
    pub scheme: String,
    pub host: Option<String>,
    pub path: String,
}

/// Relies on `url::Url::parse` and the parsed URL's `scheme`, `host_str`
/// and `path` accessors: whether the text parses, and what those accessors
/// yield, depend on the text alone.
#[verifier::external_body]
pub(crate) fn parse_url_parts(s: &str) -> (r: Option<UrlParts>)
    ensures
        (r is Some) == url_parse_ok(s@),
        r matches Some(u) ==> u.scheme@ == url_scheme_of(s@) && (u.host is Some) == (url_host_of(
            s@,
        ) is Some) && (u.host matches Some(h) ==> url_host_of(s@) == Some(h@)) && u.path@
            == url_path_of(s@),
{
    match url::Url::parse(s) {
        Ok(u) => Some(
            UrlParts {
                scheme: u.scheme().to_string(),
                host: u.host_str().map(|h| h.to_string()),
                path: u.path().to_string(),
            },
        ),
        Err(_) => None,
    }
}

} // verus!
