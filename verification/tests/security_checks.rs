//! Tests for validation, sanitization, rate limiting and CSRF protection.

use rustify::csrf::{CsrfProtection, DoubleSubmitCookie};
use rustify::input_validation;
use rustify::rate_limiting::{RateLimiter, ConnectionLimiter};
use rustify::validation;

#[test]
fn test_injection_detection() {
    assert!(input_validation::contains_injection_patterns("' OR '1'='1"));
    assert!(input_validation::contains_injection_patterns("<script>alert('xss')</script>"));
    assert!(!input_validation::contains_injection_patterns(
        "https://youtube.com/watch?v=abc123"
    ));
}

#[test]
fn test_filename_sanitization() {
    assert_eq!(input_validation::sanitize_filename("../../../etc/passwd"), "etcpasswd");
    assert_eq!(
        input_validation::sanitize_filename("test<script>alert()</script>.mp3"),
        "testscriptalertscript.mp3"
    );
}

#[test]
fn test_rate_limiter() {
    let mut limiter = RateLimiter::new(2, 3);
    assert!(limiter.check_rate_limit("127.0.0.1").is_ok());
    assert!(limiter.check_rate_limit("127.0.0.1").is_ok());
    assert!(limiter.check_rate_limit("127.0.0.1").is_err());
}

#[test]
fn test_connection_limiter() {
    let mut limiter = ConnectionLimiter::new(2);
    assert!(limiter.add_connection("127.0.0.1").is_ok());
    assert!(limiter.add_connection("127.0.0.1").is_ok());
    assert!(limiter.add_connection("127.0.0.1").is_err());
    limiter.remove_connection("127.0.0.1");
    assert!(limiter.add_connection("127.0.0.1").is_ok());
}

#[test]
fn test_csrf_token_generation() {
    let mut csrf = CsrfProtection::new("test_secret".to_string());
    let token1 = csrf.generate_token("127.0.0.1");
    let token2 = csrf.generate_token("127.0.0.1");
    assert_ne!(token1, token2);
    assert!(!token1.is_empty());
    assert!(!token2.is_empty());
}

#[test]
fn test_csrf_token_validation() {
    let mut csrf = CsrfProtection::new("test_secret".to_string());
    let token = csrf.generate_token("127.0.0.1");
    assert!(csrf.validate_token(&token, "127.0.0.1"));
    assert!(!csrf.validate_token(&token, "127.0.0.1"));
}

#[test]
fn test_double_submit_cookie() {
    let dsc = DoubleSubmitCookie::new("test_secret".to_string());
    let token = dsc.generate_cookie_token();
    assert!(dsc.validate_double_submit(&token, &token));
    assert!(!dsc.validate_double_submit(&token, "different_token"));
    assert!(!dsc.validate_double_submit("", &token));
}

#[test]
fn test_csrf_token_wrong_address() {
    let mut csrf = CsrfProtection::new("test_secret".to_string());
    let token = csrf.generate_token("127.0.0.1");
    assert!(!csrf.validate_token(&token, "10.0.0.1"));
    assert!(csrf.validate_token(&token, "127.0.0.1"));
}

#[test]
fn test_csrf_token_length_is_base64_of_digest() {
    let mut csrf = CsrfProtection::new("s".to_string());
    let token = csrf.generate_token("1.2.3.4");
    assert_eq!(token.len(), 44);
}

#[test]
fn test_simple_url_validation() {
    assert!(validation::validate_youtube_url("https://www.youtube.com/watch?v=abc").is_ok());
    assert_eq!(
        validation::validate_youtube_url("https://example.com"),
        Err("Invalid YouTube URL".to_string())
    );
    assert_eq!(
        validation::validate_youtube_url(&"x".repeat(3000)),
        Err("URL too long".to_string())
    );
    assert_eq!(
        validation::validate_youtube_url("https://youtu.be/abc' OR '1'='1"),
        Err("Suspicious content detected".to_string())
    );
}

#[test]
fn test_format_and_quality_whitelists() {
    assert!(validation::validate_format("mp3").is_ok());
    assert_eq!(validation::validate_format("exe"), Err("Invalid format".to_string()));
    assert!(validation::validate_quality("320").is_ok());
    assert_eq!(validation::validate_quality("999"), Err("Invalid quality".to_string()));
}

#[test]
fn test_whitelist_filename() {
    assert_eq!(validation::sanitize_filename("a b/c:d.mp3"), "abcd.mp3");
    assert_eq!(validation::sanitize_filename("Tr4ck_-1.flac"), "Tr4ck_-1.flac");
}

#[test]
fn test_html_escaping() {
    assert_eq!(validation::sanitize_html("a<b>"), "a&amp;lt;b&amp;gt;");
    assert_eq!(validation::sanitize_html("x&y"), "x&amp;y");
    assert_eq!(input_validation::sanitize_html("\"q\""), "&amp;quot;q&amp;quot;");
    assert_eq!(validation::sanitize_html("plain"), "plain");
}

#[test]
fn test_parsed_url_validation() {
    assert!(input_validation::validate_youtube_url("https://www.youtube.com/watch?v=abc").is_ok());
    assert_eq!(
        input_validation::validate_youtube_url("' OR 1=1"),
        Err("injection_detected".to_string())
    );
    assert_eq!(
        input_validation::validate_youtube_url("not a url at all"),
        Err("invalid_url".to_string())
    );
    assert_eq!(
        input_validation::validate_youtube_url("ftp://youtube.com/a"),
        Err("invalid_scheme".to_string())
    );
    assert_eq!(
        input_validation::validate_youtube_url("https://example.com/x"),
        Err("unauthorized_domain".to_string())
    );
    assert_eq!(
        input_validation::validate_youtube_url("https://youtube.com/a..b"),
        Err("path_traversal".to_string())
    );
}

#[test]
fn test_playlist_url_validation() {
    assert!(
        input_validation::validate_youtube_playlist_url(
            "https://www.youtube.com/playlist?list=PL1"
        ).is_ok()
    );
    assert_eq!(
        input_validation::validate_youtube_playlist_url("https://www.youtube.com/watch?v=abc"),
        Err("not_playlist_url".to_string())
    );
}

#[test]
fn test_rate_limiter_recovers_failures() {
    let mut limiter = RateLimiter::new(1, 100);
    assert!(limiter.check_rate_limit("a").is_ok());
    assert!(limiter.check_rate_limit("a").is_err());
    limiter.record_successful_request("a");
    // a different client is unaffected by the first one's window
    assert!(limiter.check_rate_limit("b").is_ok());
}

#[test]
fn test_connection_limiter_zero_cap() {
    let mut limiter = ConnectionLimiter::new(0);
    assert!(!limiter.can_connect("h"));
    assert!(limiter.add_connection("h").is_err());
}
