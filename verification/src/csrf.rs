//! Cross-site request forgery protection: one-time tokens bound to a client
//! address, and the double-submit-cookie check.
//!
//! A token is the base64 text of a SHA-256 digest over the secret, the
//! client address, a random nonce and the current time; it is stored with
//! an expiry and consumed by its first successful validation.

use vstd::prelude::*;
use vstd::string::StringSliceAdditionalSpecFns;
use crate::text::{str_eq, to_chars};
use crate::trusted::{
    chars_to_string, now_millis, random_u64, sha256_digest, sha256_of, base64_encode, base64_of,
    base64_decodable, base64_decode_ok,
};

verus! {

/// The big-endian bytes of a 64-bit value, most significant first.
pub open spec fn spec_be_bytes(x: u64) -> Seq<u8> {
    seq![
        (x / 0x100000000000000) as u8,
        ((x / 0x1000000000000) % 256) as u8,
        ((x / 0x10000000000) % 256) as u8,
        ((x / 0x100000000) % 256) as u8,
        ((x / 0x1000000) % 256) as u8,
        ((x / 0x10000) % 256) as u8,
        ((x / 0x100) % 256) as u8,
        (x % 256) as u8,
    ]
}

/// Append the big-endian bytes of `x`.
fn push_be_bytes(out: &mut Vec<u8>, x: u64)
    ensures
        final(out)@ == old(out)@ + spec_be_bytes(x),
{
    out.push((x / 0x100000000000000) as u8);
    out.push(((x / 0x1000000000000) % 256) as u8);
    out.push(((x / 0x10000000000) % 256) as u8);
    out.push(((x / 0x100000000) % 256) as u8);
    out.push(((x / 0x1000000) % 256) as u8);
    out.push(((x / 0x10000) % 256) as u8);
    out.push(((x / 0x100) % 256) as u8);
    out.push((x % 256) as u8);
    proof {
        assert(out@ =~= old(out)@ + spec_be_bytes(x));
    }
}

/// The digest material a token is built over: secret, client address,
/// nonce, timestamp (the texts as their UTF-8 bytes).
pub open spec fn spec_token_material(
    secret: Seq<char>,
    ip: Seq<char>,
    nonce: u64,
    ts: u64,
) -> Seq<u8> {
    vstd::utf8::encode_utf8(secret) + vstd::utf8::encode_utf8(ip) + spec_be_bytes(nonce)
        + spec_be_bytes(ts)
}

/// The token text for the given inputs: base64 of the SHA-256 digest of the
/// material.
pub open spec fn spec_token_text(secret: Seq<char>, ip: Seq<char>, nonce: u64, ts: u64) -> Seq<
    char,
> {
    base64_of(sha256_of(spec_token_material(secret, ip, nonce, ts)))
}

/// `a + b`, clamped at the top of `u64`.
pub open spec fn spec_sat_add(a: u64, b: u64) -> u64 {
    if a + b <= u64::MAX {
        (a + b) as u64
    } else {
        u64::MAX
    }
}

/// Build the token text for the given inputs.
fn make_token(secret: &str, ip: &str, nonce: u64, ts: u64) -> (r: String)
    ensures
        r@ == spec_token_text(secret@, ip@, nonce, ts),
        r@.len() == 44,
        base64_decodable(r@),
{
    let mut material: Vec<u8> = Vec::new();
    material.extend_from_slice(secret.as_bytes());
    material.extend_from_slice(ip.as_bytes());
    push_be_bytes(&mut material, nonce);
    push_be_bytes(&mut material, ts);
    proof {
        assert(material@ =~= spec_token_material(secret@, ip@, nonce, ts));
    }
    let digest = sha256_digest(&material);
    base64_encode(&digest)
}

/// One stored token: its text, when it expires, and the address it is
/// bound to.
struct TokenRecord {
    token: String,
    expires_at: u64,
    ip_address: String,
}

/// The mathematical value of one stored token.
pub ghost struct TokenView {
    pub token: Seq<char>,
    pub expires_at: u64,
    pub ip_address: Seq<char>,
}

/// The mathematical value of the protection state.
pub ghost struct CsrfView {
    pub tokens: Seq<TokenView>,
    pub secret: Seq<char>,
}

/// The one-time-token CSRF protection.
pub struct CsrfProtection {
    tokens: Vec<TokenRecord>,
    secret: String,
}

impl View for CsrfProtection {
    type V = CsrfView;

    closed spec fn view(&self) -> CsrfView {
        CsrfView {
            tokens: Seq::new(
                self.tokens@.len(),
                |i: int|
                    TokenView {
                        token: self.tokens@[i].token@,
                        expires_at: self.tokens@[i].expires_at,
                        ip_address: self.tokens@[i].ip_address@,
                    },
            ),
            secret: self.secret@,
        }
    }
}

/// The tokens surviving a cleanup at `now`: those not yet expired.
pub open spec fn spec_cleanup_tokens(ts: Seq<TokenView>, now: u64) -> Seq<TokenView>
    decreases ts.len(),
{
    if ts.len() == 0 {
        ts
    } else if now <= ts.last().expires_at {
        spec_cleanup_tokens(ts.drop_last(), now).push(ts.last())
    } else {
        spec_cleanup_tokens(ts.drop_last(), now)
    }
}

/// The first stored token with the given text.
pub open spec fn spec_find_token(ts: Seq<TokenView>, token: Seq<char>, i: nat) -> Option<int>
    decreases ts.len() - i,
{
    if i >= ts.len() {
        None
    } else if ts[i as int].token == token {
        Some(i as int)
    } else {
        spec_find_token(ts, token, i + 1)
    }
}

/// What validating `token` for `ip` at `now` does to the stored tokens and
/// answers: an unknown token answers `false` and changes nothing; an
/// expired token is dropped and answers `false`; a token bound to another
/// address answers `false` and stays (the request is not trusted to consume
/// it); a live matching token is consumed and answers `true`.
pub open spec fn spec_validate_token(ts: Seq<TokenView>, token: Seq<char>, ip: Seq<char>, now: u64) -> (
    Seq<TokenView>,
    bool,
) {
    match spec_find_token(ts, token, 0) {
        Some(i) => if now > ts[i].expires_at {
            (ts.remove(i), false)
        } else if ts[i].ip_address != ip {
            (ts, false)
        } else {
            (ts.remove(i), true)
        },
        None => (ts, false),
    }
}

impl CsrfProtection {
    /// Protection with the given signing secret and no stored tokens.
    pub fn new(secret: String) -> (r: CsrfProtection)
        ensures
            r@.tokens.len() == 0,
            r@.secret == secret@,
    {
        let r = CsrfProtection { tokens: Vec::new(), secret };
        proof {
            assert(r@.tokens =~= Seq::<TokenView>::empty());
        }
        r
    }

    /// Find the position of the stored token with the given text.
    fn find_token(&self, token: &str) -> (r: Option<usize>)
        ensures
            match r {
                Some(i) => i < self@.tokens.len() && spec_find_token(self@.tokens, token@, 0)
                    == Some(i as int),
                None => spec_find_token(self@.tokens, token@, 0) is None,
            },
    {
        let mut i: usize = 0;
        while i < self.tokens.len()
            invariant
                i <= self@.tokens.len(),
                self@.tokens.len() == self.tokens@.len(),
                spec_find_token(self@.tokens, token@, 0) == spec_find_token(
                    self@.tokens,
                    token@,
                    i as nat,
                ),
            decreases self@.tokens.len() - i,
        {
            if str_eq(self.tokens[i].token.as_str(), token) {
                return Some(i);
            }
            i = i + 1;
        }
        None
    }

    /// Issue a fresh one-time token for `ip`, valid for one hour; expired
    /// tokens are dropped on the way.
    #[verifier::rlimit(60)]
    pub fn generate_token(&mut self, ip: &str) -> (r: String)
        ensures
            final(self)@.secret == old(self)@.secret,
            r@.len() == 44,
            base64_decodable(r@),
            exists|nonce: u64, now: u64|
                {
                    &&& r@ == #[trigger] spec_token_text(
                        old(self)@.secret,
                        ip@,
                        nonce,
                        now / 1000,
                    )
                    &&& final(self)@.tokens == spec_cleanup_tokens(
                        old(self)@.tokens.push(
                            TokenView {
                                token: r@,
                                expires_at: spec_sat_add(now, 3600000),
                                ip_address: ip@,
                            },
                        ),
                        now,
                    )
                },
    {
        let nonce = random_u64();
        let now = now_millis();
        let token = make_token(self.secret.as_str(), ip, nonce, now / 1000);
        let expires_at = if now <= u64::MAX - 3600000 {
            now + 3600000
        } else {
            u64::MAX
        };
        self.tokens.push(
            TokenRecord {
                token: token.clone(),
                expires_at,
                ip_address: String::from_str(ip),
            },
        );
        proof {
            assert(self@.tokens =~= old(self)@.tokens.push(
                TokenView { token: token@, expires_at: expires_at, ip_address: ip@ },
            ));
        }
        self.cleanup_expired_tokens_at(now);
        proof {
            assert(token@ == spec_token_text(old(self)@.secret, ip@, nonce, now / 1000));
            assert(self@.tokens == spec_cleanup_tokens(
                old(self)@.tokens.push(
                    TokenView {
                        token: token@,
                        expires_at: spec_sat_add(now, 3600000),
                        ip_address: ip@,
                    },
                ),
                now,
            ));
        }
        token
    }

    /// Drop tokens that expired before `now`.
    fn cleanup_expired_tokens_at(&mut self, now: u64)
        ensures
            final(self)@.secret == old(self)@.secret,
            final(self)@.tokens == spec_cleanup_tokens(old(self)@.tokens, now),
    {
        let ghost ts = self@.tokens;
        let mut kept: Vec<TokenRecord> = Vec::new();
        let mut i: usize = 0;
        while i < self.tokens.len()
            invariant
                i <= self.tokens@.len(),
                ts == self@.tokens,
                self@.tokens.len() == self.tokens@.len(),
                Seq::new(
                    kept@.len(),
                    |q: int|
                        TokenView {
                            token: kept@[q].token@,
                            expires_at: kept@[q].expires_at,
                            ip_address: kept@[q].ip_address@,
                        },
                ) == spec_cleanup_tokens(ts.subrange(0, i as int), now),
            decreases self.tokens@.len() - i,
        {
            proof {
                assert(ts.subrange(0, i as int + 1).drop_last() =~= ts.subrange(0, i as int));
            }
            if now <= self.tokens[i].expires_at {
                let t = &self.tokens[i];
                kept.push(
                    TokenRecord {
                        token: t.token.clone(),
                        expires_at: t.expires_at,
                        ip_address: t.ip_address.clone(),
                    },
                );
            }
            i = i + 1;
            proof {
                assert(Seq::new(
                    kept@.len(),
                    |q: int|
                        TokenView {
                            token: kept@[q].token@,
                            expires_at: kept@[q].expires_at,
                            ip_address: kept@[q].ip_address@,
                        },
                ) =~= spec_cleanup_tokens(ts.subrange(0, i as int), now));
            }
        }
        self.tokens = kept;
        proof {
            assert(ts.subrange(0, ts.len() as int) =~= ts);
            assert(self@.tokens =~= spec_cleanup_tokens(ts, now));
        }
    }

    /// Validate and consume a token for `ip`, judged at time `now`.
    pub fn validate_token_at(&mut self, token: &str, ip: &str, now: u64) -> (r: bool)
        ensures
            final(self)@.secret == old(self)@.secret,
            final(self)@.tokens == spec_validate_token(old(self)@.tokens, token@, ip@, now).0,
            r == spec_validate_token(old(self)@.tokens, token@, ip@, now).1,
    {
        match self.find_token(token) {
            Some(i) => {
                if now > self.tokens[i].expires_at {
                    self.tokens.remove(i);
                    proof {
                        assert(self@.tokens =~= old(self)@.tokens.remove(i as int));
                    }
                    false
                } else if !str_eq(self.tokens[i].ip_address.as_str(), ip) {
                    proof {
                        assert(self@.tokens =~= old(self)@.tokens);
                    }
                    false
                } else {
                    self.tokens.remove(i);
                    proof {
                        assert(self@.tokens =~= old(self)@.tokens.remove(i as int));
                    }
                    true
                }
            },
            None => {
                proof {
                    assert(self@.tokens =~= old(self)@.tokens);
                }
                false
            },
        }
    }

    /// Validate and consume a token for `ip` at the machine's current time.
    pub fn validate_token(&mut self, token: &str, ip: &str) -> (r: bool)
        ensures
            final(self)@.secret == old(self)@.secret,
            exists|now: u64|
                final(self)@.tokens == (#[trigger] spec_validate_token(
                    old(self)@.tokens,
                    token@,
                    ip@,
                    now,
                )).0 && r == spec_validate_token(old(self)@.tokens, token@, ip@, now).1,
    {
        let now = now_millis();
        self.validate_token_at(token, ip, now)
    }
}

/// The response shape a token is handed out in.
pub struct CsrfTokenResponse {
    pub csrf_token: String,
    pub expires_in: u64,
}

/// The cookie text for the given inputs: base64 of the SHA-256 digest of
/// the secret's UTF-8 bytes and the nonce.
pub open spec fn spec_cookie_text(secret: Seq<char>, nonce: u64) -> Seq<char> {
    base64_of(sha256_of(vstd::utf8::encode_utf8(secret) + spec_be_bytes(nonce)))
}

/// Whether a token has the accepted shape: valid base64 of a reasonable
/// length.
pub open spec fn spec_token_format_ok(t: Seq<char>) -> bool {
    base64_decodable(t) && 32 <= t.len() <= 128
}

/// The double-submit-cookie check: both tokens present, equal, and
/// well-formed.
pub open spec fn spec_double_submit_ok(c: Seq<char>, h: Seq<char>) -> bool {
    c.len() > 0 && h.len() > 0 && c == h && spec_token_format_ok(c)
}

/// The double-submit-cookie alternative: a signed cookie token echoed in a
/// header.
pub struct DoubleSubmitCookie {
    secret: String,
}

impl DoubleSubmitCookie {
    /// A checker with the given signing secret.
    pub fn new(secret: String) -> (r: DoubleSubmitCookie)
        ensures
            r.secret_view() == secret@,
    {
        DoubleSubmitCookie { secret }
    }

    /// The signing secret's text (for contracts).
    pub closed spec fn secret_view(&self) -> Seq<char> {
        self.secret@
    }

    /// Issue a fresh cookie token.
    pub fn generate_cookie_token(&self) -> (r: String)
        ensures
            r@.len() == 44,
            base64_decodable(r@),
            exists|nonce: u64| r@ == #[trigger] spec_cookie_text(self.secret_view(), nonce),
    {
        let nonce = random_u64();
        let mut material: Vec<u8> = Vec::new();
        material.extend_from_slice(self.secret.as_str().as_bytes());
        push_be_bytes(&mut material, nonce);
        proof {
            assert(material@ =~= vstd::utf8::encode_utf8(self.secret_view()) + spec_be_bytes(
                nonce,
            ));
        }
        let digest = sha256_digest(&material);
        let token = base64_encode(&digest);
        proof {
            assert(token@ == spec_cookie_text(self.secret_view(), nonce));
        }
        token
    }

    /// Whether a token has the accepted shape.
    fn is_valid_token_format(&self, token: &str) -> (r: bool)
        ensures
            r == spec_token_format_ok(token@),
    {
        let n = to_chars(token).len();
        base64_decode_ok(token) && n >= 32 && n <= 128
    }

    /// The double-submit check: the cookie token and the header token must
    /// both be present, equal, and well-formed.
    pub fn validate_double_submit(&self, cookie_token: &str, header_token: &str) -> (r: bool)
        ensures
            r == spec_double_submit_ok(cookie_token@, header_token@),
    {
        let c = to_chars(cookie_token);
        let h = to_chars(header_token);
        c.len() > 0 && h.len() > 0 && str_eq(cookie_token, header_token)
            && self.is_valid_token_format(cookie_token)
    }
}

} // verus!
