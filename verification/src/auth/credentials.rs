//! API key credentials: `azk_live_<public id>.<secret>`, both parts the
//! canonical unpadded URL-safe base64 text of 12 and 32 random bytes, and the
//! `Authorization: Bearer` header that carries them.
use vstd::prelude::*;
use vstd::string::*;

use crate::encoding::{
    base64url_decode, base64url_encode, constant_time_eq, decode_base64url, encode_base64url,
    is_base64url_char, random_bytes, sha256, sha256_digest,
};
use crate::text::{
    char_vec, eq_ignore_ascii_case, index_of_from, is_unicode_whitespace, lemma_index_of_from,
    split_whitespace, starts_with, str_eq_ignore_ascii_case, text_starts_with, words, words_from,
};
use vstd::utf8::encode_utf8;

verus! {

broadcast use vstd::string::group_string_axioms;

/// Number of random bytes behind a public ID.
pub const PUBLIC_ID_BYTES: usize = 12;

/// Number of random bytes behind a secret.
pub const SECRET_BYTES: usize = 32;

/// The prefix every API key token starts with.
pub open spec fn token_prefix() -> Seq<char> {
    "azk_live_"@
}

/// A token component: the canonical base64 text of exactly `n` bytes (the
/// text decodes to `n` bytes and those bytes encode back to the same text).
pub open spec fn valid_component(text: Seq<char>, n: nat) -> bool {
    match base64url_decode(text) {
        Some(bytes) => bytes.len() == n && base64url_encode(bytes) == text,
        None => false,
    }
}

/// Why a token was refused.
#[derive(Clone, Copy, Debug, PartialEq, Eq, Structural)]
pub enum TokenError {
    Prefix,
    Format,
    PublicId,
    Secret,
}

/// The public ID and secret a token holds, or why it holds none: the prefix,
/// then the text up to the first `.`, then the rest.
pub open spec fn spec_parse_token(s: Seq<char>) -> Result<(Seq<char>, Seq<char>), TokenError> {
    if !starts_with(s, token_prefix()) {
        Err(TokenError::Prefix)
    } else {
        let rest = s.skip(token_prefix().len() as int);
        let k = index_of_from(rest, '.', 0);
        if k >= rest.len() {
            Err(TokenError::Format)
        } else if !valid_component(rest.take(k), PUBLIC_ID_BYTES as nat) {
            Err(TokenError::PublicId)
        } else if !valid_component(rest.skip(k + 1), SECRET_BYTES as nat) {
            Err(TokenError::Secret)
        } else {
            Ok((rest.take(k), rest.skip(k + 1)))
        }
    }
}

/// The token text of a public ID and a secret.
pub open spec fn token_text(public_id: Seq<char>, secret: Seq<char>) -> Seq<char> {
    token_prefix() + public_id + seq!['.'] + secret
}

/// A text of nothing but URL-safe base64 characters.
pub open spec fn is_base64url_text(s: Seq<char>) -> bool {
    forall|i: int| 0 <= i < s.len() ==> is_base64url_char(#[trigger] s[i])
}

/// The length of the unpadded base64 text of `n` bytes.
pub open spec fn component_len(n: nat) -> nat {
    (4 * n + 2) / 3
}

/// Credentials as this crate makes them: both parts canonical base64 texts,
/// of 16 and 43 characters.
pub open spec fn well_formed_parts(public_id: Seq<char>, secret: Seq<char>) -> bool {
    &&& valid_component(public_id, PUBLIC_ID_BYTES as nat)
    &&& valid_component(secret, SECRET_BYTES as nat)
    &&& is_base64url_text(public_id)
    &&& is_base64url_text(secret)
    &&& public_id.len() == component_len(PUBLIC_ID_BYTES as nat) == 16
    &&& secret.len() == component_len(SECRET_BYTES as nat) == 43
}

/// Whether `value` is the canonical base64 text of exactly `n` bytes.
pub fn is_valid_component(value: &str, n: usize) -> (res: bool)
    ensures
        res == valid_component(value@, n as nat),
        res ==> is_base64url_text(value@) && value@.len() == component_len(n as nat),
{
    match decode_base64url(value) {
        None => false,
        Some(decoded) => {
            if decoded.len() != n {
                return false;
            }
            let encoded = encode_base64url(decoded.as_slice());
            let original = value.to_owned();
            encoded == original
        },
    }
}

/// The public ID and secret of a token.
pub fn parse_token(s: &str) -> (res: Result<(String, String), TokenError>)
    ensures
        match spec_parse_token(s@) {
            Ok((p, q)) => res matches Ok((a, b)) && a@ == p && b@ == q,
            Err(e) => res == Err::<(String, String), TokenError>(e),
        },
        res matches Ok((a, b)) ==> well_formed_parts(a@, b@),
{
    let prefix = "azk_live_";
    if !text_starts_with(s, prefix) {
        return Err(TokenError::Prefix);
    }
    let chars = char_vec(s);
    let n = chars.len();
    let start = prefix.unicode_len();
    let ghost rest = s@.skip(start as int);
    let mut k: usize = start;
    proof {
        lemma_index_of_from(rest, '.', 0);
    }
    while k < n && chars[k] != '.'
        invariant
            chars@ == s@,
            n == s@.len(),
            start == token_prefix().len(),
            start <= k <= n,
            rest == s@.skip(start as int),
            k - start <= index_of_from(rest, '.', 0),
            index_of_from(rest, '.', 0) <= rest.len(),
            forall|j: int| 0 <= j < index_of_from(rest, '.', 0) ==> #[trigger] rest[j] != '.',
            index_of_from(rest, '.', 0) < rest.len() ==> rest[index_of_from(rest, '.', 0)] == '.',
        decreases n - k,
    {
        k = k + 1;
    }
    if k >= n {
        return Err(TokenError::Format);
    }
    proof {
        assert(rest[k - start] == s@[k as int]);
        assert(k - start == index_of_from(rest, '.', 0));
    }
    let public_id = s.substring_char(start, k);
    let secret = s.substring_char(k + 1, n);
    proof {
        assert(public_id@ =~= rest.take(k - start));
        assert(secret@ =~= rest.skip(k - start + 1));
    }
    if !is_valid_component(public_id, PUBLIC_ID_BYTES) {
        return Err(TokenError::PublicId);
    }
    if !is_valid_component(secret, SECRET_BYTES) {
        return Err(TokenError::Secret);
    }
    Ok((public_id.to_owned(), secret.to_owned()))
}

/// The token text of a public ID and a secret.
pub fn format_token(public_id: &str, secret: &str) -> (res: String)
    ensures
        res@ == token_text(public_id@, secret@),
{
    let mut token = "azk_live_".to_owned();
    token.append(public_id);
    let dot = ".";
    proof {
        reveal_strlit(".");
    }
    token.append(dot);
    token.append(secret);
    proof {
        assert(dot@ =~= seq!['.']);
    }
    token
}

/// A token made of well-formed parts reads back to the same parts.
pub proof fn lemma_token_round_trip(public_id: Seq<char>, secret: Seq<char>)
    requires
        well_formed_parts(public_id, secret),
    ensures
        spec_parse_token(token_text(public_id, secret)) == Ok::<(Seq<char>, Seq<char>), TokenError>(
            (public_id, secret),
        ),
{
    let s = token_text(public_id, secret);
    let p = token_prefix();
    assert(s.take(p.len() as int) =~= p);
    let rest = s.skip(p.len() as int);
    assert(rest =~= public_id + seq!['.'] + secret);
    lemma_index_of_from(rest, '.', 0);
    let k = index_of_from(rest, '.', 0);
    assert(rest[public_id.len() as int] == '.');
    if k < public_id.len() {
        assert(rest[k] == public_id[k]);
        assert(is_base64url_char(public_id[k]));
    }
    assert(k == public_id.len());
    assert(rest.take(k) =~= public_id);
    assert(rest.skip(k + 1) =~= secret);
}

/// Random bytes, encoded as a token component of `n` bytes: on success the
/// text is the unpadded URL-safe base64 of `n` bytes from the random source;
/// an `Err` is the random source's own error, passed on.
pub fn generate_component(n: usize) -> (res: Result<String, getrandom::Error>)
    ensures
        res matches Ok(text) ==> valid_component(text@, n as nat) && is_base64url_text(text@)
            && text@.len() == component_len(n as nat) && exists|bytes: Seq<u8>|
            bytes.len() == n && text@ == base64url_encode(bytes),
{
    match random_bytes(n) {
        Ok(bytes) => Ok(component_from_bytes(bytes.as_slice())),
        Err(e) => Err(e),
    }
}

/// The token component of some bytes.
pub fn component_from_bytes(bytes: &[u8]) -> (res: String)
    ensures
        res@ == base64url_encode(bytes@),
        valid_component(res@, bytes@.len()),
        is_base64url_text(res@),
        res@.len() == component_len(bytes@.len()),
{
    encode_base64url(bytes)
}

/// Why an `Authorization` header or a token was refused.
#[derive(Clone, Copy, Debug, PartialEq, Eq, Structural)]
pub enum ApiKeyParseError {
    InvalidAuthorizationHeader,
    UnsupportedAuthorizationScheme,
    InvalidPrefix,
    InvalidFormat,
    InvalidPublicId,
    InvalidSecret,
}

pub open spec fn parse_error_of(e: TokenError) -> ApiKeyParseError {
    match e {
        TokenError::Prefix => ApiKeyParseError::InvalidPrefix,
        TokenError::Format => ApiKeyParseError::InvalidFormat,
        TokenError::PublicId => ApiKeyParseError::InvalidPublicId,
        TokenError::Secret => ApiKeyParseError::InvalidSecret,
    }
}

/// What an `Authorization` header yields: exactly two words, the first
/// `Bearer` in any ASCII case, the second a token.
pub open spec fn spec_from_authorization_header(header: Seq<char>) -> Result<
    (Seq<char>, Seq<char>),
    ApiKeyParseError,
> {
    let w = words(header);
    if w.len() != 2 {
        Err(ApiKeyParseError::InvalidAuthorizationHeader)
    } else if !eq_ignore_ascii_case(w[0], "Bearer"@) {
        Err(ApiKeyParseError::UnsupportedAuthorizationScheme)
    } else {
        match spec_parse_token(w[1]) {
            Ok(parts) => Ok(parts),
            Err(e) => Err(parse_error_of(e)),
        }
    }
}

/// The message an error displays.
pub open spec fn parse_error_message(e: ApiKeyParseError) -> Seq<char> {
    match e {
        ApiKeyParseError::InvalidAuthorizationHeader => "invalid authorization header"@,
        ApiKeyParseError::UnsupportedAuthorizationScheme => "unsupported authorization scheme"@,
        ApiKeyParseError::InvalidPrefix => "invalid API key prefix"@,
        ApiKeyParseError::InvalidFormat => "invalid API key format"@,
        ApiKeyParseError::InvalidPublicId => "invalid API key public ID"@,
        ApiKeyParseError::InvalidSecret => "invalid API key secret"@,
    }
}

impl ApiKeyParseError {
    /// The message the error displays.
    pub fn message(&self) -> (res: &'static str)
        ensures
            res@ == parse_error_message(*self),
    {
        match self {
            ApiKeyParseError::InvalidAuthorizationHeader => "invalid authorization header",
            ApiKeyParseError::UnsupportedAuthorizationScheme => "unsupported authorization scheme",
            ApiKeyParseError::InvalidPrefix => "invalid API key prefix",
            ApiKeyParseError::InvalidFormat => "invalid API key format",
            ApiKeyParseError::InvalidPublicId => "invalid API key public ID",
            ApiKeyParseError::InvalidSecret => "invalid API key secret",
        }
    }
}

/// A public ID and its secret.
pub struct ApiKeyCredentials {
    public_id: String,
    secret: String,
}

impl View for ApiKeyCredentials {
    type V = (Seq<char>, Seq<char>);

    closed spec fn view(&self) -> (Seq<char>, Seq<char>) {
        (self.public_id@, self.secret@)
    }
}

impl ApiKeyCredentials {
    #[verifier::type_invariant]
    closed spec fn inv(&self) -> bool {
        well_formed_parts(self.public_id@, self.secret@)
    }

    /// Fresh credentials from the operating system's random source.
    /// On success both parts are fresh random bytes (12 for the public ID,
    /// 32 for the secret) in unpadded URL-safe base64, 16 and 43 characters
    /// long; an `Err` is the random source's own error.
    pub fn generate() -> (res: Result<Self, getrandom::Error>)
        ensures
            res matches Ok(c) ==> well_formed_parts(c@.0, c@.1) && c@.0.len() == 16 && c@.1.len()
                == 43 && exists|p: Seq<u8>, q: Seq<u8>|
                p.len() == PUBLIC_ID_BYTES && q.len() == SECRET_BYTES && c@.0 == base64url_encode(p)
                    && c@.1 == base64url_encode(q),
    {
        let public_id = match generate_component(PUBLIC_ID_BYTES) {
            Ok(text) => text,
            Err(e) => {
                return Err(e);
            },
        };
        let secret = match generate_component(SECRET_BYTES) {
            Ok(text) => text,
            Err(e) => {
                return Err(e);
            },
        };
        proof {
            let p = choose|p: Seq<u8>| p.len() == PUBLIC_ID_BYTES && public_id@ == base64url_encode(p);
            let q = choose|q: Seq<u8>| q.len() == SECRET_BYTES && secret@ == base64url_encode(q);
            assert(p.len() == PUBLIC_ID_BYTES && q.len() == SECRET_BYTES && public_id@
                == base64url_encode(p) && secret@ == base64url_encode(q));
        }
        Ok(ApiKeyCredentials { public_id, secret })
    }

    /// The credentials made of given random bytes.
    pub fn from_random_bytes(public_id: &[u8], secret: &[u8]) -> (res: Self)
        requires
            public_id@.len() == PUBLIC_ID_BYTES,
            secret@.len() == SECRET_BYTES,
        ensures
            res@ == (base64url_encode(public_id@), base64url_encode(secret@)),
    {
        ApiKeyCredentials {
            public_id: component_from_bytes(public_id),
            secret: component_from_bytes(secret),
        }
    }

    /// Reads credentials from an `Authorization` header value.
    pub fn from_authorization_header(header: &str) -> (res: Result<Self, ApiKeyParseError>)
        ensures
            match spec_from_authorization_header(header@) {
                Ok(parts) => res matches Ok(c) && c@ == parts,
                Err(e) => res matches Err(f) && f == e,
            },
    {
        let parts = split_whitespace(header);
        if parts.len() != 2 {
            return Err(ApiKeyParseError::InvalidAuthorizationHeader);
        }
        let scheme = parts[0].as_str();
        let bearer = "Bearer";
        if !str_eq_ignore_ascii_case(scheme, bearer) {
            return Err(ApiKeyParseError::UnsupportedAuthorizationScheme);
        }
        Self::parse(parts[1].as_str())
    }

    /// Reads credentials from a token.
    pub fn parse(s: &str) -> (res: Result<Self, ApiKeyParseError>)
        ensures
            match spec_parse_token(s@) {
                Ok(parts) => res matches Ok(c) && c@ == parts,
                Err(e) => res matches Err(f) && f == parse_error_of(e),
            },
    {
        match parse_token(s) {
            Ok((public_id, secret)) => Ok(ApiKeyCredentials { public_id, secret }),
            Err(TokenError::Prefix) => Err(ApiKeyParseError::InvalidPrefix),
            Err(TokenError::Format) => Err(ApiKeyParseError::InvalidFormat),
            Err(TokenError::PublicId) => Err(ApiKeyParseError::InvalidPublicId),
            Err(TokenError::Secret) => Err(ApiKeyParseError::InvalidSecret),
        }
    }

    pub fn public_id(&self) -> (res: &str)
        ensures
            res@ == self@.0,
    {
        self.public_id.as_str()
    }

    /// The token that carries these credentials.
    pub fn to_token(&self) -> (res: String)
        ensures
            res@ == token_text(self@.0, self@.1),
            well_formed_parts(self@.0, self@.1),
    {
        proof {
            use_type_invariant(self);
        }
        format_token(self.public_id.as_str(), self.secret.as_str())
    }

    /// SHA-256 of the secret's UTF-8 bytes, as stored for the key.
    pub fn secret_digest(&self) -> (res: [u8; 32])
        ensures
            res@ == sha256(encode_utf8(self@.1)),
    {
        sha256_digest(self.secret.as_str().as_bytes())
    }

    /// Whether a stored digest is that of this secret (compared in constant time).
    pub fn matches_digest(&self, expected_digest: &[u8]) -> (res: bool)
        ensures
            res == (expected_digest@ == sha256(encode_utf8(self@.1))),
    {
        let actual = self.secret_digest();
        expected_digest.len() == actual.len() && constant_time_eq(
            expected_digest,
            actual.as_slice(),
        )
    }

    /// The stored key these credentials authenticate as at `now`: the row
    /// read for their public ID must be there, hold the digest of their
    /// secret, and not have expired.
    pub fn authenticate_record(
        &self,
        record: Option<crate::records::ApiKeyRecord>,
        now: i128,
    ) -> (res: Option<crate::records::ApiKeyRecord>)
        ensures
            match record {
                Some(r) => if crate::auth::accepts_stored_key(
                    self@.1,
                    r.secret_digest@,
                    r.expires_at,
                    now,
                ) {
                    res == Some(r)
                } else {
                    res is None
                },
                None => res is None,
            },
    {
        match record {
            Some(r) => {
                if self.accepts_stored_key(r.secret_digest.as_slice(), r.expires_at, now) {
                    Some(r)
                } else {
                    None
                }
            },
            None => None,
        }
    }

    /// Whether a stored key with this digest and expiry authenticates these
    /// credentials at `now`.
    pub fn accepts_stored_key(&self, stored_digest: &[u8], expires_at: Option<i128>, now: i128) -> (res: bool)
        ensures
            res == crate::auth::accepts_stored_key(self@.1, stored_digest@, expires_at, now),
    {
        if !self.matches_digest(stored_digest) {
            return false;
        }
        match expires_at {
            Some(e) => now < e,
            None => true,
        }
    }

    /// The debug text of the credentials, with the secret left out.
    pub fn redacted_debug(&self) -> (res: String)
        ensures
            res@ == debug_text(self@.0),
            !occurs_in(self@.1, res@),
    {
        proof {
            use_type_invariant(self);
            lemma_debug_text_hides_secret(self@.0, self@.1);
        }
        let mut text = "ApiKeyCredentials { public_id: \"".to_owned();
        text.append(self.public_id.as_str());
        text.append("\", secret: \"[REDACTED]\" }");
        text
    }
}

/// Whether `needle` occurs in `hay` at some position.
pub open spec fn occurs_in(needle: Seq<char>, hay: Seq<char>) -> bool {
    exists|i: int|
        0 <= i && i + needle.len() <= hay.len() && #[trigger] hay.subrange(i, i + needle.len())
            == needle
}

/// The debug text of credentials with this public ID.
pub open spec fn debug_text(public_id: Seq<char>) -> Seq<char> {
    "ApiKeyCredentials { public_id: \""@ + public_id + "\", secret: \"[REDACTED]\" }"@
}

/// Law: the debug text of credentials never holds their secret. It shows the
/// public ID and `[REDACTED]`; every 43-character stretch of it holds a
/// quotation mark, which no secret does.
pub proof fn lemma_debug_text_hides_secret(public_id: Seq<char>, secret: Seq<char>)
    requires
        well_formed_parts(public_id, secret),
    ensures
        !occurs_in(secret, debug_text(public_id)),
{
    reveal_strlit("ApiKeyCredentials { public_id: \"");
    reveal_strlit("\", secret: \"[REDACTED]\" }");
    let t = debug_text(public_id);
    assert(t.len() == 73);
    assert(t[31] == '"');
    if occurs_in(secret, t) {
        let i = choose|i: int|
            0 <= i && i + secret.len() <= t.len() && #[trigger] t.subrange(i, i + secret.len())
                == secret;
        assert(0 <= 31 - i < secret.len());
        assert(t.subrange(i, i + secret.len())[31 - i] == t[31]);
        assert(is_base64url_char(secret[31 - i]));
    }
}

/// Law: the token of any credentials this crate makes reads back to them.
pub proof fn lemma_credentials_token_round_trip(public_id: Seq<char>, secret: Seq<char>)
    requires
        well_formed_parts(public_id, secret),
    ensures
        spec_parse_token(token_text(public_id, secret)) == Ok::<(Seq<char>, Seq<char>), TokenError>(
            (public_id, secret),
        ),
        spec_from_authorization_header("Bearer "@ + token_text(public_id, secret)) == Ok::<
            (Seq<char>, Seq<char>),
            ApiKeyParseError,
        >((public_id, secret)),
{
    lemma_token_round_trip(public_id, secret);
    let t = token_text(public_id, secret);
    reveal_strlit("azk_live_");
    let p = token_prefix();
    assert(p.len() == 9);
    assert forall|i: int| 0 <= i < t.len() implies !is_unicode_whitespace(#[trigger] t[i]) by {
        if i < 9 {
            assert(t[i] == p[i]);
            assert(p[0] == 'a' && p[1] == 'z' && p[2] == 'k' && p[3] == '_' && p[4] == 'l' && p[5]
                == 'i' && p[6] == 'v' && p[7] == 'e' && p[8] == '_');
        } else if i < 9 + public_id.len() {
            assert(t[i] == public_id[i - 9]);
            assert(is_base64url_char(public_id[i - 9]));
        } else if i == 9 + public_id.len() {
            assert(t[i] == '.');
        } else {
            assert(t[i] == secret[i - 10 - public_id.len()]);
            assert(is_base64url_char(secret[i - 10 - public_id.len()]));
        }
    }
    lemma_bearer_header_words(t);
}

/// `Bearer <token>` splits into those two words when the token has no whitespace.
pub proof fn lemma_bearer_header_words(token: Seq<char>)
    requires
        token.len() > 0,
        forall|i: int| 0 <= i < token.len() ==> !is_unicode_whitespace(#[trigger] token[i]),
    ensures
        words("Bearer "@ + token) == seq!["Bearer"@, token],
        eq_ignore_ascii_case("Bearer"@, "Bearer"@),
{
    reveal_strlit("Bearer ");
    reveal_strlit("Bearer");
    let s = "Bearer "@ + token;
    let b = "Bearer"@;
    assert(b.len() == 6);
    assert(s.len() == 7 + token.len());
    assert(s[0] == 'B');
    assert(s[1] == 'e');
    assert(s[2] == 'a');
    assert(s[3] == 'r');
    assert(s[4] == 'e');
    assert(s[5] == 'r');
    assert(s[6] == ' ');
    lemma_words_of_word(s, 0, 6);
    assert(s.subrange(0, 6) =~= b);
    lemma_words_of_word(s, 7, s.len() as int);
    assert(s.subrange(7, s.len() as int) =~= token);
    assert(words_from(s, 7, Seq::empty()) == seq![token]);
    assert(words_from(s, 6, s.subrange(0, 6)) == seq![b] + words_from(s, 7, Seq::empty()));
    assert(seq![b] + seq![token] =~= seq![b, token]);
}

/// Reading a run of non-whitespace characters up to whitespace or the end.
pub proof fn lemma_words_of_word(s: Seq<char>, start: int, end: int)
    requires
        0 <= start < end <= s.len(),
        forall|i: int| start <= i < end ==> !is_unicode_whitespace(#[trigger] s[i]),
        end == s.len() || is_unicode_whitespace(s[end]),
    ensures
        words_from(s, start, Seq::empty()) == words_from(s, end, s.subrange(start, end)),
        end == s.len() ==> words_from(s, end, s.subrange(start, end)) == seq![s.subrange(start, end)],
{
    lemma_words_run(s, start, end, start);
    assert(s.subrange(start, start) =~= Seq::<char>::empty());
}

proof fn lemma_words_run(s: Seq<char>, start: int, end: int, i: int)
    requires
        0 <= start <= i <= end <= s.len(),
        start < end,
        forall|j: int| start <= j < end ==> !is_unicode_whitespace(#[trigger] s[j]),
    ensures
        words_from(s, i, s.subrange(start, i)) == words_from(s, end, s.subrange(start, end)),
        end == s.len() ==> words_from(s, end, s.subrange(start, end)) == seq![s.subrange(start, end)],
    decreases end - i,
{
    if i < end {
        assert(s.subrange(start, i).push(s[i]) =~= s.subrange(start, i + 1));
        lemma_words_run(s, start, end, i + 1);
    }
}

impl std::str::FromStr for ApiKeyCredentials {
    type Err = ApiKeyParseError;

    fn from_str(s: &str) -> (res: Result<Self, Self::Err>)
        ensures
            match spec_parse_token(s@) {
                Ok(parts) => res matches Ok(c) && c@ == parts,
                Err(e) => res matches Err(f) && f == parse_error_of(e),
            },
    {
        Self::parse(s)
    }
}

} // verus!
