//! API keys: their credentials and the scopes they grant.
pub mod credentials;
pub mod scope;

use vstd::prelude::*;

use crate::auth::credentials::{
    component_from_bytes, debug_text, format_token, generate_component,
    lemma_debug_text_hides_secret, occurs_in, parse_token, spec_parse_token, token_text,
    well_formed_parts, TokenError, PUBLIC_ID_BYTES, SECRET_BYTES,
};
use crate::encoding::{base64url_encode, constant_time_eq, sha256, sha256_digest};
use crate::text::{eq_ignore_ascii_case, split_whitespace, str_eq_ignore_ascii_case, words};
use vstd::utf8::encode_utf8;

verus! {

/// Why a token was refused.
#[derive(Clone, Copy, Debug, PartialEq, Eq, Structural)]
pub enum ApiKeyCredentialsParseError {
    Prefix,
    Format,
    PublicId,
    Secret,
}

pub open spec fn credentials_error_of(e: TokenError) -> ApiKeyCredentialsParseError {
    match e {
        TokenError::Prefix => ApiKeyCredentialsParseError::Prefix,
        TokenError::Format => ApiKeyCredentialsParseError::Format,
        TokenError::PublicId => ApiKeyCredentialsParseError::PublicId,
        TokenError::Secret => ApiKeyCredentialsParseError::Secret,
    }
}

impl ApiKeyCredentialsParseError {
    /// The message the error displays.
    pub fn message(&self) -> (res: &'static str)
        ensures
            res@ == match *self {
                ApiKeyCredentialsParseError::Prefix => "invalid API key prefix"@,
                ApiKeyCredentialsParseError::Format => "invalid API key format"@,
                ApiKeyCredentialsParseError::PublicId => "invalid API key public ID"@,
                ApiKeyCredentialsParseError::Secret => "invalid API key secret"@,
            },
    {
        match self {
            ApiKeyCredentialsParseError::Prefix => "invalid API key prefix",
            ApiKeyCredentialsParseError::Format => "invalid API key format",
            ApiKeyCredentialsParseError::PublicId => "invalid API key public ID",
            ApiKeyCredentialsParseError::Secret => "invalid API key secret",
        }
    }
}

/// Whether a stored key may be used now: its digest is that of the secret
/// and it has not expired (it expires at `expires_at`, that instant included).
pub open spec fn accepts_stored_key(
    secret: Seq<char>,
    stored_digest: Seq<u8>,
    expires_at: Option<i128>,
    now: i128,
) -> bool {
    &&& stored_digest == sha256(encode_utf8(secret))
    &&& match expires_at {
        Some(e) => now < e,
        None => true,
    }
}

/// The credentials an `Authorization` header carries: exactly two words,
/// the first `Bearer` in any ASCII case, the second a well-formed token.
pub open spec fn spec_bearer_credentials(header: Seq<char>) -> Option<(Seq<char>, Seq<char>)> {
    let w = words(header);
    if w.len() == 2 && eq_ignore_ascii_case(w[0], "Bearer"@) {
        match spec_parse_token(w[1]) {
            Ok(parts) => Some(parts),
            Err(_) => None,
        }
    } else {
        None
    }
}

/// A public ID and its secret, as a bearer token carries them.
pub struct ApiKeyCredentials {
    public_id: String,
    secret: String,
}

impl View for ApiKeyCredentials {
    type V = (Seq<char>, Seq<char>);

    closed spec fn view(&self) -> (Seq<char>, Seq<char>) {
        (self.public_id@, self.secret@)
    }
}

impl ApiKeyCredentials {
    #[verifier::type_invariant]
    closed spec fn inv(&self) -> bool {
        well_formed_parts(self.public_id@, self.secret@)
    }

    /// Fresh credentials from the operating system's random source.
    /// On success both parts are fresh random bytes (12 for the public ID,
    /// 32 for the secret) in unpadded URL-safe base64, 16 and 43 characters
    /// long; an `Err` is the random source's own error.
    pub fn generate() -> (res: Result<Self, getrandom::Error>)
        ensures
            res matches Ok(c) ==> well_formed_parts(c@.0, c@.1) && c@.0.len() == 16 && c@.1.len()
                == 43 && exists|p: Seq<u8>, q: Seq<u8>|
                p.len() == PUBLIC_ID_BYTES && q.len() == SECRET_BYTES && c@.0 == base64url_encode(p)
                    && c@.1 == base64url_encode(q),
    {
        let public_id = match generate_component(PUBLIC_ID_BYTES) {
            Ok(text) => text,
            Err(e) => {
                return Err(e);
            },
        };
        let secret = match generate_component(SECRET_BYTES) {
            Ok(text) => text,
            Err(e) => {
                return Err(e);
            },
        };
        proof {
            let p = choose|p: Seq<u8>| p.len() == PUBLIC_ID_BYTES && public_id@ == base64url_encode(p);
            let q = choose|q: Seq<u8>| q.len() == SECRET_BYTES && secret@ == base64url_encode(q);
            assert(p.len() == PUBLIC_ID_BYTES && q.len() == SECRET_BYTES && public_id@
                == base64url_encode(p) && secret@ == base64url_encode(q));
        }
        Ok(ApiKeyCredentials { public_id, secret })
    }

    /// The credentials made of given random bytes.
    pub fn from_random_bytes(public_id: &[u8], secret: &[u8]) -> (res: Self)
        requires
            public_id@.len() == PUBLIC_ID_BYTES,
            secret@.len() == SECRET_BYTES,
        ensures
            res@ == (base64url_encode(public_id@), base64url_encode(secret@)),
    {
        ApiKeyCredentials {
            public_id: component_from_bytes(public_id),
            secret: component_from_bytes(secret),
        }
    }

    /// Reads credentials from an `Authorization` header value; `None` for a
    /// header that is not a bearer token.
    pub fn from_bearer_header(header: &str) -> (res: Option<Self>)
        ensures
            match spec_bearer_credentials(header@) {
                Some(parts) => res matches Some(c) && c@ == parts,
                None => res is None,
            },
    {
        let parts = split_whitespace(header);
        proof {
            assert(parts@.map_values(|w: String| w@).len() == parts@.len());
        }
        if parts.len() != 2 {
            return None;
        }
        proof {
            assert(parts@.map_values(|w: String| w@)[0] == parts@[0]@);
            assert(parts@.map_values(|w: String| w@)[1] == parts@[1]@);
        }
        let bearer = "Bearer";
        if !str_eq_ignore_ascii_case(parts[0].as_str(), bearer) {
            return None;
        }
        match Self::parse(parts[1].as_str()) {
            Ok(c) => Some(c),
            Err(_) => None,
        }
    }

    /// Reads credentials from a token.
    pub fn parse(s: &str) -> (res: Result<Self, ApiKeyCredentialsParseError>)
        ensures
            match spec_parse_token(s@) {
                Ok(parts) => res matches Ok(c) && c@ == parts,
                Err(e) => res matches Err(f) && f == credentials_error_of(e),
            },
    {
        match parse_token(s) {
            Ok((public_id, secret)) => Ok(ApiKeyCredentials { public_id, secret }),
            Err(TokenError::Prefix) => Err(ApiKeyCredentialsParseError::Prefix),
            Err(TokenError::Format) => Err(ApiKeyCredentialsParseError::Format),
            Err(TokenError::PublicId) => Err(ApiKeyCredentialsParseError::PublicId),
            Err(TokenError::Secret) => Err(ApiKeyCredentialsParseError::Secret),
        }
    }

    pub fn public_id(&self) -> (res: &str)
        ensures
            res@ == self@.0,
    {
        self.public_id.as_str()
    }

    /// SHA-256 of the secret's UTF-8 bytes, as stored for the key.
    pub fn secret_digest(&self) -> (res: [u8; 32])
        ensures
            res@ == sha256(encode_utf8(self@.1)),
    {
        sha256_digest(self.secret.as_str().as_bytes())
    }

    /// Whether a stored digest is that of this secret (compared in constant time).
    pub fn matches_secret_digest(&self, expected: &[u8]) -> (res: bool)
        ensures
            res == (expected@ == sha256(encode_utf8(self@.1))),
    {
        let actual = self.secret_digest();
        expected.len() == actual.len() && constant_time_eq(expected, actual.as_slice())
    }

    /// The token that carries these credentials.
    pub fn expose(&self) -> (res: String)
        ensures
            res@ == token_text(self@.0, self@.1),
            well_formed_parts(self@.0, self@.1),
    {
        proof {
            use_type_invariant(self);
        }
        format_token(self.public_id.as_str(), self.secret.as_str())
    }

    /// The stored key these credentials authenticate as at `now`: the row
    /// read for their public ID must be there, hold the digest of their
    /// secret, and not have expired.
    pub fn authenticate_record(
        &self,
        record: Option<crate::records::ApiKeyRecord>,
        now: i128,
    ) -> (res: Option<crate::records::ApiKeyRecord>)
        ensures
            match record {
                Some(r) => if crate::auth::accepts_stored_key(
                    self@.1,
                    r.secret_digest@,
                    r.expires_at,
                    now,
                ) {
                    res == Some(r)
                } else {
                    res is None
                },
                None => res is None,
            },
    {
        match record {
            Some(r) => {
                if self.accepts_stored_key(r.secret_digest.as_slice(), r.expires_at, now) {
                    Some(r)
                } else {
                    None
                }
            },
            None => None,
        }
    }

    /// Whether a stored key with this digest and expiry authenticates these
    /// credentials at `now`.
    pub fn accepts_stored_key(&self, stored_digest: &[u8], expires_at: Option<i128>, now: i128) -> (res: bool)
        ensures
            res == accepts_stored_key(self@.1, stored_digest@, expires_at, now),
    {
        if !self.matches_secret_digest(stored_digest) {
            return false;
        }
        match expires_at {
            Some(e) => now < e,
            None => true,
        }
    }

    /// The debug text of the credentials, with the secret left out.
    pub fn redacted_debug(&self) -> (res: String)
        ensures
            res@ == debug_text(self@.0),
            !occurs_in(self@.1, res@),
    {
        proof {
            use_type_invariant(self);
            lemma_debug_text_hides_secret(self@.0, self@.1);
        }
        let mut text = "ApiKeyCredentials { public_id: \"".to_owned();
        text.append(self.public_id.as_str());
        text.append("\", secret: \"[REDACTED]\" }");
        text
    }
}

impl std::str::FromStr for ApiKeyCredentials {
    type Err = ApiKeyCredentialsParseError;

    fn from_str(s: &str) -> (res: Result<Self, Self::Err>)
        ensures
            match spec_parse_token(s@) {
                Ok(parts) => res matches Ok(c) && c@ == parts,
                Err(e) => res matches Err(f) && f == credentials_error_of(e),
            },
    {
        Self::parse(s)
    }
}

} // verus!
