//! The bearer-token service: signed claims `{user_id, exp}` with a
//! one-hour lifetime, and the parsing of `Authorization` header values.

use vstd::prelude::*;

use crate::request::AuthError;

verus! {

/// The claims a bearer token carries: the account and the expiry, in
/// seconds since the epoch.
#[derive(Debug, Clone, Copy, PartialEq, Eq, Structural)]
pub struct Claims {
    pub user_id: i32,
    pub exp: usize,
}

/// The token a given secret signs over given claims. Its shape (header,
/// payload and signature encoding) belongs to the token library; the
/// contracts only need that it is a function of secret and claims.
pub uninterp spec fn token_of(secret: Seq<char>, user_id: i32, exp: usize) -> Seq<char>;

/// The claims embedded in a token under a given secret: `Some` exactly
/// for strings this secret validly signs, ignoring expiry. A token
/// carries its claims losslessly, so this inverts [`token_of`].
pub uninterp spec fn claims_of(secret: Seq<char>, token: Seq<char>) -> Option<(i32, usize)>;

#[verifier::external_type_specification]
#[verifier::external_body]
pub struct ExJwtError(jsonwebtoken::errors::Error);

/// Relies on jsonwebtoken's `encode` with the default header (HS256)
/// and a flat claims object: the token is deterministic in the secret
/// and the claims, and decoding with the same secret returns them.
/// Signing cannot fail here — the default header's algorithm matches a
/// secret key's family, the HS256 signer accepts a key of any length,
/// and serializing the two-entry claims object cannot fail — so success
/// is promised.
#[verifier::external_body]
fn jwt_encode(secret: &str, user_id: i32, exp: usize) -> (r: Result<
    String,
    jsonwebtoken::errors::Error,
>)
    ensures
        r is Ok,
        r matches Ok(t) ==> t@ == token_of(secret@, user_id, exp) && claims_of(secret@, t@)
            == Some((user_id, exp)),
{
    let mut claims = serde_json::Map::new();
    claims.insert("user_id".to_string(), serde_json::Value::from(user_id));
    claims.insert("exp".to_string(), serde_json::Value::from(exp as u64));
    jsonwebtoken::encode(
        &jsonwebtoken::Header::default(),
        &serde_json::Value::Object(claims),
        &jsonwebtoken::EncodingKey::from_secret(secret.as_bytes()),
    )
}

/// Relies on jsonwebtoken's `decode` with default validation (HS256,
/// expiry required and checked against the clock): success means the
/// signature matches this secret and the embedded claims come back.
/// Whether an unexpired token passes depends on the clock, so success
/// itself is not promised.
#[verifier::external_body]
fn jwt_decode(secret: &str, token: &str) -> (r: Result<Claims, jsonwebtoken::errors::Error>)
    ensures
        r matches Ok(c) ==> claims_of(secret@, token@) == Some((c.user_id, c.exp)),
{
    let key = jsonwebtoken::DecodingKey::from_secret(secret.as_bytes());
    let data = jsonwebtoken::decode::<serde_json::Value>(
        token,
        &key,
        &jsonwebtoken::Validation::default(),
    )?;
    let user_id = data.claims.get("user_id").and_then(|v| v.as_i64());
    let exp = data.claims.get("exp").and_then(|v| v.as_u64());
    match (user_id, exp) {
        (Some(u), Some(e)) => match (i32::try_from(u), usize::try_from(e)) {
            (Ok(user_id), Ok(exp)) => Ok(Claims { user_id, exp }),
            _ => Err(jsonwebtoken::errors::ErrorKind::InvalidToken.into()),
        },
        _ => Err(jsonwebtoken::errors::ErrorKind::InvalidToken.into()),
    }
}

/// Issues and validates bearer tokens under one secret.
pub struct Encoder {
    pub secret: String,
}

impl Clone for Encoder {
    fn clone(&self) -> (res: Self)
        ensures
            res.secret@ == self.secret@,
    {
        Encoder { secret: self.secret.clone() }
    }
}

/// The token lifetime granted at issuance, in seconds.
pub const TOKEN_LIFETIME_SECS: usize = 3600;

impl Encoder {
    pub fn new(secret: String) -> (r: Encoder)
        ensures
            r.secret@ == secret@,
    {
        Encoder { secret }
    }

    /// Issues a token for this user carrying an expiry one hour past
    /// `now` (seconds since the epoch, supplied by the caller's clock).
    /// Issuance always succeeds.
    pub fn encode(&self, user_id: i32, now: usize) -> (r: Result<
        String,
        jsonwebtoken::errors::Error,
    >)
        requires
            now + TOKEN_LIFETIME_SECS <= usize::MAX,
        ensures
            r is Ok,
            r matches Ok(t) ==> t@ == token_of(
                self.secret@,
                user_id,
                (now + TOKEN_LIFETIME_SECS) as usize,
            ) && claims_of(self.secret@, t@) == Some(
                (user_id, (now + TOKEN_LIFETIME_SECS) as usize),
            ),
    {
        let exp = now + TOKEN_LIFETIME_SECS;
        jwt_encode(self.secret.as_str(), user_id, exp)
    }

    /// Validates a token: on success the returned claims are the ones
    /// this encoder's secret signed into it.
    pub fn decode(&self, token: String) -> (r: Result<Claims, jsonwebtoken::errors::Error>)
        ensures
            r matches Ok(c) ==> claims_of(self.secret@, token@) == Some((c.user_id, c.exp)),
    {
        jwt_decode(self.secret.as_str(), token.as_str())
    }
}

/// Law: decoding what `encode` issued for user `k` yields claims with
/// `user_id == k` and the issued expiry. The first premise is `encode`'s
/// guarantee about its token, the second is `decode`'s guarantee about
/// whatever claims it accepted; success of `decode` itself depends on
/// the clock (the token must still be within its validity).
pub proof fn lemma_token_round_trip(
    secret: Seq<char>,
    token: Seq<char>,
    user_id: i32,
    exp: usize,
    c: Claims,
)
    requires
        claims_of(secret, token) == Some((user_id, exp)),
        claims_of(secret, token) == Some((c.user_id, c.exp)),
    ensures
        c.user_id == user_id,
        c.exp == exp,
{
}

/// A character the header parser skips in front of the scheme: ASCII
/// whitespace and control characters.
pub open spec fn skippable(c: char) -> bool {
    (c as u32) <= 0x20 || (c as u32) == 0x7f
}

/// How many leading characters of `s` are skippable.
pub open spec fn leading_skip(s: Seq<char>) -> int
    decreases s.len(),
{
    if s.len() == 0 {
        0
    } else if skippable(s[0]) {
        1 + leading_skip(s.subrange(1, s.len() as int))
    } else {
        0
    }
}

/// Whether `s` starts with `Bearer ` or `bearer `.
pub open spec fn bearer_prefixed(s: Seq<char>) -> bool {
    &&& s.len() >= 7
    &&& (s[0] == 'B' || s[0] == 'b')
    &&& s[1] == 'e'
    &&& s[2] == 'a'
    &&& s[3] == 'r'
    &&& s[4] == 'e'
    &&& s[5] == 'r'
    &&& s[6] == ' '
}

/// The header value with its leading skippable characters removed.
pub open spec fn trimmed(s: Seq<char>) -> Seq<char> {
    s.subrange(leading_skip(s), s.len() as int)
}

/// A position left of which everything is skippable, and which is not
/// itself skippable, is where the leading skip ends.
proof fn lemma_leading_skip_at(s: Seq<char>, p: int)
    requires
        0 <= p <= s.len(),
        forall|k: int| 0 <= k < p ==> skippable(s[k]),
        p < s.len() ==> !skippable(s[p]),
    ensures
        leading_skip(s) == p,
    decreases s.len(),
{
    if s.len() == 0 {
    } else if p == 0 {
    } else {
        let t = s.subrange(1, s.len() as int);
        assert(skippable(s[0]));
        assert forall|k: int| 0 <= k < p - 1 implies skippable(t[k]) by {
            assert(t[k] == s[k + 1]);
        }
        if p - 1 < t.len() {
            assert(t[p - 1] == s[p]);
        }
        lemma_leading_skip_at(t, p - 1);
    }
}

fn is_skippable_char(c: char) -> (r: bool)
    ensures
        r == skippable(c),
{
    (c as u32) <= 0x20 || (c as u32) == 0x7f
}

/// Extracts the token from an `Authorization` header value: leading
/// whitespace and control characters are ignored, the scheme may be
/// `Bearer` or `bearer`, and everything after the single space is the
/// token.
pub fn parse_bearer(header: &str) -> (r: Option<&str>)
    ensures
        match r {
            Some(tok) => bearer_prefixed(trimmed(header@)) && tok@ == trimmed(header@).subrange(
                7,
                trimmed(header@).len() as int,
            ),
            None => !bearer_prefixed(trimmed(header@)),
        },
{
    let n = header.unicode_len();
    let mut skip: usize = 0;
    while skip < n && is_skippable_char(header.get_char(skip))
        invariant
            0 <= skip <= n,
            n == header@.len(),
            forall|k: int| 0 <= k < skip ==> skippable(header@[k]),
        decreases n - skip,
    {
        skip = skip + 1;
    }
    proof {
        lemma_leading_skip_at(header@, skip as int);
    }
    if n - skip < 7 {
        return None;
    }
    let c0 = header.get_char(skip);
    if !(c0 == 'B' || c0 == 'b') {
        return None;
    }
    if header.get_char(skip + 1) != 'e' || header.get_char(skip + 2) != 'a' || header.get_char(
        skip + 3,
    ) != 'r' || header.get_char(skip + 4) != 'e' || header.get_char(skip + 5) != 'r'
        || header.get_char(skip + 6) != ' ' {
        return None;
    }
    let tok = header.substring_char(skip + 7, n);
    proof {
        assert(tok@ =~= trimmed(header@).subrange(7, trimmed(header@).len() as int));
    }
    Some(tok)
}

/// Authorizes an upgrade request: parses the bearer header and validates
/// the token. Any failure is an invalid token; on success the claims are
/// the ones the secret signed.
pub fn authenticate(encoder: &Encoder, header: &str) -> (r: Result<Claims, AuthError>)
    ensures
        !bearer_prefixed(trimmed(header@)) ==> r == Err::<Claims, AuthError>(AuthError::InvalidToken),
        r matches Ok(c) ==> bearer_prefixed(trimmed(header@)) && claims_of(
            encoder.secret@,
            trimmed(header@).subrange(7, trimmed(header@).len() as int),
        ) == Some((c.user_id, c.exp)),
{
    match parse_bearer(header) {
        Some(tok) => {
            let token = tok.to_owned();
            match encoder.decode(token) {
                Ok(claims) => Ok(claims),
                Err(_) => Err(AuthError::InvalidToken),
            }
        },
        None => Err(AuthError::InvalidToken),
    }
}

} // verus!
