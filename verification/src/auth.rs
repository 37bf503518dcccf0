//! Zero Trust authentication: the checks that a Cloudflare Access token
//! passes before an invocation is let in — its shape, its header, the key it
//! names, its RS256 signature under that key, and its claims: issuer,
//! audience, expiry and the admin's email.
use vstd::prelude::*;
use crate::text::{chars_of, push_decimal, split, split_chars, string_of, views};

verus! {

/// Claims extracted from the access token.
pub struct AccessClaims {
    /// Subject identifier
    pub sub: String,
    /// User's email address
    pub email: String,
    /// Issuer (team domain)
    pub iss: String,
    /// Audience (application IDs)
    pub aud: Vec<String>,
    /// Expiration timestamp
    pub exp: u64,
    /// Issued at timestamp
    pub iat: u64,
}

/// What the token's header says: its key id and its algorithm, each when
/// present as a string.
pub struct JwtHeader {
    pub kid: Option<String>,
    pub alg: Option<String>,
}

/// The decoded parts of a token, with the text its signature signs.
pub struct DecodedToken {
    pub header: Vec<u8>,
    pub payload: Vec<u8>,
    pub signature: Vec<u8>,
    /// `header.payload`, as the token carries them
    pub signing_input: String,
}

/// Why base64 decoding refused its input.
#[derive(PartialEq, Eq, Structural, Debug, Clone, Copy)]
pub enum Base64Error {
    /// A symbol outside the alphabet, at this offset.
    InvalidByte { offset: usize, byte: u8 },
    /// The input's length, in symbols, cannot be decoded.
    InvalidLength(usize),
    /// The last symbol, at this offset, has bits that would be discarded.
    InvalidLastSymbol { offset: usize, byte: u8 },
    /// The padding was not as configured.
    InvalidPadding,
}

/// The decoder's description of a base64 error.
pub open spec fn base64_error_text(e: Base64Error) -> Seq<char> {
    match e {
        Base64Error::InvalidByte { offset, byte } => "Invalid symbol "@ + crate::text::decimal(
            byte as nat,
        ) + ", offset "@ + crate::text::decimal(offset as nat) + "."@,
        Base64Error::InvalidLength(len) => "Invalid input length: "@ + crate::text::decimal(len as nat),
        Base64Error::InvalidLastSymbol { offset, byte } => "Invalid last symbol "@
            + crate::text::decimal(byte as nat) + ", offset "@ + crate::text::decimal(offset as nat)
            + "."@,
        Base64Error::InvalidPadding => "Invalid padding"@,
    }
}

/// A key of the team's key set: its id, type, and RSA modulus and exponent
/// (base64url text).
pub struct JwksKey {
    pub kid: String,
    pub kty: String,
    pub n: String,
    pub e: String,
}

/// Why a token is refused.
#[derive(Debug)]
pub enum AuthError {
    /// The token does not have three dot-separated parts.
    InvalidFormat,
    /// A part is not unpadded URL-safe base64.
    Base64Decode(Base64Error),
    /// The header is not a JSON document (the parser's message).
    HeaderParse(String),
    /// The header names no key.
    MissingKid,
    /// The header names an algorithm other than RS256.
    UnsupportedAlgorithm(String),
    /// The key set could not be fetched (the HTTP status).
    JwksFetchFailed(u16),
    /// The key set has no key with the header's key id.
    NoMatchingKey(String),
    /// The signature is not a valid RS256 signature under the header's key.
    InvalidSignature,
    /// The payload does not hold the claims (the parser's message).
    ClaimsParse(String),
    /// The token was issued by someone other than the team.
    InvalidIssuer { expected: String, got: String },
    /// The token is not meant for the application with this audience tag.
    InvalidAudience(String),
    /// The token has expired.
    Expired { exp: u64, now: u64 },
    /// The token belongs to someone other than the admin.
    Unauthorized(String),
}

/// The decoder's description of `e`.
pub fn base64_error_message(e: Base64Error) -> (msg: String)
    ensures
        msg@ == base64_error_text(e),
{
    match e {
        Base64Error::InvalidByte { offset, byte } => {
            let mut msg = String::from_str("Invalid symbol ");
            push_decimal(&mut msg, byte as u64);
            msg.append(", offset ");
            push_decimal(&mut msg, offset as u64);
            msg.append(".");
            msg
        },
        Base64Error::InvalidLength(len) => {
            let mut msg = String::from_str("Invalid input length: ");
            push_decimal(&mut msg, len as u64);
            msg
        },
        Base64Error::InvalidLastSymbol { offset, byte } => {
            let mut msg = String::from_str("Invalid last symbol ");
            push_decimal(&mut msg, byte as u64);
            msg.append(", offset ");
            push_decimal(&mut msg, offset as u64);
            msg.append(".");
            msg
        },
        Base64Error::InvalidPadding => String::from_str("Invalid padding"),
    }
}

impl AuthError {
    /// The message reported for the error.
    pub fn message(&self) -> (msg: String)
        ensures
            match self {
                AuthError::InvalidFormat => msg@ == "Invalid JWT format: expected 3 parts"@,
                AuthError::Base64Decode(e) => msg@ == "Base64 decode error: "@ + base64_error_text(*e),
                AuthError::HeaderParse(m) => msg@ == "Failed to parse JWT header: "@ + m@,
                AuthError::MissingKid => msg@ == "JWT header missing 'kid'"@,
                AuthError::UnsupportedAlgorithm(a) => msg@ == "Unsupported algorithm: "@ + a@
                    + ". Only RS256 is supported."@,
                AuthError::JwksFetchFailed(st) => msg@ == "JWKS fetch failed with status: "@
                    + crate::text::decimal(*st as nat),
                AuthError::NoMatchingKey(k) => msg@ == "No JWKS key found for kid: "@ + k@,
                AuthError::InvalidSignature => msg@ == "Invalid JWT signature"@,
                AuthError::ClaimsParse(m) => msg@ == "Failed to parse JWT claims: "@ + m@,
                AuthError::InvalidIssuer { expected, got } => msg@ == "Invalid issuer: expected '"@
                    + expected@ + "', got '"@ + got@ + "'"@,
                AuthError::InvalidAudience(aud) => msg@ == "Invalid audience: token is not for '"@
                    + aud@ + "'"@,
                AuthError::Expired { exp, now } => msg@ == "Token expired at "@ + crate::text::decimal(
                    *exp as nat,
                ) + ", current time is "@ + crate::text::decimal(*now as nat),
                AuthError::Unauthorized(who) => msg@ == "Unauthorized: "@ + who@
                    + " is not authorized. Admin only."@,
            },
    {
        match self {
            AuthError::InvalidFormat => String::from_str("Invalid JWT format: expected 3 parts"),
            AuthError::Base64Decode(e) => {
                let mut msg = String::from_str("Base64 decode error: ");
                msg.append(base64_error_message(*e).as_str());
                msg
            },
            AuthError::HeaderParse(m) => {
                let mut msg = String::from_str("Failed to parse JWT header: ");
                msg.append(m.as_str());
                msg
            },
            AuthError::MissingKid => String::from_str("JWT header missing 'kid'"),
            AuthError::UnsupportedAlgorithm(a) => {
                let mut msg = String::from_str("Unsupported algorithm: ");
                msg.append(a.as_str());
                msg.append(". Only RS256 is supported.");
                msg
            },
            AuthError::JwksFetchFailed(st) => {
                let mut msg = String::from_str("JWKS fetch failed with status: ");
                push_decimal(&mut msg, *st as u64);
                msg
            },
            AuthError::NoMatchingKey(k) => {
                let mut msg = String::from_str("No JWKS key found for kid: ");
                msg.append(k.as_str());
                msg
            },
            AuthError::InvalidSignature => String::from_str("Invalid JWT signature"),
            AuthError::InvalidAudience(aud) => {
                let mut msg = String::from_str("Invalid audience: token is not for '");
                msg.append(aud.as_str());
                msg.append("'");
                msg
            },
            AuthError::ClaimsParse(m) => {
                let mut msg = String::from_str("Failed to parse JWT claims: ");
                msg.append(m.as_str());
                msg
            },
            AuthError::InvalidIssuer { expected, got } => {
                let mut msg = String::from_str("Invalid issuer: expected '");
                msg.append(expected.as_str());
                msg.append("', got '");
                msg.append(got.as_str());
                msg.append("'");
                msg
            },
            AuthError::Expired { exp, now } => {
                let mut msg = String::from_str("Token expired at ");
                push_decimal(&mut msg, *exp);
                msg.append(", current time is ");
                push_decimal(&mut msg, *now);
                msg
            },
            AuthError::Unauthorized(who) => {
                let mut msg = String::from_str("Unauthorized: ");
                msg.append(who.as_str());
                msg.append(" is not authorized. Admin only.");
                msg
            },
        }
    }
}

/// The characters of unpadded URL-safe base64.
pub open spec fn is_url_safe_b64_char(c: char) -> bool {
    let u = c as u32;
    ||| 65 <= u <= 90
    ||| 97 <= u <= 122
    ||| 48 <= u <= 57
    ||| u == 45
    ||| u == 95
}

/// The bytes that unpadded URL-safe base64 `input` decodes to, or `None`
/// where the decoder refuses it.
pub uninterp spec fn base64_url_decoded(input: Seq<char>) -> Option<Seq<u8>>;

/// Decodes `input` with the base64 crate's `URL_SAFE_NO_PAD` engine, its
/// error taken variant by variant into `Base64Error`.
///
/// Trusted: the result is `base64_url_decoded(input@)`; the empty input
/// decodes to no bytes; an accepted input holds only characters of the
/// URL-safe alphabet (padding is refused) and its length is not one more than
/// a multiple of four. Which bytes a longer input decodes to, and which error
/// a refused input gets, is not stated here.
#[verifier::external_body]
fn decode_url_safe_no_pad(input: &str) -> (r: Result<Vec<u8>, Base64Error>)
    ensures
        r matches Ok(v) ==> base64_url_decoded(input@) == Some(v@),
        r is Err ==> base64_url_decoded(input@) is None,
        r is Err ==> input@.len() > 0,
        r matches Ok(v) ==> (input@.len() == 0 ==> v@.len() == 0),
        r is Ok ==> input@.len() % 4 != 1,
        r is Ok ==> forall|i: int| 0 <= i < input@.len() ==> is_url_safe_b64_char(#[trigger] input@[i]),
{
    match base64::Engine::decode(&base64::engine::general_purpose::URL_SAFE_NO_PAD, input) {
        Ok(v) => Ok(v),
        Err(base64::DecodeError::InvalidByte(offset, byte)) => Err(Base64Error::InvalidByte { offset, byte }),
        Err(base64::DecodeError::InvalidLength(len)) => Err(Base64Error::InvalidLength(len)),
        Err(base64::DecodeError::InvalidLastSymbol(offset, byte)) => Err(Base64Error::InvalidLastSymbol { offset, byte }),
        Err(base64::DecodeError::InvalidPadding) => Err(Base64Error::InvalidPadding),
    }
}

/// Decodes a base64url-encoded string (no padding).
pub fn base64_url_decode(input: &str) -> (r: Result<Vec<u8>, AuthError>)
    ensures
        match r {
            Ok(v) => base64_url_decoded(input@) == Some(v@),
            Err(e) => base64_url_decoded(input@) is None && e is Base64Decode,
        },
        input@.len() == 0 ==> (r matches Ok(v) && v@.len() == 0),
        r is Ok ==> forall|i: int| 0 <= i < input@.len() ==> is_url_safe_b64_char(#[trigger] input@[i]),
{
    match decode_url_safe_no_pad(input) {
        Ok(v) => Ok(v),
        Err(e) => Err(AuthError::Base64Decode(e)),
    }
}

/// What decoding the parts of `token` gives: its dot-separated parts must
/// be three, and each must decode; the header, the payload and the signature.
pub open spec fn decoded_parts(token: Seq<char>) -> Option<(Seq<u8>, Seq<u8>, Seq<u8>)> {
    let parts = split(token, '.');
    if parts.len() != 3 {
        None
    } else {
        match (
            base64_url_decoded(parts[0]),
            base64_url_decoded(parts[1]),
            base64_url_decoded(parts[2]),
        ) {
            (Some(h), Some(p), Some(g)) => Some((h, p, g)),
            _ => None,
        }
    }
}

/// The text that a token's signature signs: its header and payload parts
/// joined by a dot.
pub open spec fn signing_input_of(token: Seq<char>) -> Seq<char> {
    let parts = split(token, '.');
    parts[0] + seq!['.'] + parts[1]
}

/// A token is decoded only when it is exactly `header.payload.signature`:
/// three parts without dots, joined by dots, each decoding; the signature
/// signs the token up to its last dot.
pub proof fn law_decoded_token_has_three_parts(token: Seq<char>)
    requires
        decoded_parts(token) is Some,
    ensures
        ({
            let parts = split(token, '.');
            &&& parts.len() == 3
            &&& token == signing_input_of(token) + seq!['.'] + parts[2]
            &&& forall|i: int, j: int| 0 <= i < 3 && 0 <= j < parts[i].len() ==> #[trigger] parts[i][j] != '.'
            &&& decoded_parts(token) == Some((
                base64_url_decoded(parts[0])->0,
                base64_url_decoded(parts[1])->0,
                base64_url_decoded(parts[2])->0,
            ))
        }),
{
    crate::text::law_split_rejoins(token, '.');
    let parts = split(token, '.');
    assert(parts.drop_first().drop_first().len() == 1);
    assert(crate::text::join(parts.drop_first().drop_first(), '.') == parts[2]);
    assert(crate::text::join(parts.drop_first(), '.') == parts[1] + seq!['.'] + parts[2]);
    assert(token == parts[0] + seq!['.'] + (parts[1] + seq!['.'] + parts[2]));
    assert(token =~= parts[0] + seq!['.'] + parts[1] + seq!['.'] + parts[2]);
}

/// Splits `token` into header, payload and signature and decodes each, in
/// that order; keeps the text the signature signs.
pub fn decode_token(token: &str) -> (r: Result<DecodedToken, AuthError>)
    ensures
        match r {
            Ok(d) => {
                &&& decoded_parts(token@) == Some((d.header@, d.payload@, d.signature@))
                &&& d.signing_input@ == signing_input_of(token@)
            },
            Err(e) => {
                &&& decoded_parts(token@) is None
                &&& (split(token@, '.').len() != 3 <==> e is InvalidFormat)
                &&& (split(token@, '.').len() == 3 <==> e is Base64Decode)
            },
        },
{
    let v = chars_of(token);
    let parts = split_chars(&v, '.');
    if parts.len() != 3 {
        return Err(AuthError::InvalidFormat);
    }
    assert(views(parts@)[0] == parts@[0]@ && views(parts@)[1] == parts@[1]@ && views(parts@)[2]
        == parts@[2]@);
    let header_text = string_of(&parts[0]);
    let payload_text = string_of(&parts[1]);
    let signature_text = string_of(&parts[2]);
    let header = base64_url_decode(header_text.as_str())?;
    let payload = base64_url_decode(payload_text.as_str())?;
    let signature = base64_url_decode(signature_text.as_str())?;
    let mut signing_input = header_text;
    signing_input.append(".");
    signing_input.append(payload_text.as_str());
    proof {
        reveal_strlit(".");
    }
    assert(signing_input@ =~= signing_input_of(token@));
    Ok(DecodedToken { header, payload, signature, signing_input })
}

/// What the header check gives: the key id, when the header names one and an
/// algorithm other than RS256 is not named.
pub open spec fn header_kid(kid: Option<Seq<char>>, alg: Option<Seq<char>>) -> Option<Seq<char>> {
    match kid {
        None => None,
        Some(k) => match alg {
            Some(a) => if a == "RS256"@ {
                Some(k)
            } else {
                None
            },
            None => Some(k),
        },
    }
}

/// Checks the header: it must name a key, and its algorithm (RS256 when it
/// names none) must be RS256. Returns the key id.
pub fn check_header(header: &JwtHeader) -> (r: Result<String, AuthError>)
    ensures
        match r {
            Ok(k) => header.kid matches Some(hk) && k@ == hk@ && header_kid(
                Some(hk@),
                match header.alg {
                    Some(a) => Some(a@),
                    None => None,
                },
            ) == Some(k@),
            Err(e) => match header.kid {
                None => e is MissingKid,
                Some(_) => {
                    &&& header.alg matches Some(a) && a@ != "RS256"@
                    &&& (e matches AuthError::UnsupportedAlgorithm(g) && header.alg == Some(g))
                },
            },
        },
{
    let kid = match &header.kid {
        Some(k) => k.clone(),
        None => {
            return Err(AuthError::MissingKid);
        },
    };
    let rs256 = String::from_str("RS256");
    match &header.alg {
        Some(a) => {
            if *a != rs256 {
                return Err(AuthError::UnsupportedAlgorithm(a.clone()));
            }
        },
        None => {},
    }
    Ok(kid)
}

/// The key set address of a team: `https://{team_domain}/cdn-cgi/access/certs`.
pub fn jwks_url(team_domain: &str) -> (url: String)
    ensures
        url@ == "https://"@ + team_domain@ + "/cdn-cgi/access/certs"@,
{
    let mut url = String::from_str("https://");
    url.append(team_domain);
    url.append("/cdn-cgi/access/certs");
    url
}

/// The key set must come back with status 200.
pub fn check_jwks_status(status: u16) -> (r: Result<(), AuthError>)
    ensures
        r is Ok <==> status == 200,
        r matches Err(e) ==> e == AuthError::JwksFetchFailed(status),
{
    if status != 200 {
        Err(AuthError::JwksFetchFailed(status))
    } else {
        Ok(())
    }
}

/// Finds the key that the header names: the position of the first key in
/// `keys` whose id is `kid`.
pub fn find_jwks_key(keys: &Vec<JwksKey>, kid: &String) -> (r: Result<usize, AuthError>)
    ensures
        match r {
            Ok(i) => i < keys@.len() && keys@[i as int].kid@ == kid@ && forall|j: int|
                0 <= j < i ==> #[trigger] keys@[j].kid@ != kid@,
            Err(e) => {
                &&& forall|j: int| 0 <= j < keys@.len() ==> #[trigger] keys@[j].kid@ != kid@
                &&& (e matches AuthError::NoMatchingKey(k) && k@ == kid@)
            },
        },
{
    let n = keys.len();
    let mut i: usize = 0;
    while i < n
        invariant
            i <= n == keys@.len(),
            forall|j: int| 0 <= j < i ==> #[trigger] keys@[j].kid@ != kid@,
        decreases n - i,
    {
        if keys[i].kid == *kid {
            return Ok(i);
        }
        i = i + 1;
    }
    Err(AuthError::NoMatchingKey(kid.clone()))
}

/// The issuer that a team's tokens carry: `https://{team_domain}`.
pub fn expected_issuer(team_domain: &str) -> (iss: String)
    ensures
        iss@ == "https://"@ + team_domain@,
{
    let mut iss = String::from_str("https://");
    iss.append(team_domain);
    iss
}

/// Whether the audience list `aud` names the application `audience`.
pub open spec fn aud_names(aud: Seq<String>, audience: Seq<char>) -> bool {
    exists|i: int| 0 <= i < aud.len() && #[trigger] aud[i]@ == audience
}

/// Whether claims let an invocation in: issued by the team, meant for the
/// application, not expired at `now`, and belonging to the admin.
pub open spec fn claims_accepted(
    claims: AccessClaims,
    team_domain: Seq<char>,
    audience: Seq<char>,
    admin_email: Seq<char>,
    now: u64,
) -> bool {
    &&& claims.iss@ == "https://"@ + team_domain
    &&& aud_names(claims.aud@, audience)
    &&& claims.exp >= now
    &&& claims.email@ == admin_email
}

/// The refusal for claims that are not accepted: the first check they fail,
/// in the order issuer, audience, expiry, admin.
pub open spec fn claims_refusal(
    e: AuthError,
    claims: AccessClaims,
    team_domain: Seq<char>,
    audience: Seq<char>,
    now: u64,
) -> bool {
    if claims.iss@ != "https://"@ + team_domain {
        e matches AuthError::InvalidIssuer { expected, got } && expected@ == "https://"@
            + team_domain && got@ == claims.iss@
    } else if !aud_names(claims.aud@, audience) {
        e matches AuthError::InvalidAudience(a) && a@ == audience
    } else if claims.exp < now {
        e == AuthError::Expired { exp: claims.exp, now }
    } else {
        e matches AuthError::Unauthorized(who) && who@ == claims.email@
    }
}

/// Admin exclusivity: whatever the issuer, audience and expiry, claims of
/// anyone but the admin are never accepted, and two accepted claims under the
/// same settings belong to the same person; claims of the admin that pass the
/// other checks are accepted up to the very second they expire.
pub proof fn law_admin_exclusivity(
    c1: AccessClaims,
    c2: AccessClaims,
    team_domain: Seq<char>,
    audience: Seq<char>,
    admin_email: Seq<char>,
    now: u64,
)
    ensures
        c1.email@ != admin_email ==> !claims_accepted(c1, team_domain, audience, admin_email, now),
        claims_accepted(c1, team_domain, audience, admin_email, now) && claims_accepted(
            c2,
            team_domain,
            audience,
            admin_email,
            now,
        ) ==> c1.email@ == c2.email@,
        (c1.iss@ == "https://"@ + team_domain && aud_names(c1.aud@, audience) && c1.email@
            == admin_email && c1.exp == now) ==> claims_accepted(
            c1,
            team_domain,
            audience,
            admin_email,
            now,
        ),
{
}

/// The acceptance rule, in full: claims are accepted exactly when their
/// issuer is `https://` and the team's domain, one of their audiences is the
/// application's, they expire at `now` or later (however much later), and
/// their email is the admin's.
pub proof fn law_claims_accepted_exactly(
    c: AccessClaims,
    team_domain: Seq<char>,
    audience: Seq<char>,
    admin_email: Seq<char>,
    now: u64,
)
    ensures
        claims_accepted(c, team_domain, audience, admin_email, now) <==> {
            &&& c.iss@ == "https://"@ + team_domain
            &&& exists|i: int| 0 <= i < c.aud@.len() && #[trigger] c.aud@[i]@ == audience
            &&& now <= c.exp
            &&& c.email@ == admin_email
        },
{
}

/// A later expiry never turns accepted claims away: claims that differ from
/// accepted ones only in expiring later are accepted too.
pub proof fn law_later_expiry_still_accepted(
    c: AccessClaims,
    later: u64,
    team_domain: Seq<char>,
    audience: Seq<char>,
    admin_email: Seq<char>,
    now: u64,
)
    requires
        claims_accepted(c, team_domain, audience, admin_email, now),
        c.exp <= later,
    ensures
        claims_accepted(AccessClaims { exp: later, ..c }, team_domain, audience, admin_email, now),
{
    let d = AccessClaims { exp: later, ..c };
    assert(d.aud@ == c.aud@);
}

/// Checks the claims in order: the issuer, the audience, the expiry at `now`
/// (seconds since the epoch), then the admin's email.
pub fn validate_claims(
    claims: &AccessClaims,
    team_domain: &str,
    audience: &str,
    admin_email: &str,
    now: u64,
) -> (r: Result<(), AuthError>)
    ensures
        r is Ok <==> claims_accepted(*claims, team_domain@, audience@, admin_email@, now),
        r is Ok <==> {
            &&& claims.iss@ == "https://"@ + team_domain@
            &&& exists|i: int| 0 <= i < claims.aud@.len() && #[trigger] claims.aud@[i]@ == audience@
            &&& now <= claims.exp
            &&& claims.email@ == admin_email@
        },
        r matches Err(e) ==> claims_refusal(e, *claims, team_domain@, audience@, now),
{
    let expected = expected_issuer(team_domain);
    if claims.iss != expected {
        return Err(AuthError::InvalidIssuer { expected, got: claims.iss.clone() });
    }
    let target = String::from_str(audience);
    let n = claims.aud.len();
    let mut found = false;
    let mut i: usize = 0;
    while i < n
        invariant
            i <= n == claims.aud@.len(),
            target@ == audience@,
            found ==> aud_names(claims.aud@, audience@),
            !found ==> forall|j: int| 0 <= j < i ==> #[trigger] claims.aud@[j]@ != audience@,
        decreases n - i,
    {
        if claims.aud[i] == target {
            found = true;
        }
        i = i + 1;
    }
    if !found {
        return Err(AuthError::InvalidAudience(target));
    }
    if claims.exp < now {
        return Err(AuthError::Expired { exp: claims.exp, now });
    }
    let admin = String::from_str(admin_email);
    if claims.email != admin {
        return Err(AuthError::Unauthorized(claims.email.clone()));
    }
    Ok(())
}

// ─────────────────────────────────────────────────────────────────────────
// The validation in its order: each stage holds what the next check needs,
// and the work between the stages (reading the header, fetching the key set,
// verifying the signature with the platform's crypto, reading the claims,
// reading the clock) is the caller's.
// ─────────────────────────────────────────────────────────────────────────

/// A token whose parts are decoded, waiting for its header to be read.
pub struct HeaderPending {
    pub header: Vec<u8>,
    pub payload: Vec<u8>,
    pub signature: Vec<u8>,
    pub signing_input: String,
    pub team_domain: String,
    pub audience: String,
    pub admin_email: String,
}

/// A token whose header named a key, waiting for the team's key set.
pub struct KeysPending {
    pub url: String,
    pub kid: String,
    pub payload: Vec<u8>,
    pub signature: Vec<u8>,
    pub signing_input: String,
    pub team_domain: String,
    pub audience: String,
    pub admin_email: String,
}

/// A token whose key was found, waiting for its signature to be verified:
/// `signature` must be an RS256 (RSASSA-PKCS1-v1_5 with SHA-256) signature
/// of `signing_input` under `key`.
pub struct SignaturePending {
    pub key: JwksKey,
    pub signing_input: String,
    pub signature: Vec<u8>,
    pub payload: Vec<u8>,
    pub team_domain: String,
    pub audience: String,
    pub admin_email: String,
}

/// A token whose signature holds, waiting for its claims to be read.
pub struct ClaimsPending {
    pub payload: Vec<u8>,
    pub team_domain: String,
    pub audience: String,
    pub admin_email: String,
}

/// Starts validating `token` for the team, the application with audience tag
/// `audience`, and the admin: decodes its header, payload and signature.
pub fn start_validation(token: &str, team_domain: &str, audience: &str, admin_email: &str) -> (r:
    Result<HeaderPending, AuthError>)
    ensures
        match r {
            Ok(p) => {
                &&& decoded_parts(token@) == Some((p.header@, p.payload@, p.signature@))
                &&& p.signing_input@ == signing_input_of(token@)
                &&& p.team_domain@ == team_domain@
                &&& p.audience@ == audience@
                &&& p.admin_email@ == admin_email@
            },
            Err(e) => {
                &&& decoded_parts(token@) is None
                &&& (split(token@, '.').len() != 3 <==> e is InvalidFormat)
                &&& (split(token@, '.').len() == 3 <==> e is Base64Decode)
            },
        },
{
    let d = decode_token(token)?;
    Ok(HeaderPending {
        header: d.header,
        payload: d.payload,
        signature: d.signature,
        signing_input: d.signing_input,
        team_domain: String::from_str(team_domain),
        audience: String::from_str(audience),
        admin_email: String::from_str(admin_email),
    })
}

impl HeaderPending {
    /// Takes in what the header says: it must name a key and allow RS256;
    /// the key set to fetch is the team's.
    pub fn on_header(self, header: &JwtHeader) -> (r: Result<KeysPending, AuthError>)
        ensures
            match r {
                Ok(k) => {
                    &&& header.kid matches Some(hk) && k.kid@ == hk@
                    &&& header_kid(
                        Some(k.kid@),
                        match header.alg {
                            Some(a) => Some(a@),
                            None => None,
                        },
                    ) == Some(k.kid@)
                    &&& k.url@ == "https://"@ + self.team_domain@ + "/cdn-cgi/access/certs"@
                    &&& k.payload@ == self.payload@
                    &&& k.signature@ == self.signature@
                    &&& k.signing_input@ == self.signing_input@
                    &&& k.team_domain@ == self.team_domain@
                    &&& k.audience@ == self.audience@
                    &&& k.admin_email@ == self.admin_email@
                },
                Err(e) => match header.kid {
                    None => e is MissingKid,
                    Some(_) => {
                        &&& header.alg matches Some(a) && a@ != "RS256"@
                        &&& (e matches AuthError::UnsupportedAlgorithm(g) && header.alg == Some(g))
                    },
                },
            },
    {
        let kid = check_header(header)?;
        let url = jwks_url(self.team_domain.as_str());
        Ok(KeysPending {
            url,
            kid,
            payload: self.payload,
            signature: self.signature,
            signing_input: self.signing_input,
            team_domain: self.team_domain,
            audience: self.audience,
            admin_email: self.admin_email,
        })
    }
}

impl KeysPending {
    /// The key set must come back with status 200.
    pub fn check_status(&self, status: u16) -> (r: Result<(), AuthError>)
        ensures
            r is Ok <==> status == 200,
            r matches Err(e) ==> e == AuthError::JwksFetchFailed(status),
    {
        check_jwks_status(status)
    }

    /// Takes in the keys of the key set: one of them must have the header's
    /// key id, and the first such key is the one the signature is checked
    /// under.
    pub fn on_keys(self, keys: &Vec<JwksKey>) -> (r: Result<SignaturePending, AuthError>)
        ensures
            match r {
                Ok(sp) => {
                    &&& exists|i: int|
                        0 <= i < keys@.len() && #[trigger] keys@[i] == sp.key && sp.key.kid@
                            == self.kid@ && forall|j: int|
                            0 <= j < i ==> #[trigger] keys@[j].kid@ != self.kid@
                    &&& sp.signing_input@ == self.signing_input@
                    &&& sp.signature@ == self.signature@
                    &&& sp.payload@ == self.payload@
                    &&& sp.team_domain@ == self.team_domain@
                    &&& sp.audience@ == self.audience@
                    &&& sp.admin_email@ == self.admin_email@
                },
                Err(e) => {
                    &&& forall|j: int| 0 <= j < keys@.len() ==> #[trigger] keys@[j].kid@ != self.kid@
                    &&& (e matches AuthError::NoMatchingKey(k) && k@ == self.kid@)
                },
            },
    {
        let i = find_jwks_key(keys, &self.kid)?;
        let found = &keys[i];
        let key = JwksKey {
            kid: found.kid.clone(),
            kty: found.kty.clone(),
            n: found.n.clone(),
            e: found.e.clone(),
        };
        assert(keys@[i as int] == key);
        Ok(SignaturePending {
            key,
            signing_input: self.signing_input,
            signature: self.signature,
            payload: self.payload,
            team_domain: self.team_domain,
            audience: self.audience,
            admin_email: self.admin_email,
        })
    }
}

impl SignaturePending {
    /// Takes in whether the signature verified under the key: the token goes
    /// on to its claims exactly when it did.
    pub fn on_signature(self, valid: bool) -> (r: Result<ClaimsPending, AuthError>)
        ensures
            r is Ok <==> valid,
            r matches Err(e) ==> e is InvalidSignature,
            r matches Ok(c) ==> {
                &&& c.payload@ == self.payload@
                &&& c.team_domain@ == self.team_domain@
                &&& c.audience@ == self.audience@
                &&& c.admin_email@ == self.admin_email@
            },
    {
        if !valid {
            return Err(AuthError::InvalidSignature);
        }
        Ok(ClaimsPending {
            payload: self.payload,
            team_domain: self.team_domain,
            audience: self.audience,
            admin_email: self.admin_email,
        })
    }
}

impl ClaimsPending {
    /// Takes in the claims read from the payload and the time (seconds since
    /// the epoch): they are accepted, and handed back, exactly when issued by
    /// the team, meant for the application, unexpired and the admin's.
    pub fn on_claims(self, claims: AccessClaims, now: u64) -> (r: Result<AccessClaims, AuthError>)
        ensures
            r is Ok <==> claims_accepted(
                claims,
                self.team_domain@,
                self.audience@,
                self.admin_email@,
                now,
            ),
            r matches Ok(c) ==> c == claims,
            r matches Err(e) ==> claims_refusal(e, claims, self.team_domain@, self.audience@, now),
    {
        validate_claims(
            &claims,
            self.team_domain.as_str(),
            self.audience.as_str(),
            self.admin_email.as_str(),
            now,
        )?;
        Ok(claims)
    }
}

} // verus!
