//! The token service: issues signed, time-bound identity tokens and verifies them.
//!
//! A token is signed with one secret that is handed in as a `Keys` value. The
//! clock is read by the caller; every function here takes the current time as a
//! number of seconds since the epoch.

use vstd::prelude::*;
use crate::auth::{AuthError, Claims, ClaimsView, UserProfile, UserProfileView};
use jsonwebtoken::{decode, encode, DecodingKey, EncodingKey, Header, Validation};
use serde_json::Value;

verus! {

/// The number of seconds for which an issued token is valid: seven days.
pub const TOKEN_LIFETIME_SECONDS: u64 = 604800;

/// The signing secret of the token service.
pub struct Keys {
    secret: Vec<u8>,
}

impl View for Keys {
    type V = Seq<u8>;

    closed spec fn view(&self) -> Seq<u8> {
        self.secret@
    }
}

impl Keys {
    /// The keys that sign and verify with `secret`.
    pub fn new(secret: &[u8]) -> (keys: Keys)
        ensures
            keys@ == secret@,
    {
        Keys { secret: vstd::slice::slice_to_vec(secret) }
    }
}

/// What the claim set of a signed token holds under the four names that the
/// service reads, each as far as it is there with the right kind of value.
#[derive(Debug)]
pub struct RawClaims {
    pub id: Option<i64>,
    pub name: Option<String>,
    pub email: Option<String>,
    pub exp: Option<u64>,
}

/// Mathematical form of `RawClaims`.
pub struct RawClaimsView {
    pub id: Option<int>,
    pub name: Option<Seq<char>>,
    pub email: Option<Seq<char>>,
    pub exp: Option<int>,
}

impl View for RawClaims {
    type V = RawClaimsView;

    open spec fn view(&self) -> RawClaimsView {
        RawClaimsView {
            id: match self.id {
                Some(id) => Some(id as int),
                None => None,
            },
            name: match self.name {
                Some(name) => Some(name@),
                None => None,
            },
            email: match self.email {
                Some(email) => Some(email@),
                None => None,
            },
            exp: match self.exp {
                Some(exp) => Some(exp as int),
                None => None,
            },
        }
    }
}

/// The raw claims that hold exactly what `claims` holds.
pub open spec fn raw_of(claims: ClaimsView) -> RawClaimsView {
    RawClaimsView {
        id: Some(claims.id),
        name: Some(claims.name),
        email: Some(claims.email),
        exp: Some(claims.exp),
    }
}

/// The token that signing `claims` with `secret` gives, where signing succeeds.
pub uninterp spec fn signed_token(claims: ClaimsView, secret: Seq<u8>) -> Option<Seq<char>>;

/// The claims of `token`, where the token is well formed and carries a valid
/// signature under `secret`. Expiry plays no part in it.
pub uninterp spec fn signed_claims(token: Seq<char>, secret: Seq<u8>) -> Option<RawClaimsView>;

/// Signs `claims` with `jsonwebtoken::encode` under the default header (HS256)
/// and the key `EncodingKey::from_secret(secret)`. The claim set is a JSON object
/// with the members `id`, `name`, `email` and `exp`, in this order.
///
/// The token depends on the claims and the secret alone, so it is named
/// `signed_token(claims, secret)`. One more fact is claimed: a token that this
/// call returns is accepted by `jsonwebtoken::decode` under the same secret, and
/// decodes to the claims that were signed.
#[verifier::external_body]
fn sign_claims(claims: &Claims, secret: &[u8]) -> (token: Option<String>)
    ensures
        match token {
            Some(text) => signed_token(claims@, secret@) == Some(text@) && signed_claims(
                text@,
                secret@,
            ) == Some(raw_of(claims@)),
            None => signed_token(claims@, secret@) is None,
        },
{
    let mut members = serde_json::Map::new();
    members.insert("id".to_string(), Value::from(claims.id));
    members.insert("name".to_string(), Value::from(claims.name.as_str()));
    members.insert("email".to_string(), Value::from(claims.email.as_str()));
    members.insert("exp".to_string(), Value::from(claims.exp));
    encode(&Header::default(), &members, &EncodingKey::from_secret(secret)).ok()
}

/// Checks `token` with `jsonwebtoken::decode` under the key
/// `DecodingKey::from_secret(secret)` and the default validation (HS256, an `exp`
/// claim required) with the expiry check switched off, and picks the four
/// members that the service reads out of the decoded claim set: `id` as a signed
/// integer, `name` and `email` as strings, `exp` as an unsigned integer.
///
/// With the expiry check off the outcome depends on the token and the secret
/// alone, so it is named `signed_claims(token, secret)`.
#[verifier::external_body]
fn decode_claims(token: &str, secret: &[u8]) -> (claims: Option<RawClaims>)
    ensures
        match claims {
            Some(raw) => signed_claims(token@, secret@) == Some(raw@),
            None => signed_claims(token@, secret@) is None,
        },
{
    let mut rules = Validation::default();
    rules.validate_exp = false;
    let set = decode::<Value>(token, &DecodingKey::from_secret(secret), &rules).ok()?.claims;
    Some(
        RawClaims {
            id: set.get("id").and_then(Value::as_i64),
            name: set.get("name").and_then(Value::as_str).map(String::from),
            email: set.get("email").and_then(Value::as_str).map(String::from),
            exp: set.get("exp").and_then(Value::as_u64),
        },
    )
}

/// The instant at which a token issued at `now` expires.
pub open spec fn expiry_of(now: int) -> int {
    now + TOKEN_LIFETIME_SECONDS
}

/// The claims of a token issued to `user` at `now`.
pub open spec fn claims_for(user: UserProfileView, now: int) -> ClaimsView {
    ClaimsView { id: user.id, name: user.name, email: user.email, exp: expiry_of(now) }
}

/// The claim set that `raw` amounts to: each of the four members must be there,
/// `id` within the range of `i32` and `exp` within that of `usize`.
pub open spec fn claims_of(raw: RawClaimsView) -> Option<ClaimsView> {
    match (raw.id, raw.name, raw.email, raw.exp) {
        (Some(id), Some(name), Some(email), Some(exp)) => if i32::MIN <= id <= i32::MAX && exp
            <= usize::MAX {
            Some(ClaimsView { id, name, email, exp })
        } else {
            None
        },
        _ => None,
    }
}

/// Whether a token that expires at `exp` is still accepted at `now`: up to and
/// including the instant of expiry, and never after it.
pub open spec fn accepted_at(exp: int, now: int) -> bool {
    now <= exp
}

/// The identity that `token` proves at `now` under `secret`: the token must be
/// well formed and signed with `secret`, its claim set complete, and its expiry
/// not past.
pub open spec fn verified_claims(token: Seq<char>, secret: Seq<u8>, now: int) -> Option<
    ClaimsView,
> {
    match signed_claims(token, secret) {
        Some(raw) => match claims_of(raw) {
            Some(claims) => if accepted_at(claims.exp, now) {
                Some(claims)
            } else {
                None
            },
            None => None,
        },
        None => None,
    }
}

/// Turns the claims that a signature check handed out into the identity they
/// prove at `now`. Any member that is missing or out of range, and an expiry that
/// is past, give `InvalidToken`.
pub fn claims_from_raw(raw: RawClaims, now: u64) -> (checked: Result<Claims, AuthError>)
    ensures
        match checked {
            Ok(claims) => claims_of(raw@) == Some(claims@) && accepted_at(claims@.exp, now as int),
            Err(e) => e == AuthError::InvalidToken && !(claims_of(raw@) matches Some(claims)
                && accepted_at(claims.exp, now as int)),
        },
{
    let RawClaims { id, name, email, exp } = raw;
    let Some(id) = id else {
        return Err(AuthError::InvalidToken);
    };
    let Some(name) = name else {
        return Err(AuthError::InvalidToken);
    };
    let Some(email) = email else {
        return Err(AuthError::InvalidToken);
    };
    let Some(exp) = exp else {
        return Err(AuthError::InvalidToken);
    };
    if id < -2147483648 || id > 2147483647 || exp > usize::MAX as u64 || exp < now {
        return Err(AuthError::InvalidToken);
    }
    Ok(Claims { id: id as i32, name, email, exp: exp as usize })
}

/// Verifies `token` at the instant `now`: its signature under `keys`, the shape of
/// its claims, and its expiry. On success the identity is the one embedded in the
/// token; every failure is an `InvalidToken`.
pub fn verify_token(token: &str, now: u64, keys: &Keys) -> (verified: Result<Claims, AuthError>)
    ensures
        match verified {
            Ok(claims) => verified_claims(token@, keys@, now as int) == Some(claims@),
            Err(e) => e == AuthError::InvalidToken && verified_claims(token@, keys@, now as int)
                is None,
        },
{
    match decode_claims(token, keys.secret.as_slice()) {
        Some(raw) => claims_from_raw(raw, now),
        None => Err(AuthError::InvalidToken),
    }
}

/// The claims of a token issued to `user` at `now`, where the expiry can be written
/// down: `now` plus seven days must fit the width of `exp`.
pub fn issue_claims(user: &UserProfile, now: u64) -> (claims: Option<Claims>)
    ensures
        match claims {
            Some(c) => c@ == claims_for(user@, now as int),
            None => expiry_of(now as int) > usize::MAX || expiry_of(now as int) > u64::MAX,
        },
{
    let Some(exp) = now.checked_add(TOKEN_LIFETIME_SECONDS) else {
        return None;
    };
    if exp > usize::MAX as u64 {
        return None;
    }
    Some(
        Claims {
            id: user.id,
            name: user.name.clone(),
            email: user.email.clone(),
            exp: exp as usize,
        },
    )
}

/// Whether `token` is a token for `user` issued at `now` under `secret`: it is the
/// signed form of the user's claims with an expiry seven days after `now`, and it
/// verifies to these claims at every instant up to the expiry and at none after.
pub open spec fn is_token_for(
    token: Seq<char>,
    user: UserProfileView,
    now: int,
    secret: Seq<u8>,
) -> bool {
    &&& signed_token(claims_for(user, now), secret) == Some(token)
    &&& forall|at: int|
        #![trigger verified_claims(token, secret, at)]
        at <= expiry_of(now) ==> verified_claims(token, secret, at) == Some(claims_for(user, now))
    &&& forall|at: int|
        #![trigger verified_claims(token, secret, at)]
        at > expiry_of(now) ==> verified_claims(token, secret, at) is None
}

/// The token that is issued to `user` at `now` under `secret`: the signed form of
/// the user's claims, where the expiry can be written down and signing succeeds.
pub open spec fn issued_token(user: UserProfileView, now: int, secret: Seq<u8>) -> Option<
    Seq<char>,
> {
    if expiry_of(now) <= usize::MAX {
        signed_token(claims_for(user, now), secret)
    } else {
        None
    }
}

/// Issues a token for `user` at the instant `now`: the signed form of the user's
/// id, name and email with an expiry seven days later. `TokenCreation` is
/// returned where the expiry cannot be written down or signing fails.
pub fn create_token(user_profile: &UserProfile, now: u64, keys: &Keys) -> (issued: Result<
    String,
    AuthError,
>)
    ensures
        match issued {
            Ok(token) => issued_token(user_profile@, now as int, keys@) == Some(token@)
                && is_token_for(token@, user_profile@, now as int, keys@),
            Err(e) => e == AuthError::TokenCreation && issued_token(
                user_profile@,
                now as int,
                keys@,
            ) is None,
        },
{
    let Some(claims) = issue_claims(user_profile, now) else {
        return Err(AuthError::TokenCreation);
    };
    match sign_claims(&claims, keys.secret.as_slice()) {
        Some(token) => {
            assert(claims_of(raw_of(claims@)) == Some(claims@));
            Ok(token)
        },
        None => Err(AuthError::TokenCreation),
    }
}

/// Once the signature of a token holds, only the clock decides: the token is
/// refused at every instant after its expiry, and accepted one second before it
/// (and at every other instant up to it).
pub proof fn lemma_expiry_decides(token: Seq<char>, secret: Seq<u8>, claims: ClaimsView, now: int)
    requires
        signed_claims(token, secret) == Some(raw_of(claims)),
        i32::MIN <= claims.id <= i32::MAX,
        claims.exp <= usize::MAX,
    ensures
        now > claims.exp ==> verified_claims(token, secret, now) is None,
        now <= claims.exp ==> verified_claims(token, secret, now) == Some(claims),
        verified_claims(token, secret, claims.exp - 1) == Some(claims),
        verified_claims(token, secret, claims.exp + 1) is None,
{
    assert(claims_of(raw_of(claims)) == Some(claims));
}

/// Whether `c` may stand in the value of a header: a visible ASCII character, a
/// space or a tab.
pub open spec fn is_header_char(c: char) -> bool {
    c == '\t' || (' ' <= c && c <= '~')
}

/// Whether `c` is a blank: a space or a tab.
pub open spec fn is_blank(c: char) -> bool {
    c == ' ' || c == '\t'
}

/// Whether the value of an authorization header names the bearer scheme: it is
/// made of header characters, starts with the word `Bearer` in any mix of upper
/// and lower case, and goes on with a space.
pub open spec fn has_bearer_scheme(value: Seq<char>) -> bool {
    &&& value.len() > 6
    &&& value[0] == 'B' || value[0] == 'b'
    &&& value[1] == 'e' || value[1] == 'E'
    &&& value[2] == 'a' || value[2] == 'A'
    &&& value[3] == 'r' || value[3] == 'R'
    &&& value[4] == 'e' || value[4] == 'E'
    &&& value[5] == 'r' || value[5] == 'R'
    &&& value[6] == ' '
    &&& forall|i: int| 0 <= i < value.len() ==> is_header_char(#[trigger] value[i])
}

/// `text` without the blanks that it starts with.
pub open spec fn without_leading_blanks(text: Seq<char>) -> Seq<char>
    decreases text.len(),
{
    if text.len() > 0 && is_blank(text[0]) {
        without_leading_blanks(text.skip(1))
    } else {
        text
    }
}

/// The token that the value of an authorization header carries: what follows the
/// scheme and its space, without leading blanks.
pub open spec fn bearer_token_of(value: Seq<char>) -> Option<Seq<char>> {
    if has_bearer_scheme(value) {
        Some(without_leading_blanks(value.skip(7)))
    } else {
        None
    }
}

/// The token that the value of an authorization header carries, where the value
/// names the bearer scheme.
pub fn bearer_token(value: &str) -> (token: Option<String>)
    ensures
        match token {
            Some(text) => bearer_token_of(value@) == Some(text@),
            None => bearer_token_of(value@) is None,
        },
{
    if !value.is_ascii() {
        assert(!has_bearer_scheme(value@)) by {
            let i = choose|i: int|
                0 <= i < value@.len() && !('\0' <= #[trigger] value@[i] <= '\u{7f}');
            assert(!is_header_char(value@[i]));
        }
        return None;
    }
    let n: usize = value.unicode_len();
    if n <= 6 {
        return None;
    }
    let b0: u8 = value.get_ascii(0);
    let b1: u8 = value.get_ascii(1);
    let b2: u8 = value.get_ascii(2);
    let b3: u8 = value.get_ascii(3);
    let b4: u8 = value.get_ascii(4);
    let b5: u8 = value.get_ascii(5);
    let b6: u8 = value.get_ascii(6);
    if !((b0 == 66 || b0 == 98) && (b1 == 101 || b1 == 69) && (b2 == 97 || b2 == 65) && (b3 == 114
        || b3 == 82) && (b4 == 101 || b4 == 69) && (b5 == 114 || b5 == 82) && b6 == 32) {
        return None;
    }
    let mut i: usize = 0;
    while i < n
        invariant
            n == value@.len(),
            value.is_ascii(),
            i <= n,
            forall|j: int| 0 <= j < i ==> is_header_char(#[trigger] value@[j]),
        decreases n - i,
    {
        let b: u8 = value.get_ascii(i);
        if !(b == 9 || (32 <= b && b <= 126)) {
            assert(!is_header_char(value@[i as int]));
            return None;
        }
        i += 1;
    }
    let mut start: usize = 7;
    assert(value@.skip(7) =~= value@.subrange(7, n as int));
    while start < n && is_blank_byte(value.get_ascii(start))
        invariant
            n == value@.len(),
            value.is_ascii(),
            7 <= start <= n,
            without_leading_blanks(value@.skip(7)) == without_leading_blanks(
                value@.skip(start as int),
            ),
        decreases n - start,
    {
        assert(value@.skip(start as int).skip(1) =~= value@.skip(start + 1));
        start += 1;
    }
    assert(value@.skip(start as int) =~= value@.subrange(start as int, n as int));
    Some(value.substring_ascii(start, n).to_owned())
}

/// Whether `b` is the code of a space or a tab.
fn is_blank_byte(b: u8) -> (blank: bool)
    ensures
        blank == (b == 32 || b == 9),
{
    b == 32 || b == 9
}

/// The identity that a request proves at `now`, given the value of its
/// authorization header where it has one. A missing header, a header that does
/// not name the bearer scheme, and a token that does not verify all give
/// `InvalidToken`.
pub fn authenticate(header: Option<&str>, now: u64, keys: &Keys) -> (identity: Result<
    Claims,
    AuthError,
>)
    ensures
        match identity {
            Ok(claims) => header matches Some(value) && bearer_token_of(value@) matches Some(token)
                && verified_claims(token, keys@, now as int) == Some(claims@),
            Err(e) => e == AuthError::InvalidToken && !(header matches Some(value)
                && bearer_token_of(value@) matches Some(token) && verified_claims(
                token,
                keys@,
                now as int,
            ) is Some),
        },
{
    let Some(value) = header else {
        return Err(AuthError::InvalidToken);
    };
    let Some(token) = bearer_token(value) else {
        return Err(AuthError::InvalidToken);
    };
    verify_token(token.as_str(), now, keys)
}

} // verus!
