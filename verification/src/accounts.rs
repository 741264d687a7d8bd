//! The rules of accounts: registration, login, and activation by a verification
//! link.
//!
//! The first half holds the decisions, each a function of what the credential
//! store and the mail transport answered. The second half runs the same decisions
//! on a credential store that is held in memory.

use vstd::prelude::*;
use crate::auth::{
    get_html, verification_html, AuthBody, AuthError, AuthPayload, RegisterAuthPayload,
    ResponseBody, UserProfile, UserProfileView, VerificationRequestPayload, TOKEN_TYPE,
};
use crate::password::{bcrypt_hash, bcrypt_verify, password_verdict};
use crate::token::{create_token, is_token_for, issued_token, Keys};

verus! {

/// Subject of the verification mail.
pub const VERIFICATION_SUBJECT: &'static str = "Login to SAC";

/// What a client is told after a registration.
pub const REGISTERED_MESSAGE: &'static str =
    "Registered Successfully. Please verify the account to login.";

/// What a client is told after a new verification mail, up to the address.
pub const VERIFICATION_SENT_PREFIX: &'static str = "Verification Link sent Successfully to ";

/// Where a client is sent after its account was activated, up to the new token.
pub const VERIFIED_LOCATION_PREFIX: &'static str = "http://0.0.0.0/3000/verified/";

/// A mail with a verification link.
#[derive(Debug)]
pub struct VerificationMail {
    pub to: String,
    pub subject: String,
    pub html: String,
}

/// Mathematical form of a `VerificationMail`.
pub struct VerificationMailView {
    pub to: Seq<char>,
    pub subject: Seq<char>,
    pub html: Seq<char>,
}

impl View for VerificationMail {
    type V = VerificationMailView;

    open spec fn view(&self) -> VerificationMailView {
        VerificationMailView { to: self.to@, subject: self.subject@, html: self.html@ }
    }
}

/// The verification mail that carries `token` to `user`.
pub open spec fn mail_for(user: UserProfileView, token: Seq<char>) -> VerificationMailView {
    VerificationMailView {
        to: user.email,
        subject: VERIFICATION_SUBJECT@,
        html: verification_html(token),
    }
}

/// Issues a token for `user` and wraps it in a verification mail to the user's
/// address.
pub fn verification_mail(user: &UserProfile, now: u64, keys: &Keys) -> (mail: Result<
    VerificationMail,
    AuthError,
>)
    ensures
        match mail {
            Ok(m) => issued_token(user@, now as int, keys@) matches Some(token) && m@ == mail_for(
                user@,
                token,
            ),
            Err(e) => e == AuthError::TokenCreation && issued_token(user@, now as int, keys@)
                is None,
        },
{
    match create_token(user, now, keys) {
        Ok(token) => Ok(
            VerificationMail {
                to: user.email.clone(),
                subject: VERIFICATION_SUBJECT.to_owned(),
                html: get_html(token.as_str()),
            },
        ),
        Err(e) => Err(e),
    }
}

/// What the transport's answer to a verification mail means for the request: a
/// mail that was not accepted fails the request.
pub fn mail_outcome(sent: bool) -> (outcome: Result<(), AuthError>)
    ensures
        outcome == (if sent {
            Ok::<(), AuthError>(())
        } else {
            Err::<(), AuthError>(AuthError::InternalServerError)
        }),
{
    if sent {
        Ok(())
    } else {
        Err(AuthError::InternalServerError)
    }
}

// ---------------------------------------------------------------------------
// Login
// ---------------------------------------------------------------------------
/// Whether a login request names both an email and a password.
pub fn check_login(payload: &AuthPayload) -> (checked: Result<(), AuthError>)
    ensures
        checked == (if payload.email@.len() == 0 || payload.password@.len() == 0 {
            Err::<(), AuthError>(AuthError::MissingCredentials)
        } else {
            Ok::<(), AuthError>(())
        }),
{
    if payload.email.as_str().is_empty() || payload.password.as_str().is_empty() {
        Err(AuthError::MissingCredentials)
    } else {
        Ok(())
    }
}

/// Why the account `found`, against whose hash the password was judged as
/// `verdict`, may not log in; nothing where it may.
pub open spec fn credentials_refusal(found: Option<UserProfileView>, verdict: Option<bool>) -> Option<
    AuthError,
> {
    match found {
        None => Some(AuthError::WrongCredentials),
        Some(user) => match verdict {
            None => Some(AuthError::InternalServerError),
            Some(false) => Some(AuthError::WrongCredentials),
            Some(true) => if user.active {
                None
            } else {
                Some(AuthError::UserNotActive)
            },
        },
    }
}

/// Judges a login once the account was looked up and the password checked. An
/// unknown email and a wrong password give the same `WrongCredentials`; a stored
/// hash that is none gives `InternalServerError`; a right password for an
/// inactive account gives `UserNotActive`.
pub fn judge_credentials(found: Option<&UserProfile>, verdict: Option<bool>) -> (judged: Result<
    (),
    AuthError,
>)
    ensures
        match credentials_refusal(
            match found {
                Some(user) => Some(user@),
                None => None,
            },
            verdict,
        ) {
            Some(e) => judged == Err::<(), AuthError>(e),
            None => judged is Ok,
        },
{
    match found {
        None => Err(AuthError::WrongCredentials),
        Some(user) => match verdict {
            None => Err(AuthError::InternalServerError),
            Some(false) => Err(AuthError::WrongCredentials),
            Some(true) => if user.active {
                Ok(())
            } else {
                Err(AuthError::UserNotActive)
            },
        },
    }
}

/// What a login with `email` and `password` comes to when the credential store
/// holds `found` under that email: the access token, or the refusal.
pub open spec fn login_outcome(
    email: Seq<char>,
    password: Seq<char>,
    found: Option<UserProfileView>,
    now: int,
    secret: Seq<u8>,
) -> Result<Seq<char>, AuthError> {
    if email.len() == 0 || password.len() == 0 {
        Err(AuthError::MissingCredentials)
    } else {
        let verdict = match found {
            Some(user) => password_verdict(password, user.password_hash),
            None => None,
        };
        match credentials_refusal(found, verdict) {
            Some(e) => Err(e),
            None => match issued_token(found->Some_0, now, secret) {
                Some(token) => Ok(token),
                None => Err(AuthError::TokenCreation),
            },
        }
    }
}

/// Logs in with `payload` against the account `found` that the credential store
/// holds under the payload's email. On success the access token is a fresh token
/// for that account.
pub fn login(payload: &AuthPayload, found: Option<&UserProfile>, now: u64, keys: &Keys) -> (reply:
    Result<AuthBody, AuthError>)
    ensures
        match reply {
            Ok(body) => {
                &&& login_outcome(
                    payload.email@,
                    payload.password@,
                    option_user(found),
                    now as int,
                    keys@,
                ) == Ok::<Seq<char>, AuthError>(body.access_token@)
                &&& body.token_type@ == TOKEN_TYPE@
                &&& found matches Some(user) && is_token_for(
                    body.access_token@,
                    user@,
                    now as int,
                    keys@,
                )
            },
            Err(e) => login_outcome(
                payload.email@,
                payload.password@,
                option_user(found),
                now as int,
                keys@,
            ) == Err::<Seq<char>, AuthError>(e),
        },
{
    check_login(payload)?;
    let verdict = match found {
        Some(user) => bcrypt_verify(payload.password.as_str(), user.password_hash.as_str()),
        None => None,
    };
    judge_credentials(found, verdict)?;
    match found {
        Some(user) => {
            let token = create_token(user, now, keys)?;
            Ok(AuthBody::new(token))
        },
        None => Err(AuthError::WrongCredentials),
    }
}

/// The mathematical form of an account that may be absent.
pub open spec fn option_user(found: Option<&UserProfile>) -> Option<UserProfileView> {
    match found {
        Some(user) => Some(user@),
        None => None,
    }
}

// ---------------------------------------------------------------------------
// Registration
// ---------------------------------------------------------------------------
/// Whether a registration with these fields names all of name, email and
/// password.
pub open spec fn registration_complete(name: Seq<char>, email: Seq<char>, password: Seq<char>) -> bool {
    name.len() > 0 && email.len() > 0 && password.len() > 0
}

/// Whether a registration request names all of name, email and password.
pub fn check_registration(payload: &RegisterAuthPayload) -> (checked: Result<(), AuthError>)
    ensures
        checked == (if registration_complete(payload.name@, payload.email@, payload.password@) {
            Ok::<(), AuthError>(())
        } else {
            Err::<(), AuthError>(AuthError::MissingCredentials)
        }),
{
    if payload.email.as_str().is_empty() || payload.password.as_str().is_empty()
        || payload.name.as_str().is_empty() {
        Err(AuthError::MissingCredentials)
    } else {
        Ok(())
    }
}

/// An account that is to be inserted: it has no id yet and starts inactive.
#[derive(Debug)]
pub struct NewUser {
    pub name: String,
    pub email: String,
    pub password_hash: String,
}

/// The account that the credential store holds once `user` was inserted under
/// `id`.
pub open spec fn inserted_user(
    id: int,
    name: Seq<char>,
    email: Seq<char>,
    password_hash: Seq<char>,
) -> UserProfileView {
    UserProfileView { id, name, email, active: false, password_hash }
}

/// The account to insert for a registration whose password was hashed as
/// `hashed`. An incomplete request gives `MissingCredentials`, a hashing that
/// failed gives `InternalServerError`.
pub fn new_user(payload: RegisterAuthPayload, hashed: Option<String>) -> (user: Result<
    NewUser,
    AuthError,
>)
    ensures
        match user {
            Ok(u) => registration_complete(payload.name@, payload.email@, payload.password@)
                && hashed == Some(u.password_hash) && u.name == payload.name && u.email
                == payload.email,
            Err(e) => e == (if !registration_complete(
                payload.name@,
                payload.email@,
                payload.password@,
            ) {
                AuthError::MissingCredentials
            } else {
                AuthError::InternalServerError
            }) && (registration_complete(payload.name@, payload.email@, payload.password@)
                ==> hashed is None),
        },
{
    check_registration(&payload)?;
    match hashed {
        Some(password_hash) => Ok(
            NewUser { name: payload.name, email: payload.email, password_hash },
        ),
        None => Err(AuthError::InternalServerError),
    }
}

/// Checks a registration request and hashes its password at the work factor
/// `cost`. The account that is returned carries a hash that the request's
/// password matches.
pub fn prepare_registration(payload: RegisterAuthPayload, cost: u32) -> (user: Result<
    NewUser,
    AuthError,
>)
    ensures
        match user {
            Ok(u) => registration_complete(payload.name@, payload.email@, payload.password@)
                && u.name == payload.name && u.email == payload.email && password_verdict(
                payload.password@,
                u.password_hash@,
            ) == Some(true),
            Err(e) => e == (if !registration_complete(
                payload.name@,
                payload.email@,
                payload.password@,
            ) {
                AuthError::MissingCredentials
            } else {
                AuthError::InternalServerError
            }),
        },
        !registration_complete(payload.name@, payload.email@, payload.password@) ==> user is Err,
{
    check_registration(&payload)?;
    let hashed = bcrypt_hash(payload.password.as_str(), cost);
    new_user(payload, hashed)
}

/// What the credential store answered to the insert of a new account.
#[derive(Debug)]
pub enum InsertOutcome {
    /// The account was inserted; this is the row that the store now holds.
    Inserted(UserProfile),
    /// The store holds an account with the same email.
    UniqueViolation,
    /// The store failed otherwise.
    Failed,
}

/// The step after the credential store was asked to insert a new account. For an
/// inserted account the verification mail is made out; an email that is taken
/// gives `UserAlreadyExists`, any other failure `InternalServerError`.
pub fn after_user_insert(outcome: InsertOutcome, now: u64, keys: &Keys) -> (mail: Result<
    VerificationMail,
    AuthError,
>)
    ensures
        match outcome {
            InsertOutcome::Inserted(user) => match mail {
                Ok(m) => issued_token(user@, now as int, keys@) matches Some(token) && m@
                    == mail_for(user@, token),
                Err(e) => e == AuthError::TokenCreation && issued_token(
                    user@,
                    now as int,
                    keys@,
                ) is None,
            },
            InsertOutcome::UniqueViolation => mail matches Err(e) && e
                == AuthError::UserAlreadyExists,
            InsertOutcome::Failed => mail matches Err(e) && e == AuthError::InternalServerError,
        },
{
    match outcome {
        InsertOutcome::Inserted(user) => verification_mail(&user, now, keys),
        InsertOutcome::UniqueViolation => Err(AuthError::UserAlreadyExists),
        InsertOutcome::Failed => Err(AuthError::InternalServerError),
    }
}

/// The reply to a registration whose mail was sent, given whether the store
/// committed the new account.
pub fn registration_reply(committed: bool) -> (reply: Result<ResponseBody, AuthError>)
    ensures
        match reply {
            Ok(body) => committed && body.message@ == REGISTERED_MESSAGE@,
            Err(e) => !committed && e == AuthError::InternalServerError,
        },
{
    if committed {
        Ok(ResponseBody { message: REGISTERED_MESSAGE.to_owned() })
    } else {
        Err(AuthError::InternalServerError)
    }
}

// ---------------------------------------------------------------------------
// A new verification mail
// ---------------------------------------------------------------------------
/// What a request for a new verification mail to `email` comes to when the
/// credential store holds `found` under that email: the mail, or the refusal.
pub open spec fn verification_request_outcome(
    email: Seq<char>,
    found: Option<UserProfileView>,
    now: int,
    secret: Seq<u8>,
) -> Result<VerificationMailView, AuthError> {
    if email.len() == 0 {
        Err(AuthError::MissingCredentials)
    } else {
        match found {
            None => Err(AuthError::WrongCredentials),
            Some(user) => if user.active {
                Err(AuthError::UserAlreadyVerified)
            } else {
                match issued_token(user, now, secret) {
                    Some(token) => Ok(mail_for(user, token)),
                    None => Err(AuthError::TokenCreation),
                }
            },
        }
    }
}

/// Whether a request for a new verification mail names an email.
pub fn check_verification_request(payload: &VerificationRequestPayload) -> (checked: Result<
    (),
    AuthError,
>)
    ensures
        checked == (if payload.email@.len() == 0 {
            Err::<(), AuthError>(AuthError::MissingCredentials)
        } else {
            Ok::<(), AuthError>(())
        }),
{
    if payload.email.as_str().is_empty() {
        Err(AuthError::MissingCredentials)
    } else {
        Ok(())
    }
}

/// Makes out a new verification mail for the account `found` that the credential
/// store holds under the payload's email. An account that is active already is
/// refused with `UserAlreadyVerified`.
pub fn request_verification(
    payload: &VerificationRequestPayload,
    found: Option<&UserProfile>,
    now: u64,
    keys: &Keys,
) -> (mail: Result<VerificationMail, AuthError>)
    ensures
        match mail {
            Ok(m) => verification_request_outcome(
                payload.email@,
                option_user(found),
                now as int,
                keys@,
            ) == Ok::<VerificationMailView, AuthError>(m@),
            Err(e) => verification_request_outcome(
                payload.email@,
                option_user(found),
                now as int,
                keys@,
            ) == Err::<VerificationMailView, AuthError>(e),
        },
{
    check_verification_request(payload)?;
    match found {
        None => Err(AuthError::WrongCredentials),
        Some(user) => {
            if user.active {
                return Err(AuthError::UserAlreadyVerified);
            }
            verification_mail(user, now, keys)
        },
    }
}

/// What a client is told once a new verification mail went to `email`.
pub open spec fn verification_sent_message(email: Seq<char>) -> Seq<char> {
    VERIFICATION_SENT_PREFIX@ + email
}

/// The reply to a request for a new verification mail to the account's address
/// `email`, given whether the transport accepted the mail.
pub fn verification_reply(email: &str, sent: bool) -> (reply: Result<ResponseBody, AuthError>)
    ensures
        match reply {
            Ok(body) => sent && body.message@ == verification_sent_message(email@),
            Err(e) => !sent && e == AuthError::InternalServerError,
        },
{
    mail_outcome(sent)?;
    let mut message = VERIFICATION_SENT_PREFIX.to_owned();
    message.append(email);
    Ok(ResponseBody { message })
}

// ---------------------------------------------------------------------------
// Activation
// ---------------------------------------------------------------------------
/// Where a client is sent once its account is active: a fixed location that ends
/// in the new token.
pub open spec fn verified_location(token: Seq<char>) -> Seq<char> {
    VERIFIED_LOCATION_PREFIX@ + token
}

/// The step after the credential store was asked to activate the account under
/// the email of a verified token. `activated` is the row as the store holds it
/// now. A fresh token is issued for that row and the client is sent on with it;
/// no row gives `InternalServerError`.
pub fn after_activation(activated: Option<&UserProfile>, now: u64, keys: &Keys) -> (location:
    Result<String, AuthError>)
    ensures
        match activated {
            None => location matches Err(e) && e == AuthError::InternalServerError,
            Some(user) => match location {
                Ok(text) => issued_token(user@, now as int, keys@) matches Some(token) && text@
                    == verified_location(token) && is_token_for(token, user@, now as int, keys@),
                Err(e) => e == AuthError::TokenCreation && issued_token(
                    user@,
                    now as int,
                    keys@,
                ) is None,
            },
        },
{
    match activated {
        None => Err(AuthError::InternalServerError),
        Some(user) => {
            let token = create_token(user, now, keys)?;
            let mut location = VERIFIED_LOCATION_PREFIX.to_owned();
            location.append(token.as_str());
            Ok(location)
        },
    }
}

} // verus!
