//! The data of the authentication layer: identity claims, the errors that a client
//! can be shown, and the verification mail.

use vstd::prelude::*;

verus! {

/// Why an authentication request was refused.
#[derive(Clone, Copy, Debug, PartialEq, Eq, Structural)]
pub enum AuthError {
    WrongCredentials,
    MissingCredentials,
    TokenCreation,
    InvalidToken,
    UserAlreadyExists,
    UserAlreadyVerified,
    InternalServerError,
    UserNotActive,
}

impl AuthError {
    /// The HTTP status under which the error is reported.
    pub open spec fn spec_status_code(self) -> u16 {
        match self {
            AuthError::WrongCredentials => 401,
            AuthError::TokenCreation => 500,
            AuthError::InternalServerError => 500,
            AuthError::MissingCredentials => 400,
            AuthError::UserAlreadyExists => 400,
            AuthError::UserAlreadyVerified => 400,
            AuthError::InvalidToken => 400,
            AuthError::UserNotActive => 400,
        }
    }

    /// The text under the key `error` of the response body.
    pub open spec fn spec_message(self) -> Seq<char> {
        match self {
            AuthError::WrongCredentials => "Wrong credentials"@,
            AuthError::MissingCredentials => "Missing credentials"@,
            AuthError::TokenCreation => "Token creation error"@,
            AuthError::InternalServerError => "Interal Server error"@,
            AuthError::UserAlreadyExists => "User Already exists"@,
            AuthError::UserAlreadyVerified => "User Already Verified"@,
            AuthError::InvalidToken => "Invalid token"@,
            AuthError::UserNotActive => "User not Active"@,
        }
    }

    /// The HTTP status under which the error is reported: 401 for wrong
    /// credentials, 500 for the two server-side failures, 400 for the rest.
    #[verifier::when_used_as_spec(spec_status_code)]
    pub fn status_code(self) -> (code: u16)
        ensures
            code == self.spec_status_code(),
    {
        match self {
            AuthError::WrongCredentials => 401,
            AuthError::TokenCreation => 500,
            AuthError::InternalServerError => 500,
            AuthError::MissingCredentials => 400,
            AuthError::UserAlreadyExists => 400,
            AuthError::UserAlreadyVerified => 400,
            AuthError::InvalidToken => 400,
            AuthError::UserNotActive => 400,
        }
    }

    /// The text under the key `error` of the response body. It never says more
    /// than the kind of the error.
    pub fn message(self) -> (text: &'static str)
        ensures
            text@ == self.spec_message(),
    {
        match self {
            AuthError::WrongCredentials => "Wrong credentials",
            AuthError::MissingCredentials => "Missing credentials",
            AuthError::TokenCreation => "Token creation error",
            AuthError::InternalServerError => "Interal Server error",
            AuthError::UserAlreadyExists => "User Already exists",
            AuthError::UserAlreadyVerified => "User Already Verified",
            AuthError::InvalidToken => "Invalid token",
            AuthError::UserNotActive => "User not Active",
        }
    }
}

/// The claim set of a token: an identity and the instant, in seconds since the
/// epoch, at which the token expires.
#[derive(Debug)]
pub struct Claims {
    pub id: i32,
    pub name: String,
    pub email: String,
    pub exp: usize,
}

/// Mathematical form of `Claims`.
pub struct ClaimsView {
    pub id: int,
    pub name: Seq<char>,
    pub email: Seq<char>,
    pub exp: int,
}

impl View for Claims {
    type V = ClaimsView;

    open spec fn view(&self) -> ClaimsView {
        ClaimsView { id: self.id as int, name: self.name@, email: self.email@, exp: self.exp as int }
    }
}

/// The identity that a token stands for.
#[derive(Debug)]
pub struct Profile {
    pub id: i32,
    pub name: String,
    pub email: String,
}

/// Mathematical form of a `Profile`.
pub struct ProfileView {
    pub id: int,
    pub name: Seq<char>,
    pub email: Seq<char>,
}

impl View for Profile {
    type V = ProfileView;

    open spec fn view(&self) -> ProfileView {
        ProfileView { id: self.id as int, name: self.name@, email: self.email@ }
    }
}

/// The identity in `claims`, as the claims hold it; the account is not read again.
pub fn whoami(claims: Claims) -> (profile: Profile)
    ensures
        profile@ == (ProfileView { id: claims@.id, name: claims@.name, email: claims@.email }),
{
    Profile { id: claims.id, name: claims.name, email: claims.email }
}

/// One account as the credential store holds it.
#[derive(Debug)]
pub struct UserProfile {
    pub id: i32,
    pub name: String,
    pub email: String,
    pub active: bool,
    pub password_hash: String,
}

/// Mathematical form of a `UserProfile`.
pub struct UserProfileView {
    pub id: int,
    pub name: Seq<char>,
    pub email: Seq<char>,
    pub active: bool,
    pub password_hash: Seq<char>,
}

impl View for UserProfile {
    type V = UserProfileView;

    open spec fn view(&self) -> UserProfileView {
        UserProfileView {
            id: self.id as int,
            name: self.name@,
            email: self.email@,
            active: self.active,
            password_hash: self.password_hash@,
        }
    }
}

impl UserProfile {
    /// A copy of the account.
    pub fn duplicate(&self) -> (copy: UserProfile)
        ensures
            copy@ == self@,
    {
        UserProfile {
            id: self.id,
            name: self.name.clone(),
            email: self.email.clone(),
            active: self.active,
            password_hash: self.password_hash.clone(),
        }
    }
}

/// Token type of every access token.
pub const TOKEN_TYPE: &'static str = "Bearer";

/// What a client receives once it is authenticated.
#[derive(Debug)]
pub struct AuthBody {
    pub access_token: String,
    pub token_type: String,
}

impl AuthBody {
    /// The response body that carries `access_token` as a bearer token.
    pub fn new(access_token: String) -> (body: AuthBody)
        ensures
            body.access_token == access_token,
            body.token_type@ == TOKEN_TYPE@,
    {
        AuthBody { access_token, token_type: TOKEN_TYPE.to_owned() }
    }
}

/// A response that carries a message only.
#[derive(Debug)]
pub struct ResponseBody {
    pub message: String,
}

/// The body of a login request.
#[derive(Debug)]
pub struct AuthPayload {
    pub email: String,
    pub password: String,
}

/// The body of a request for a new verification mail.
#[derive(Debug)]
pub struct VerificationRequestPayload {
    pub email: String,
}

/// The body of a registration request.
#[derive(Debug)]
pub struct RegisterAuthPayload {
    pub name: String,
    pub email: String,
    pub password: String,
}

/// The verification mail up to the token in its link.
pub const VERIFICATION_HTML_HEAD: &'static str = r#"<!DOCTYPE html>
<html>
  <head>
    <meta charset="UTF-8" />
    <title>Email</title>
  </head>
  <body style="font-family: Arial, sans-serif; background-color: #f4f4f4; padding: 20px;">
    <table width="100%" cellpadding="0" cellspacing="0">
      <tr>
        <td align="center">
          <table width="600" cellpadding="0" cellspacing="0" style="background-color: #ffffff; padding: 40px; border-radius: 8px;">
            <tr>
              <td align="center" style="font-size: 24px; font-weight: bold; color: #333333;">
                Hello,<br/>
                Please verify your email to activate your account for the <a href="http://0.0.0.0:3000/">SAC-website</a>
              </td>
            </tr>
            <tr>
              <td align="center" style="padding: 20px 0; color: #555555;">
                Click the button below to verify your email address:
              </td>
            </tr>
            <tr>
              <td align="center">
                <a href="http://127.0.0.1:5000/auth/verify/"#;

/// The verification mail from the token in its link on.
pub const VERIFICATION_HTML_TAIL: &'static str = r#""
                   style="background-color: #4CAF50; color: white; padding: 14px 28px;
                          text-decoration: none; font-size: 16px; border-radius: 5px; display: inline-block;">
                  Verify Email
                </a>
              </td>
            </tr>
            <tr>
              <td align="center" style="padding-top: 20px; font-size: 12px; color: #888888;">
                If you did not request this, please ignore this email.
              </td>
            </tr>
          </table>
        </td>
      </tr>
    </table>
  </body>
</html>
"#;

/// The HTML document of the verification mail for `token`: a fixed page whose one
/// link ends in the token.
pub open spec fn verification_html(token: Seq<char>) -> Seq<char> {
    VERIFICATION_HTML_HEAD@ + token + VERIFICATION_HTML_TAIL@
}

/// The HTML document of the verification mail for `token`.
pub fn get_html(token: &str) -> (html: String)
    ensures
        html@ == verification_html(token@),
{
    let mut html = VERIFICATION_HTML_HEAD.to_owned();
    html.append(token);
    html.append(VERIFICATION_HTML_TAIL);
    html
}

} // verus!
