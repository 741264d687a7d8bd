use sac_backend::auth::{get_html, AuthBody, AuthError};
use sac_backend::thread_comment::{
    after_like_insert, created_reply, denial_reason, gate_write, require_privilege, ContentKind,
    Gate, LikeInsert, Likeable, StatusResponse, WRITE_THRESHOLD,
};

#[test]
fn auth_errors_have_their_status_and_text() {
    assert_eq!(AuthError::WrongCredentials.status_code(), 401);
    assert_eq!(AuthError::MissingCredentials.status_code(), 400);
    assert_eq!(AuthError::TokenCreation.status_code(), 500);
    assert_eq!(AuthError::InternalServerError.status_code(), 500);
    assert_eq!(AuthError::UserAlreadyExists.status_code(), 400);
    assert_eq!(AuthError::UserAlreadyVerified.status_code(), 400);
    assert_eq!(AuthError::InvalidToken.status_code(), 400);
    assert_eq!(AuthError::UserNotActive.status_code(), 400);
    assert_eq!(AuthError::WrongCredentials.message(), "Wrong credentials");
    assert_eq!(AuthError::MissingCredentials.message(), "Missing credentials");
    assert_eq!(AuthError::TokenCreation.message(), "Token creation error");
    assert_eq!(AuthError::InternalServerError.message(), "Interal Server error");
    assert_eq!(AuthError::UserAlreadyExists.message(), "User Already exists");
    assert_eq!(AuthError::UserAlreadyVerified.message(), "User Already Verified");
    assert_eq!(AuthError::InvalidToken.message(), "Invalid token");
    assert_eq!(AuthError::UserNotActive.message(), "User not Active");
}

#[test]
fn auth_body_is_a_bearer_token() {
    let body = AuthBody::new("abc".to_string());
    assert_eq!(body.access_token, "abc");
    assert_eq!(body.token_type, "Bearer");
}

#[test]
fn verification_mail_links_to_the_token() {
    let html = get_html("TOKEN123");
    assert!(html.starts_with("<!DOCTYPE html>\n<html>\n  <head>"));
    assert!(html.ends_with("</body>\n</html>\n"));
    assert!(html.contains("<a href=\"http://127.0.0.1:5000/auth/verify/TOKEN123\"\n"));
    assert_eq!(html.matches("TOKEN123").count(), 1);
    assert_eq!(html.len(), get_html("").len() + 8);
    assert!(html.contains("Verify Email"));
}

#[test]
fn status_responses_have_their_status_and_body() {
    assert_eq!(StatusResponse::Success.status_code(), 200);
    assert!(StatusResponse::Success.succeeded());
    assert_eq!(StatusResponse::Success.error(), None);
    assert_eq!(StatusResponse::Success.data(), None);
    assert_eq!(StatusResponse::ServerError.status_code(), 500);
    assert!(!StatusResponse::ServerError.succeeded());
    assert_eq!(StatusResponse::ServerError.error(), Some("Server Error".to_string()));
    let refusal = StatusResponse::UserError("no".to_string());
    assert_eq!(refusal.status_code(), 400);
    assert!(!refusal.succeeded());
    assert_eq!(refusal.error(), Some("no".to_string()));
    assert_eq!(refusal.data(), None);
    let created = StatusResponse::SuccessWithData("12".to_string());
    assert_eq!(created.status_code(), 200);
    assert!(created.succeeded());
    assert_eq!(created.error(), None);
    assert_eq!(created.data(), Some("12".to_string()));
    assert!(matches!(StatusResponse::of_statement(true), StatusResponse::Success));
    assert!(matches!(StatusResponse::of_statement(false), StatusResponse::ServerError));
    assert_eq!(StatusResponse::refusal("why").error(), Some("why".to_string()));
}

#[test]
fn privilege_must_exceed_the_minimum() {
    assert_eq!(WRITE_THRESHOLD, 1);
    assert_eq!(require_privilege(Some(0), 1), Gate::Deny);
    assert_eq!(require_privilege(Some(1), 1), Gate::Deny);
    assert_eq!(require_privilege(Some(2), 1), Gate::Allow);
    assert_eq!(require_privilege(Some(-5), 1), Gate::Deny);
    assert_eq!(require_privilege(Some(i32::MAX), 1), Gate::Allow);
    assert_eq!(require_privilege(Some(3), 3), Gate::Deny);
    assert_eq!(require_privilege(Some(4), 3), Gate::Allow);
    assert_eq!(require_privilege(None, 1), Gate::LookupFailed);
}

#[test]
fn write_gate_names_the_missing_capability() {
    assert!(gate_write(ContentKind::Thread, Some(2)).is_ok());
    assert!(gate_write(ContentKind::Event, Some(7)).is_ok());
    let thread = gate_write(ContentKind::Thread, Some(1)).unwrap_err();
    assert_eq!(thread.status_code(), 400);
    assert_eq!(
        thread.error(),
        Some("You are not allowed to create threads in this club".to_string())
    );
    let announcement = gate_write(ContentKind::Announcement, Some(0)).unwrap_err();
    assert_eq!(
        announcement.error(),
        Some("You are not allowed to create announcements in this club".to_string())
    );
    let event = gate_write(ContentKind::Event, Some(1)).unwrap_err();
    assert_eq!(
        event.error(),
        Some("You are not allowed to create events in this club".to_string())
    );
    assert_eq!(denial_reason(ContentKind::Event), "You are not allowed to create events in this club");
    let missing = gate_write(ContentKind::Thread, None).unwrap_err();
    assert_eq!(missing.status_code(), 500);
}

#[test]
fn created_rows_are_acknowledged() {
    assert!(matches!(created_reply(ContentKind::Thread, Some(4)), StatusResponse::Success));
    assert_eq!(created_reply(ContentKind::Announcement, Some(4)).data(), Some("4".to_string()));
    assert_eq!(created_reply(ContentKind::Event, Some(-17)).data(), Some("-17".to_string()));
    assert_eq!(created_reply(ContentKind::Event, Some(2147483647)).data(), Some("2147483647".to_string()));
    assert!(matches!(created_reply(ContentKind::Thread, None), StatusResponse::ServerError));
    assert!(matches!(created_reply(ContentKind::Event, None), StatusResponse::ServerError));
}

#[test]
fn second_like_is_refused() {
    assert!(after_like_insert(Likeable::Thread, LikeInsert::Recorded).is_none());
    let thread = after_like_insert(Likeable::Thread, LikeInsert::UniqueViolation).unwrap();
    assert_eq!(thread.error(), Some("You already liked this thread".to_string()));
    let comment = after_like_insert(Likeable::Comment, LikeInsert::UniqueViolation).unwrap();
    assert_eq!(comment.error(), Some("You already liked this comment".to_string()));
    let failed = after_like_insert(Likeable::Comment, LikeInsert::Failed).unwrap();
    assert!(matches!(failed, StatusResponse::ServerError));
}
