//! The answer that every write handler gives, and the decisions of the handlers
//! for threads, announcements, events, comments and likes.

use vstd::prelude::*;
use crate::text::{decimal, decimal_text};

verus! {

/// What a write handler answers.
#[derive(Debug)]
pub enum StatusResponse {
    /// The request was carried out.
    Success,
    /// The request was carried out; the text is the id of the row it created.
    SuccessWithData(String),
    /// The store failed. Nothing of the failure is shown to the client.
    ServerError,
    /// The request was refused, for the reason given.
    UserError(String),
}

/// Mathematical form of a `StatusResponse`.
pub enum StatusResponseView {
    Success,
    SuccessWithData(Seq<char>),
    ServerError,
    UserError(Seq<char>),
}

impl View for StatusResponse {
    type V = StatusResponseView;

    open spec fn view(&self) -> StatusResponseView {
        match self {
            StatusResponse::Success => StatusResponseView::Success,
            StatusResponse::SuccessWithData(data) => StatusResponseView::SuccessWithData(data@),
            StatusResponse::ServerError => StatusResponseView::ServerError,
            StatusResponse::UserError(reason) => StatusResponseView::UserError(reason@),
        }
    }
}

/// The error text of a failure of the store.
pub const SERVER_ERROR_TEXT: &'static str = "Server Error";

impl StatusResponse {
    /// The HTTP status of the answer.
    pub open spec fn spec_status_code(&self) -> u16 {
        match self {
            StatusResponse::Success => 200,
            StatusResponse::SuccessWithData(_) => 200,
            StatusResponse::ServerError => 500,
            StatusResponse::UserError(_) => 400,
        }
    }

    /// The value under the key `success` of the answer's body.
    pub open spec fn spec_succeeded(&self) -> bool {
        self is Success || self is SuccessWithData
    }

    /// The HTTP status of the answer: 200 for a success, 500 for a failure of the
    /// store, 400 for a refusal.
    #[verifier::when_used_as_spec(spec_status_code)]
    pub fn status_code(&self) -> (code: u16)
        ensures
            code == self.spec_status_code(),
    {
        match self {
            StatusResponse::Success => 200,
            StatusResponse::SuccessWithData(_) => 200,
            StatusResponse::ServerError => 500,
            StatusResponse::UserError(_) => 400,
        }
    }

    /// The value under the key `success` of the answer's body.
    #[verifier::when_used_as_spec(spec_succeeded)]
    pub fn succeeded(&self) -> (flag: bool)
        ensures
            flag == self.spec_succeeded(),
    {
        match self {
            StatusResponse::Success => true,
            StatusResponse::SuccessWithData(_) => true,
            StatusResponse::ServerError => false,
            StatusResponse::UserError(_) => false,
        }
    }

    /// The text under the key `error` of the answer's body: a fixed text for a
    /// failure of the store, the reason for a refusal, none for a success.
    pub fn error(&self) -> (text: Option<String>)
        ensures
            match self@ {
                StatusResponseView::ServerError => text matches Some(t) && t@
                    == SERVER_ERROR_TEXT@,
                StatusResponseView::UserError(reason) => text matches Some(t) && t@ == reason,
                _ => text is None,
            },
    {
        match self {
            StatusResponse::ServerError => Some(SERVER_ERROR_TEXT.to_owned()),
            StatusResponse::UserError(reason) => Some(reason.clone()),
            _ => None,
        }
    }

    /// The text under the key `data` of the answer's body.
    pub fn data(&self) -> (text: Option<String>)
        ensures
            match self@ {
                StatusResponseView::SuccessWithData(data) => text matches Some(t) && t@ == data,
                _ => text is None,
            },
    {
        match self {
            StatusResponse::SuccessWithData(data) => Some(data.clone()),
            _ => None,
        }
    }

    /// The refusal with the reason `reason`.
    pub fn refusal(reason: &str) -> (answer: StatusResponse)
        ensures
            answer@ == StatusResponseView::UserError(reason@),
    {
        StatusResponse::UserError(reason.to_owned())
    }

    /// The answer to a request whose last statement the store did or did not
    /// carry out.
    pub fn of_statement(done: bool) -> (answer: StatusResponse)
        ensures
            answer@ == (if done {
                StatusResponseView::Success
            } else {
                StatusResponseView::ServerError
            }),
    {
        if done {
            StatusResponse::Success
        } else {
            StatusResponse::ServerError
        }
    }
}

/// The kinds of content that members with a sufficient privilege may create in a
/// club.
#[derive(Clone, Copy, Debug, PartialEq, Eq, Structural)]
pub enum ContentKind {
    Thread,
    Announcement,
    Event,
}

/// The privilege level that a member must exceed to create content in a club.
pub const WRITE_THRESHOLD: i32 = 1;

/// Whether a member of privilege level `level` passes a gate that asks for more
/// than `min_level`. The comparison is strict.
pub open spec fn exceeds(level: i32, min_level: i32) -> bool {
    level > min_level
}

/// What the authorization gate decides.
#[derive(Clone, Copy, Debug, PartialEq, Eq, Structural)]
pub enum Gate {
    /// The member's level exceeds the minimum.
    Allow,
    /// The member's level does not exceed the minimum.
    Deny,
    /// No membership was found for the user in the club.
    LookupFailed,
}

/// The decision on a user whose membership lookup gave `level`, where more than
/// `min_level` is asked for.
pub open spec fn gate_of(level: Option<i32>, min_level: i32) -> Gate {
    match level {
        None => Gate::LookupFailed,
        Some(l) => if exceeds(l, min_level) {
            Gate::Allow
        } else {
            Gate::Deny
        },
    }
}

/// Decides whether a user may act in a club, given the privilege level of the
/// user's membership there, where one was found. The level must exceed
/// `min_level`; a missing membership is reported as a failed lookup, not as a
/// denial.
pub fn require_privilege(level: Option<i32>, min_level: i32) -> (gate: Gate)
    ensures
        gate == gate_of(level, min_level),
{
    match level {
        None => Gate::LookupFailed,
        Some(l) => if l > min_level {
            Gate::Allow
        } else {
            Gate::Deny
        },
    }
}

/// Why a member may not create content of the kind `kind`.
pub open spec fn denial_text(kind: ContentKind) -> Seq<char> {
    match kind {
        ContentKind::Thread => "You are not allowed to create threads in this club"@,
        ContentKind::Announcement => "You are not allowed to create announcements in this club"@,
        ContentKind::Event => "You are not allowed to create events in this club"@,
    }
}

/// Why a member may not create content of the kind `kind`.
pub fn denial_reason(kind: ContentKind) -> (text: &'static str)
    ensures
        text@ == denial_text(kind),
{
    match kind {
        ContentKind::Thread => "You are not allowed to create threads in this club",
        ContentKind::Announcement => "You are not allowed to create announcements in this club",
        ContentKind::Event => "You are not allowed to create events in this club",
    }
}

/// The answer that ends a request to create content before anything is written,
/// where the author's membership lookup gave `level`; nothing where the request
/// may go on. Levels 0 and 1 are refused, a missing membership is a failure of
/// the lookup.
pub open spec fn write_refusal(kind: ContentKind, level: Option<i32>) -> Option<
    StatusResponseView,
> {
    match gate_of(level, WRITE_THRESHOLD) {
        Gate::Allow => None,
        Gate::Deny => Some(StatusResponseView::UserError(denial_text(kind))),
        Gate::LookupFailed => Some(StatusResponseView::ServerError),
    }
}

/// Gates a request to create content of the kind `kind` by the privilege level
/// of the author's membership in the club.
pub fn gate_write(kind: ContentKind, level: Option<i32>) -> (gated: Result<(), StatusResponse>)
    ensures
        match gated {
            Ok(_) => write_refusal(kind, level) is None,
            Err(answer) => write_refusal(kind, level) == Some(answer@),
        },
{
    match require_privilege(level, WRITE_THRESHOLD) {
        Gate::Allow => Ok(()),
        Gate::Deny => Err(StatusResponse::refusal(denial_reason(kind))),
        Gate::LookupFailed => Err(StatusResponse::ServerError),
    }
}

/// The answer to a request that created content of the kind `kind`, given the id
/// of the new row where the store inserted one. A new thread is acknowledged; a
/// new announcement or event is acknowledged with its id in decimal.
pub fn created_reply(kind: ContentKind, inserted: Option<i32>) -> (answer: StatusResponse)
    ensures
        match inserted {
            None => answer@ == StatusResponseView::ServerError,
            Some(id) => match kind {
                ContentKind::Thread => answer@ == StatusResponseView::Success,
                _ => answer@ == StatusResponseView::SuccessWithData(decimal_text(id as int)),
            },
        },
{
    match inserted {
        None => StatusResponse::ServerError,
        Some(id) => match kind {
            ContentKind::Thread => StatusResponse::Success,
            _ => StatusResponse::SuccessWithData(decimal(id)),
        },
    }
}

/// Reason given to a user who likes a thread a second time.
pub const THREAD_ALREADY_LIKED: &'static str = "You already liked this thread";

/// Reason given to a user who likes a comment a second time.
pub const COMMENT_ALREADY_LIKED: &'static str = "You already liked this comment";

/// What can be liked.
#[derive(Clone, Copy, Debug, PartialEq, Eq, Structural)]
pub enum Likeable {
    Thread,
    Comment,
}

/// What the store answered to the insert of a like.
#[derive(Clone, Copy, Debug, PartialEq, Eq, Structural)]
pub enum LikeInsert {
    /// The like was recorded.
    Recorded,
    /// The user has liked this before.
    UniqueViolation,
    /// The store failed otherwise.
    Failed,
}

/// Reason given to a user who likes something of the kind `what` a second time.
pub open spec fn already_liked_text(what: Likeable) -> Seq<char> {
    match what {
        Likeable::Thread => THREAD_ALREADY_LIKED@,
        Likeable::Comment => COMMENT_ALREADY_LIKED@,
    }
}

/// The answer that ends a like once the store answered the insert of the like;
/// nothing where the like was recorded and the counter is to be raised.
pub fn after_like_insert(what: Likeable, inserted: LikeInsert) -> (ended: Option<StatusResponse>)
    ensures
        match inserted {
            LikeInsert::Recorded => ended is None,
            LikeInsert::UniqueViolation => ended matches Some(answer) && answer@
                == StatusResponseView::UserError(already_liked_text(what)),
            LikeInsert::Failed => ended matches Some(answer) && answer@
                == StatusResponseView::ServerError,
        },
{
    match inserted {
        LikeInsert::Recorded => None,
        LikeInsert::UniqueViolation => Some(
            StatusResponse::refusal(
                match what {
                    Likeable::Thread => THREAD_ALREADY_LIKED,
                    Likeable::Comment => COMMENT_ALREADY_LIKED,
                },
            ),
        ),
        LikeInsert::Failed => Some(StatusResponse::ServerError),
    }
}

} // verus!
