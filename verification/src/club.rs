//! Clubs, memberships and join applications: the data, and the decisions of the
//! club handlers as functions of what the store answered.

use vstd::prelude::*;
use crate::text::{contains_email, texts};
use crate::thread_comment::{StatusResponse, StatusResponseView};

verus! {

/// Reason given to a user who acts for a club without being one of its heads.
pub const NOT_A_CLUB_HEAD: &'static str = "You are not a club head";

/// Reason given to a member who applies to join the club again.
pub const ALREADY_A_MEMBER: &'static str = "You are already a member of this club";

/// Reason given when a club is created under a council that does not exist.
pub const COUNCIL_NOT_FOUND: &'static str = "Council not found";

/// Reason given when a club is created with head emails that are not all known.
pub const HEAD_EMAILS_INVALID: &'static str = "Club Heads email is not valid";

/// Reason given when a list of emails in an update is not all known.
pub const EMAILS_INVALID: &'static str = "One or more emails are not valid";

/// Reason given when deputy secretaries are named that are not all known.
pub const DEPUTY_EMAILS_INVALID: &'static str = "Deputy Seceretaries email is not valid";

/// Reason given to a user who creates a club or a council without being an admin.
pub const NOT_AN_ADMIN: &'static str = "You are not an admin";

/// Reason given when a head of a new club has no account, up to the email.
pub const HEAD_NOT_FOUND_PREFIX: &'static str = "Failed to find user with email ";

/// Privilege level of a club head.
pub const HEAD_PRIVILEGE: i32 = 2;

/// Privilege level of a member whose application was accepted.
pub const MEMBER_PRIVILEGE: i32 = 0;

/// The role label of a membership.
#[derive(Clone, Copy, Debug, PartialEq, Eq, Structural)]
pub enum Role {
    Head,
    Member,
}

impl Role {
    /// The label under which the role is stored.
    pub fn label(self) -> (text: &'static str)
        ensures
            text@ == (match self {
                Role::Head => "head"@,
                Role::Member => "member"@,
            }),
    {
        match self {
            Role::Head => "head",
            Role::Member => "member",
        }
    }
}

/// One membership: the user belongs to the club with a role and a privilege
/// level.
#[derive(Clone, Copy, Debug, PartialEq, Eq, Structural)]
pub struct Membership {
    pub user_id: i32,
    pub club_id: i32,
    pub role: Role,
    pub privilege_level: i32,
}

/// The membership of a head of the club `club_id`.
pub open spec fn head_membership(user_id: i32, club_id: i32) -> Membership {
    Membership { user_id, club_id, role: Role::Head, privilege_level: HEAD_PRIVILEGE }
}

/// The membership of a user whose application to `club_id` was accepted.
pub open spec fn member_membership(user_id: i32, club_id: i32) -> Membership {
    Membership { user_id, club_id, role: Role::Member, privilege_level: MEMBER_PRIVILEGE }
}

/// The answer that ends a request made in the name of a club, where the lookup of
/// the club's head emails gave `head_emails`; nothing where the user is a head of
/// the club.
pub open spec fn head_refusal(head_emails: Option<Seq<Seq<char>>>, user_email: Seq<char>) -> Option<
    StatusResponseView,
> {
    match head_emails {
        None => Some(StatusResponseView::ServerError),
        Some(emails) => if emails.contains(user_email) {
            None
        } else {
            Some(StatusResponseView::UserError(NOT_A_CLUB_HEAD@))
        },
    }
}

/// Lets a request made in the name of a club pass only for one of the club's
/// heads. A club that was not found is a failure of the lookup.
pub fn require_club_head(head_emails: Option<&Vec<String>>, user_email: &str) -> (gated: Result<
    (),
    StatusResponse,
>)
    ensures
        match gated {
            Ok(_) => head_refusal(option_texts(head_emails), user_email@) is None,
            Err(answer) => head_refusal(option_texts(head_emails), user_email@) == Some(answer@),
        },
{
    match head_emails {
        None => Err(StatusResponse::ServerError),
        Some(emails) => if contains_email(emails, user_email) {
            Ok(())
        } else {
            Err(StatusResponse::refusal(NOT_A_CLUB_HEAD))
        },
    }
}

/// The characters of each string of a list that may be absent.
pub open spec fn option_texts(list: Option<&Vec<String>>) -> Option<Seq<Seq<char>>> {
    match list {
        Some(l) => Some(texts(l@)),
        None => None,
    }
}

/// Whether every email of a list of `listed` emails is known, given the number
/// `known` of accounts whose email is in the list. As no two accounts share an
/// email, the numbers agree only where each listed email names an account of its
/// own.
pub fn emails_all_known(known: i64, listed: usize) -> (all: bool)
    ensures
        all == (known == listed),
{
    known >= 0 && known as u64 == listed as u64
}

/// The answer that ends a request to join a club, where the count of the user's
/// memberships in the club gave `memberships`; nothing where the application may
/// be written.
pub fn join_gate(memberships: Option<i64>) -> (gated: Result<(), StatusResponse>)
    ensures
        match memberships {
            None => gated matches Err(answer) && answer@ == StatusResponseView::ServerError,
            Some(count) => if count > 0 {
                gated matches Err(answer) && answer@ == StatusResponseView::UserError(
                    ALREADY_A_MEMBER@,
                )
            } else {
                gated is Ok
            },
        },
{
    match memberships {
        None => Err(StatusResponse::ServerError),
        Some(count) => if count > 0 {
            Err(StatusResponse::refusal(ALREADY_A_MEMBER))
        } else {
            Ok(())
        },
    }
}

/// How a unit of work on the store ends.
#[derive(Clone, Copy, Debug, PartialEq, Eq, Structural)]
pub enum UnitEnd {
    /// Everything that the unit wrote is kept.
    Commit,
    /// Nothing that the unit wrote is kept.
    Rollback,
}

/// How the acceptance of an application ends, given the applicant's id where the
/// application was marked as accepted, and whether the membership was then
/// inserted. The two writes stand or fall together: the unit is committed only
/// where both were carried out.
pub fn end_acceptance(applicant: Option<i32>, membership_inserted: bool) -> (end: (
    UnitEnd,
    StatusResponse,
))
    ensures
        end.0 == (if applicant is Some && membership_inserted {
            UnitEnd::Commit
        } else {
            UnitEnd::Rollback
        }),
        end.1@ == (if applicant is Some && membership_inserted {
            StatusResponseView::Success
        } else {
            StatusResponseView::ServerError
        }),
{
    if applicant.is_some() && membership_inserted {
        (UnitEnd::Commit, StatusResponse::Success)
    } else {
        (UnitEnd::Rollback, StatusResponse::ServerError)
    }
}

/// The answer that ends the creation of a club before anything is written;
/// nothing where it may go on. The checks come in this order: the user must be an
/// admin, the council must exist, the head emails must all be known. A lookup that
/// failed is a failure of the store.
pub open spec fn club_creation_refusal(
    is_admin: Option<bool>,
    council_id: Option<Option<i32>>,
    heads_known: Option<bool>,
) -> Option<StatusResponseView> {
    match is_admin {
        None => Some(StatusResponseView::ServerError),
        Some(false) => Some(StatusResponseView::UserError(NOT_AN_ADMIN@)),
        Some(true) => match council_id {
            None => Some(StatusResponseView::ServerError),
            Some(None) => Some(StatusResponseView::UserError(COUNCIL_NOT_FOUND@)),
            Some(Some(_)) => match heads_known {
                None => Some(StatusResponseView::ServerError),
                Some(false) => Some(StatusResponseView::UserError(HEAD_EMAILS_INVALID@)),
                Some(true) => None,
            },
        },
    }
}

/// Gates the creation of a club by the outcomes of its three lookups: whether the
/// user is an admin, the id of the council of the given name, and whether the head
/// emails are all known. Each is `None` where the lookup itself failed. The id of
/// the council is handed on where the creation may go on.
pub fn club_creation_gate(
    is_admin: Option<bool>,
    council_id: Option<Option<i32>>,
    heads_known: Option<bool>,
) -> (gated: Result<i32, StatusResponse>)
    ensures
        match gated {
            Ok(id) => club_creation_refusal(is_admin, council_id, heads_known) is None
                && council_id == Some(Some(id)),
            Err(answer) => club_creation_refusal(is_admin, council_id, heads_known) == Some(
                answer@,
            ),
        },
{
    match is_admin {
        None => Err(StatusResponse::ServerError),
        Some(false) => Err(StatusResponse::refusal(NOT_AN_ADMIN)),
        Some(true) => match council_id {
            None => Err(StatusResponse::ServerError),
            Some(None) => Err(StatusResponse::refusal(COUNCIL_NOT_FOUND)),
            Some(Some(id)) => match heads_known {
                None => Err(StatusResponse::ServerError),
                Some(false) => Err(StatusResponse::refusal(HEAD_EMAILS_INVALID)),
                Some(true) => Ok(id),
            },
        },
    }
}

/// Reason given when the head `email` of a new club has no account.
pub open spec fn head_not_found_text(email: Seq<char>) -> Seq<char> {
    HEAD_NOT_FOUND_PREFIX@ + email
}

/// Reason given when the head `email` of a new club has no account.
pub fn head_not_found(email: &str) -> (answer: StatusResponse)
    ensures
        answer@ == StatusResponseView::UserError(head_not_found_text(email@)),
{
    let mut reason = HEAD_NOT_FOUND_PREFIX.to_owned();
    reason.append(email);
    StatusResponse::UserError(reason)
}

/// The answer that ends an update which names a list of emails, given whether the
/// emails are all known (`None` where the lookup failed); nothing where the
/// update may be written.
pub fn emails_gate(all_known: Option<bool>) -> (gated: Result<(), StatusResponse>)
    ensures
        match all_known {
            None => gated matches Err(answer) && answer@ == StatusResponseView::ServerError,
            Some(false) => gated matches Err(answer) && answer@ == StatusResponseView::UserError(
                EMAILS_INVALID@,
            ),
            Some(true) => gated is Ok,
        },
{
    match all_known {
        None => Err(StatusResponse::ServerError),
        Some(false) => Err(StatusResponse::refusal(EMAILS_INVALID)),
        Some(true) => Ok(()),
    }
}

/// One head of a club as the full view of the club shows it.
#[derive(Debug)]
pub struct ClubHead {
    pub name: String,
    pub email: String,
    pub contact_number: String,
}

/// Mathematical form of a `ClubHead`.
pub struct ClubHeadView {
    pub name: Seq<char>,
    pub email: Seq<char>,
    pub contact_number: Seq<char>,
}

impl View for ClubHead {
    type V = ClubHeadView;

    open spec fn view(&self) -> ClubHeadView {
        ClubHeadView { name: self.name@, email: self.email@, contact_number: self.contact_number@ }
    }
}

/// The minimum of two lengths.
pub open spec fn shorter(a: int, b: int) -> int {
    if a <= b {
        a
    } else {
        b
    }
}

/// The heads of a club, given the accounts (name and email) that were found for
/// its head emails, in the order of the emails, and the club's phone numbers. The
/// n-th head has the n-th phone number; what is left over of the longer list is
/// dropped.
pub fn club_heads(accounts: &Vec<(String, String)>, phones: &Vec<String>) -> (heads: Vec<ClubHead>)
    ensures
        heads@.len() == shorter(accounts@.len() as int, phones@.len() as int),
        forall|i: int|
            0 <= i < heads@.len() ==> (#[trigger] heads@[i])@ == (ClubHeadView {
                name: accounts@[i].0@,
                email: accounts@[i].1@,
                contact_number: phones@[i]@,
            }),
{
    let mut heads: Vec<ClubHead> = Vec::new();
    let mut i: usize = 0;
    while i < accounts.len() && i < phones.len()
        invariant
            i <= accounts@.len(),
            i <= phones@.len(),
            heads@.len() == i,
            forall|j: int|
                0 <= j < i ==> (#[trigger] heads@[j])@ == (ClubHeadView {
                    name: accounts@[j].0@,
                    email: accounts@[j].1@,
                    contact_number: phones@[j]@,
                }),
        decreases accounts@.len() - i,
    {
        heads.push(
            ClubHead {
                name: accounts[i].0.clone(),
                email: accounts[i].1.clone(),
                contact_number: phones[i].clone(),
            },
        );
        i += 1;
    }
    heads
}

/// What a list that only admins may read shows to a user: every row to an admin,
/// none to anyone else.
pub fn for_admins<T>(is_admin: bool, rows: Vec<T>) -> (shown: Vec<T>)
    ensures
        shown@ == (if is_admin {
            rows@
        } else {
            Seq::<T>::empty()
        }),
{
    if is_admin {
        rows
    } else {
        Vec::new()
    }
}

} // verus!
