//! Clubs, councils, memberships and join applications held in memory, and the
//! club flows run against them.

use vstd::prelude::*;
use crate::auth::UserProfileView;
use crate::club::{
    club_creation_gate, club_creation_refusal, emails_all_known, end_acceptance,
    head_membership, head_not_found, head_not_found_text, head_refusal, join_gate,
    member_membership, require_club_head, Membership, Role, UnitEnd, ALREADY_A_MEMBER,
    HEAD_PRIVILEGE, MEMBER_PRIVILEGE,
};
use crate::credential_store::{by_email, known_count, users_wf, CredentialStore};
use crate::text::{same_text, texts};
use crate::thread_comment::{StatusResponse, StatusResponseView};

verus! {

/// A club.
#[derive(Debug)]
pub struct Club {
    pub id: i32,
    pub name: String,
    pub email: String,
    pub description: String,
    pub council_id: i32,
    pub club_head_emails: Vec<String>,
    pub phones: Vec<String>,
}

/// Mathematical form of a `Club`.
pub struct ClubView {
    pub id: int,
    pub name: Seq<char>,
    pub email: Seq<char>,
    pub description: Seq<char>,
    pub council_id: int,
    pub club_head_emails: Seq<Seq<char>>,
    pub phones: Seq<Seq<char>>,
}

impl View for Club {
    type V = ClubView;

    open spec fn view(&self) -> ClubView {
        ClubView {
            id: self.id as int,
            name: self.name@,
            email: self.email@,
            description: self.description@,
            council_id: self.council_id as int,
            club_head_emails: texts(self.club_head_emails@),
            phones: texts(self.phones@),
        }
    }
}

/// What a request to create a club carries.
#[derive(Debug)]
pub struct ClubFull {
    pub name: String,
    pub email: String,
    pub description: String,
    pub council_name: String,
    pub club_head_emails: Vec<String>,
    pub phones: Vec<String>,
}

/// The club that a request `data` creates under the id `id` in the council
/// `council_id`.
pub open spec fn club_of(data: ClubFull, id: int, council_id: int) -> ClubView {
    ClubView {
        id,
        name: data.name@,
        email: data.email@,
        description: data.description@,
        council_id,
        club_head_emails: texts(data.club_head_emails@),
        phones: texts(data.phones@),
    }
}

/// A council.
#[derive(Debug)]
pub struct Council {
    pub id: i32,
    pub name: String,
    pub secretary_email: String,
    pub deputy_secretaries_email: Vec<String>,
}

/// Mathematical form of a `Council`.
pub struct CouncilView {
    pub id: int,
    pub name: Seq<char>,
    pub secretary_email: Seq<char>,
    pub deputy_secretaries_email: Seq<Seq<char>>,
}

impl View for Council {
    type V = CouncilView;

    open spec fn view(&self) -> CouncilView {
        CouncilView {
            id: self.id as int,
            name: self.name@,
            secretary_email: self.secretary_email@,
            deputy_secretaries_email: texts(self.deputy_secretaries_email@),
        }
    }
}

/// An application to join a club. It is written once, accepted at most once, and
/// never removed.
#[derive(Debug)]
pub struct ClubApplication {
    pub id: i32,
    pub club_id: i32,
    pub user_id: i32,
    pub message: Option<String>,
    pub created_at: i64,
    pub accepted: bool,
    pub accepted_at: Option<i64>,
}

/// Mathematical form of a `ClubApplication`.
pub struct ClubApplicationView {
    pub id: int,
    pub club_id: i32,
    pub user_id: i32,
    pub message: Option<Seq<char>>,
    pub created_at: i64,
    pub accepted: bool,
    pub accepted_at: Option<i64>,
}

impl View for ClubApplication {
    type V = ClubApplicationView;

    open spec fn view(&self) -> ClubApplicationView {
        ClubApplicationView {
            id: self.id as int,
            club_id: self.club_id,
            user_id: self.user_id,
            message: match self.message {
                Some(text) => Some(text@),
                None => None,
            },
            created_at: self.created_at,
            accepted: self.accepted,
            accepted_at: self.accepted_at,
        }
    }
}

impl ClubApplication {
    /// A copy of the application.
    pub fn duplicate(&self) -> (copy: ClubApplication)
        ensures
            copy@ == self@,
    {
        ClubApplication {
            id: self.id,
            club_id: self.club_id,
            user_id: self.user_id,
            message: match &self.message {
                Some(text) => Some(text.clone()),
                None => None,
            },
            created_at: self.created_at,
            accepted: self.accepted,
            accepted_at: self.accepted_at,
        }
    }
}

/// The application `application` once it was accepted at `now`.
pub open spec fn accepted_at(application: ClubApplicationView, now: i64) -> ClubApplicationView {
    ClubApplicationView { accepted: true, accepted_at: Some(now), ..application }
}

/// Whether `rows` holds a membership of the user in the club.
pub open spec fn is_member(rows: Seq<Membership>, user_id: i32, club_id: i32) -> bool {
    exists|i: int|
        0 <= i < rows.len() && (#[trigger] rows[i]).user_id == user_id && rows[i].club_id == club_id
}

/// A membership of the user in the club, where `rows` holds one. Where no two
/// rows name the same user and club there is at most one.
pub open spec fn membership_of(rows: Seq<Membership>, user_id: i32, club_id: i32) -> Membership {
    rows[choose|i: int|
        0 <= i < rows.len() && (#[trigger] rows[i]).user_id == user_id && rows[i].club_id
            == club_id]
}

/// The privilege level of the user in the club, where the user is a member.
pub open spec fn level_of(rows: Seq<Membership>, user_id: i32, club_id: i32) -> Option<i32> {
    if is_member(rows, user_id, club_id) {
        Some(membership_of(rows, user_id, club_id).privilege_level)
    } else {
        None
    }
}

/// Whether no two rows name the same user and club.
pub open spec fn memberships_distinct(rows: Seq<Membership>) -> bool {
    forall|i: int, j: int|
        0 <= i < j < rows.len() ==> !((#[trigger] rows[i]).user_id == (#[trigger] rows[j]).user_id
            && rows[i].club_id == rows[j].club_id)
}

/// Where no two rows name the same user and club, the membership of a user in a
/// club is the one row that names them.
pub proof fn lemma_membership_of(rows: Seq<Membership>, i: int)
    requires
        memberships_distinct(rows),
        0 <= i < rows.len(),
    ensures
        is_member(rows, rows[i].user_id, rows[i].club_id),
        membership_of(rows, rows[i].user_id, rows[i].club_id) == rows[i],
{
    let user_id = rows[i].user_id;
    let club_id = rows[i].club_id;
    let k = choose|k: int|
        0 <= k < rows.len() && (#[trigger] rows[k]).user_id == user_id && rows[k].club_id
            == club_id;
    if k < i {
        assert(!(rows[k].user_id == rows[i].user_id && rows[k].club_id == rows[i].club_id));
    } else if i < k {
        assert(!(rows[i].user_id == rows[k].user_id && rows[i].club_id == rows[k].club_id));
    }
}

/// Adding a membership of a user who is no member of the club keeps the rows
/// distinct.
pub proof fn lemma_push_keeps_distinct(rows: Seq<Membership>, row: Membership)
    requires
        memberships_distinct(rows),
        !is_member(rows, row.user_id, row.club_id),
    ensures
        memberships_distinct(rows.push(row)),
{
    let next = rows.push(row);
    assert forall|i: int, j: int| 0 <= i < j < next.len() implies !((#[trigger] next[i]).user_id
        == (#[trigger] next[j]).user_id && next[i].club_id == next[j].club_id) by {
        if j < rows.len() {
            assert(next[i] == rows[i] && next[j] == rows[j]);
        } else {
            assert(next[i] == rows[i]);
            assert(next[j] == row);
        }
    }
}

/// Mathematical form of a `ClubRegistry`: its five tables, each in insertion
/// order.
pub struct ClubRegistryView {
    pub admins: Seq<i32>,
    pub councils: Seq<CouncilView>,
    pub clubs: Seq<ClubView>,
    pub memberships: Seq<Membership>,
    pub applications: Seq<ClubApplicationView>,
}

impl ClubRegistryView {
    /// Whether a club with the id `club_id` exists.
    pub open spec fn has_club(self, club_id: i32) -> bool {
        1 <= club_id <= self.clubs.len()
    }

    /// Whether an application with the id `application_id` exists.
    pub open spec fn has_application(self, application_id: i32) -> bool {
        1 <= application_id <= self.applications.len()
    }

    /// The invariant of the registry: the ids of councils, clubs and applications
    /// count up from 1 in insertion order, and no two memberships name the same
    /// user and club.
    pub open spec fn wf(self) -> bool {
        &&& self.councils.len() <= i32::MAX
        &&& self.clubs.len() <= i32::MAX
        &&& self.applications.len() <= i32::MAX
        &&& forall|i: int| 0 <= i < self.councils.len() ==> (#[trigger] self.councils[i]).id == i + 1
        &&& forall|i: int| 0 <= i < self.clubs.len() ==> (#[trigger] self.clubs[i]).id == i + 1
        &&& forall|i: int|
            0 <= i < self.applications.len() ==> (#[trigger] self.applications[i]).id == i + 1
        &&& memberships_distinct(self.memberships)
    }
}

/// Whether `i` is the position of the first council named `name`.
pub open spec fn is_first_council(councils: Seq<CouncilView>, name: Seq<char>, i: int) -> bool {
    &&& 0 <= i < councils.len()
    &&& councils[i].name == name
    &&& forall|j: int| 0 <= j < i ==> councils[j].name != name
}

/// The id of the first council named `name`, where there is one.
pub open spec fn council_named(councils: Seq<CouncilView>, name: Seq<char>) -> Option<i32> {
    if exists|i: int| is_first_council(councils, name, i) {
        Some(councils[choose|i: int| is_first_council(councils, name, i)].id as i32)
    } else {
        None
    }
}

/// The first council of a name is unique, so `council_named` names it.
pub proof fn lemma_council_named(councils: Seq<CouncilView>, name: Seq<char>, i: int)
    requires
        is_first_council(councils, name, i),
    ensures
        council_named(councils, name) == Some(councils[i].id as i32),
{
    let k = choose|k: int| is_first_council(councils, name, k);
    if k < i {
        assert(councils[k].name != name);
    } else if i < k {
        assert(councils[i].name != name);
    }
}

// ---------------------------------------------------------------------------
// Joining a club
// ---------------------------------------------------------------------------
/// What an application of `user_id` to join `club_id` comes to: a member is
/// refused, and a club that does not exist fails the write.
pub open spec fn join_outcome(reg: ClubRegistryView, user_id: i32, club_id: i32) -> StatusResponseView {
    if is_member(reg.memberships, user_id, club_id) {
        StatusResponseView::UserError(ALREADY_A_MEMBER@)
    } else if !reg.has_club(club_id) || reg.applications.len() + 1 > i32::MAX {
        StatusResponseView::ServerError
    } else {
        StatusResponseView::Success
    }
}

/// The application that `user_id` files at `now` to join `club_id`, under the id
/// `id`.
pub open spec fn filed_application(
    id: int,
    user_id: i32,
    club_id: i32,
    message: Option<Seq<char>>,
    now: i64,
) -> ClubApplicationView {
    ClubApplicationView {
        id,
        club_id,
        user_id,
        message,
        created_at: now,
        accepted: false,
        accepted_at: None,
    }
}

// ---------------------------------------------------------------------------
// Accepting an application
// ---------------------------------------------------------------------------
/// What the acceptance of the application `application_id` by the user with the
/// email `user_email` comes to. The application and its club must exist, the user
/// must be a head of the club, and the applicant must not be a member yet, or
/// the insert of the membership fails.
pub open spec fn acceptance_outcome(
    reg: ClubRegistryView,
    user_email: Seq<char>,
    application_id: i32,
) -> StatusResponseView {
    if !reg.has_application(application_id) {
        StatusResponseView::ServerError
    } else {
        let application = reg.applications[application_id - 1];
        let head_emails = if reg.has_club(application.club_id) {
            Some(reg.clubs[application.club_id - 1].club_head_emails)
        } else {
            None
        };
        match head_refusal(head_emails, user_email) {
            Some(refusal) => refusal,
            None => if is_member(reg.memberships, application.user_id, application.club_id) {
                StatusResponseView::ServerError
            } else {
                StatusResponseView::Success
            },
        }
    }
}

/// The registry after the acceptance of an application at `now`: where the
/// acceptance succeeded the application is marked and the applicant is a member;
/// otherwise nothing has changed.
pub open spec fn after_acceptance(
    reg: ClubRegistryView,
    user_email: Seq<char>,
    application_id: i32,
    now: i64,
) -> ClubRegistryView {
    if acceptance_outcome(reg, user_email, application_id) is Success {
        let application = reg.applications[application_id - 1];
        ClubRegistryView {
            applications: reg.applications.update(
                application_id - 1,
                accepted_at(application, now),
            ),
            memberships: reg.memberships.push(
                member_membership(application.user_id, application.club_id),
            ),
            ..reg
        }
    } else {
        reg
    }
}

/// The acceptance of an application brings the applicant's membership into
/// being together with the mark on the application, or neither. Where it
/// succeeds, the applicant was no member of the club before; afterwards exactly
/// one membership names applicant and club, at the level of a plain member, and
/// the application is marked as accepted at the time of the acceptance. Where it
/// does not succeed, the registry is as it was, so an application that was not
/// accepted stays so.
pub proof fn lemma_acceptance_is_atomic(
    reg: ClubRegistryView,
    user_email: Seq<char>,
    application_id: i32,
    now: i64,
)
    requires
        reg.wf(),
    ensures
        ({
            let after = after_acceptance(reg, user_email, application_id, now);
            let outcome = acceptance_outcome(reg, user_email, application_id);
            &&& after.wf()
            &&& !(outcome is Success) ==> after == reg
            &&& outcome is Success ==> {
                let before = reg.applications[application_id - 1];
                let marked = after.applications[application_id - 1];
                &&& !is_member(reg.memberships, before.user_id, before.club_id)
                &&& is_member(after.memberships, before.user_id, before.club_id)
                &&& forall|i: int, j: int|
                    0 <= i < after.memberships.len() && 0 <= j < after.memberships.len() && (
                    #[trigger] after.memberships[i]).user_id == before.user_id
                        && after.memberships[i].club_id == before.club_id && (
                    #[trigger] after.memberships[j]).user_id == before.user_id
                        && after.memberships[j].club_id == before.club_id ==> i == j
                &&& level_of(after.memberships, before.user_id, before.club_id) == Some(
                    MEMBER_PRIVILEGE,
                )
                &&& marked.accepted
                &&& marked.accepted_at == Some(now)
                &&& marked.id == before.id && marked.user_id == before.user_id && marked.club_id
                    == before.club_id
            }
        }),
{
    let after = after_acceptance(reg, user_email, application_id, now);
    if acceptance_outcome(reg, user_email, application_id) is Success {
        let before = reg.applications[application_id - 1];
        let row = member_membership(before.user_id, before.club_id);
        lemma_push_keeps_distinct(reg.memberships, row);
        let n = reg.memberships.len() as int;
        assert(after.memberships[n] == row);
        lemma_membership_of(after.memberships, n);
        assert forall|i: int, j: int|
            0 <= i < after.memberships.len() && 0 <= j < after.memberships.len() && (
            #[trigger] after.memberships[i]).user_id == before.user_id
                && after.memberships[i].club_id == before.club_id && (
            #[trigger] after.memberships[j]).user_id == before.user_id
                && after.memberships[j].club_id == before.club_id implies i == j by {
            if i < j {
                assert(!(after.memberships[i].user_id == after.memberships[j].user_id
                    && after.memberships[i].club_id == after.memberships[j].club_id));
            } else if j < i {
                assert(!(after.memberships[j].user_id == after.memberships[i].user_id
                    && after.memberships[j].club_id == after.memberships[i].club_id));
            }
        }
        assert forall|i: int| 0 <= i < after.applications.len() implies (
        #[trigger] after.applications[i]).id == i + 1 by {
            if i != application_id - 1 {
                assert(after.applications[i] == reg.applications[i]);
            }
        }
    }
}

// ---------------------------------------------------------------------------
// Creating councils and clubs
// ---------------------------------------------------------------------------
/// What the creation of a council by `user_id` comes to: the user must be an
/// admin and the deputy secretaries must all be known.
pub open spec fn council_creation_outcome(
    reg: ClubRegistryView,
    users: Seq<UserProfileView>,
    user_id: i32,
    deputies: Seq<Seq<char>>,
) -> StatusResponseView {
    if !reg.admins.contains(user_id) {
        StatusResponseView::UserError(crate::club::NOT_AN_ADMIN@)
    } else if known_count(users, deputies) != deputies.len() {
        StatusResponseView::UserError(crate::club::DEPUTY_EMAILS_INVALID@)
    } else if reg.councils.len() + 1 > i32::MAX {
        StatusResponseView::ServerError
    } else {
        StatusResponseView::Success
    }
}

/// The memberships that make the accounts under `emails` heads of the club
/// `club_id`, one for each email in order, or the answer that ends the creation
/// at the first email that has no account or whose account is a member already.
pub open spec fn head_rows(
    users: Seq<UserProfileView>,
    emails: Seq<Seq<char>>,
    club_id: i32,
    existing: Seq<Membership>,
) -> Result<Seq<Membership>, StatusResponseView>
    decreases emails.len(),
{
    if emails.len() == 0 {
        Ok(Seq::empty())
    } else {
        match head_rows(users, emails.drop_last(), club_id, existing) {
            Err(answer) => Err(answer),
            Ok(rows) => match by_email(users, emails.last()) {
                None => Err(StatusResponseView::UserError(head_not_found_text(emails.last()))),
                Some(user) => if is_member(existing + rows, user.id as i32, club_id) {
                    Err(StatusResponseView::ServerError)
                } else {
                    Ok(rows.push(head_membership(user.id as i32, club_id)))
                },
            },
        }
    }
}

/// An answer that ends the heads of a prefix of the emails ends the heads of all
/// the emails.
pub proof fn lemma_head_rows_end(
    users: Seq<UserProfileView>,
    emails: Seq<Seq<char>>,
    club_id: i32,
    existing: Seq<Membership>,
    k: int,
)
    requires
        0 <= k <= emails.len(),
        head_rows(users, emails.take(k), club_id, existing) is Err,
    ensures
        head_rows(users, emails, club_id, existing) == head_rows(
            users,
            emails.take(k),
            club_id,
            existing,
        ),
    decreases emails.len() - k,
{
    if k == emails.len() {
        assert(emails.take(k) =~= emails);
    } else {
        assert(emails.take(k + 1).drop_last() =~= emails.take(k));
        lemma_head_rows_end(users, emails, club_id, existing, k + 1);
    }
}

/// What the creation of a club by `user_id` comes to.
pub open spec fn club_creation_outcome(
    reg: ClubRegistryView,
    users: Seq<UserProfileView>,
    user_id: i32,
    data: ClubFull,
) -> StatusResponseView {
    let emails = texts(data.club_head_emails@);
    match club_creation_refusal(
        Some(reg.admins.contains(user_id)),
        Some(council_named(reg.councils, data.council_name@)),
        Some(known_count(users, emails) == emails.len()),
    ) {
        Some(refusal) => refusal,
        None => if reg.clubs.len() + 1 > i32::MAX {
            StatusResponseView::ServerError
        } else {
            match head_rows(users, emails, (reg.clubs.len() + 1) as i32, reg.memberships) {
                Err(answer) => answer,
                Ok(_) => StatusResponseView::Success,
            }
        },
    }
}

/// The registry after the creation of a club: where the creation succeeded the
/// club stands under the next id and each of its heads is a member at the level
/// of a head; otherwise nothing has changed.
pub open spec fn after_club_creation(
    reg: ClubRegistryView,
    users: Seq<UserProfileView>,
    user_id: i32,
    data: ClubFull,
) -> ClubRegistryView {
    if club_creation_outcome(reg, users, user_id, data) is Success {
        let id = (reg.clubs.len() + 1) as i32;
        ClubRegistryView {
            clubs: reg.clubs.push(
                club_of(
                    data,
                    id as int,
                    council_named(reg.councils, data.council_name@)->Some_0 as int,
                ),
            ),
            memberships: reg.memberships + head_rows(
                users,
                texts(data.club_head_emails@),
                id,
                reg.memberships,
            )->Ok_0,
            ..reg
        }
    } else {
        reg
    }
}

// ---------------------------------------------------------------------------
// Updating clubs and councils
// ---------------------------------------------------------------------------
/// What an update of a club changes.
#[derive(Debug)]
pub enum ClubUpdate {
    UpdateHeads(Vec<String>),
    UpdateDescription(String),
    UpdatePhones(Vec<String>),
    UpdateEmail(String),
}

/// Mathematical form of a `ClubUpdate`.
pub enum ClubUpdateView {
    UpdateHeads(Seq<Seq<char>>),
    UpdateDescription(Seq<char>),
    UpdatePhones(Seq<Seq<char>>),
    UpdateEmail(Seq<char>),
}

impl View for ClubUpdate {
    type V = ClubUpdateView;

    open spec fn view(&self) -> ClubUpdateView {
        match self {
            ClubUpdate::UpdateHeads(heads) => ClubUpdateView::UpdateHeads(texts(heads@)),
            ClubUpdate::UpdateDescription(text) => ClubUpdateView::UpdateDescription(text@),
            ClubUpdate::UpdatePhones(phones) => ClubUpdateView::UpdatePhones(texts(phones@)),
            ClubUpdate::UpdateEmail(email) => ClubUpdateView::UpdateEmail(email@),
        }
    }
}

/// The club `club` after `update`.
pub open spec fn updated_club(club: ClubView, update: ClubUpdateView) -> ClubView {
    match update {
        ClubUpdateView::UpdateHeads(heads) => ClubView { club_head_emails: heads, ..club },
        ClubUpdateView::UpdateDescription(text) => ClubView { description: text, ..club },
        ClubUpdateView::UpdatePhones(phones) => ClubView { phones, ..club },
        ClubUpdateView::UpdateEmail(email) => ClubView { email, ..club },
    }
}

/// What an update of the clubs named `name` comes to: new heads must all be
/// known, any other update is carried out as it is. An update that matches no
/// club succeeds and changes nothing.
pub open spec fn club_update_outcome(users: Seq<UserProfileView>, update: ClubUpdateView) -> StatusResponseView {
    match update {
        ClubUpdateView::UpdateHeads(heads) => if known_count(users, heads) == heads.len() {
            StatusResponseView::Success
        } else {
            StatusResponseView::UserError(crate::club::EMAILS_INVALID@)
        },
        _ => StatusResponseView::Success,
    }
}

/// The clubs after every club named `name` among the first `upto` was updated.
pub open spec fn clubs_updated(
    clubs: Seq<ClubView>,
    name: Seq<char>,
    update: ClubUpdateView,
    upto: int,
) -> Seq<ClubView> {
    Seq::new(
        clubs.len(),
        |i: int|
            if i < upto && clubs[i].name == name {
                updated_club(clubs[i], update)
            } else {
                clubs[i]
            },
    )
}

/// What an update of a council changes.
#[derive(Debug)]
pub enum CouncilUpdate {
    UpdateSeceratary(String),
    UpdateDeputySeceretaries(Vec<String>),
}

/// Mathematical form of a `CouncilUpdate`.
pub enum CouncilUpdateView {
    UpdateSeceratary(Seq<char>),
    UpdateDeputySeceretaries(Seq<Seq<char>>),
}

impl View for CouncilUpdate {
    type V = CouncilUpdateView;

    open spec fn view(&self) -> CouncilUpdateView {
        match self {
            CouncilUpdate::UpdateSeceratary(email) => CouncilUpdateView::UpdateSeceratary(email@),
            CouncilUpdate::UpdateDeputySeceretaries(deputies) => {
                CouncilUpdateView::UpdateDeputySeceretaries(texts(deputies@))
            },
        }
    }
}

/// The council `council` after `update`.
pub open spec fn updated_council(council: CouncilView, update: CouncilUpdateView) -> CouncilView {
    match update {
        CouncilUpdateView::UpdateSeceratary(email) => CouncilView {
            secretary_email: email,
            ..council
        },
        CouncilUpdateView::UpdateDeputySeceretaries(deputies) => CouncilView {
            deputy_secretaries_email: deputies,
            ..council
        },
    }
}

/// What an update of the councils named `name` comes to: new deputy secretaries
/// must all be known.
pub open spec fn council_update_outcome(users: Seq<UserProfileView>, update: CouncilUpdateView) -> StatusResponseView {
    match update {
        CouncilUpdateView::UpdateDeputySeceretaries(deputies) => if known_count(users, deputies)
            == deputies.len() {
            StatusResponseView::Success
        } else {
            StatusResponseView::UserError(crate::club::EMAILS_INVALID@)
        },
        _ => StatusResponseView::Success,
    }
}

/// The councils after every council named `name` among the first `upto` was
/// updated.
pub open spec fn councils_updated(
    councils: Seq<CouncilView>,
    name: Seq<char>,
    update: CouncilUpdateView,
    upto: int,
) -> Seq<CouncilView> {
    Seq::new(
        councils.len(),
        |i: int|
            if i < upto && councils[i].name == name {
                updated_council(councils[i], update)
            } else {
                councils[i]
            },
    )
}

/// A copy of a list of strings.
pub fn copy_texts(list: &Vec<String>) -> (copy: Vec<String>)
    ensures
        texts(copy@) == texts(list@),
{
    let mut copy: Vec<String> = Vec::new();
    let mut i: usize = 0;
    while i < list.len()
        invariant
            i <= list@.len(),
            copy@.len() == i,
            forall|j: int| 0 <= j < i ==> copy@[j]@ == list@[j]@,
        decreases list@.len() - i,
    {
        copy.push(list[i].clone());
        i += 1;
    }
    assert(texts(copy@) =~= texts(list@));
    copy
}

/// Carries out `update` on `club`.
fn apply_club_update(club: Club, update: &ClubUpdate) -> (changed: Club)
    ensures
        changed@ == updated_club(club@, update@),
{
    let mut changed = club;
    match update {
        ClubUpdate::UpdateHeads(heads) => {
            changed.club_head_emails = copy_texts(heads);
        },
        ClubUpdate::UpdateDescription(text) => {
            changed.description = text.clone();
        },
        ClubUpdate::UpdatePhones(phones) => {
            changed.phones = copy_texts(phones);
        },
        ClubUpdate::UpdateEmail(email) => {
            changed.email = email.clone();
        },
    }
    changed
}

/// Carries out `update` on `council`.
fn apply_council_update(council: Council, update: &CouncilUpdate) -> (changed: Council)
    ensures
        changed@ == updated_council(council@, update@),
{
    let mut changed = council;
    match update {
        CouncilUpdate::UpdateSeceratary(email) => {
            changed.secretary_email = email.clone();
        },
        CouncilUpdate::UpdateDeputySeceretaries(deputies) => {
            changed.deputy_secretaries_email = copy_texts(deputies);
        },
    }
    changed
}

/// Clubs, councils, memberships, applications and admins, each table in insertion
/// order.
pub struct ClubRegistry {
    admins: Vec<i32>,
    councils: Vec<Council>,
    clubs: Vec<Club>,
    memberships: Vec<Membership>,
    applications: Vec<ClubApplication>,
}

impl View for ClubRegistry {
    type V = ClubRegistryView;

    closed spec fn view(&self) -> ClubRegistryView {
        ClubRegistryView {
            admins: self.admins@,
            councils: Seq::new(self.councils@.len(), |i: int| self.councils@[i]@),
            clubs: Seq::new(self.clubs@.len(), |i: int| self.clubs@[i]@),
            memberships: self.memberships@,
            applications: Seq::new(self.applications@.len(), |i: int| self.applications@[i]@),
        }
    }
}

impl ClubRegistry {
    /// A registry without rows.
    pub fn new() -> (registry: ClubRegistry)
        ensures
            registry@.wf(),
            registry@.admins.len() == 0,
            registry@.councils.len() == 0,
            registry@.clubs.len() == 0,
            registry@.memberships.len() == 0,
            registry@.applications.len() == 0,
    {
        ClubRegistry {
            admins: Vec::new(),
            councils: Vec::new(),
            clubs: Vec::new(),
            memberships: Vec::new(),
            applications: Vec::new(),
        }
    }

    /// Makes `user_id` an admin.
    pub fn add_admin(&mut self, user_id: i32)
        requires
            old(self)@.wf(),
        ensures
            final(self)@.wf(),
            final(self)@ == (ClubRegistryView {
                admins: old(self)@.admins.push(user_id),
                ..old(self)@
            }),
    {
        self.admins.push(user_id);
    }

    /// Whether `user_id` is an admin. This is apart from any membership.
    pub fn is_admin(&self, user_id: i32) -> (admin: bool)
        ensures
            admin == self@.admins.contains(user_id),
    {
        let mut i: usize = 0;
        while i < self.admins.len()
            invariant
                i <= self.admins@.len(),
                forall|j: int| 0 <= j < i ==> self.admins@[j] != user_id,
            decreases self.admins@.len() - i,
        {
            if self.admins[i] == user_id {
                return true;
            }
            i += 1;
        }
        false
    }

    /// The privilege level of `user_id` in `club_id`, where the user is a member.
    pub fn privilege_level(&self, user_id: i32, club_id: i32) -> (level: Option<i32>)
        requires
            self@.wf(),
        ensures
            level == level_of(self@.memberships, user_id, club_id),
    {
        let mut i: usize = 0;
        while i < self.memberships.len()
            invariant
                self@.wf(),
                i <= self.memberships@.len(),
                forall|j: int|
                    0 <= j < i ==> !((#[trigger] self.memberships@[j]).user_id == user_id
                        && self.memberships@[j].club_id == club_id),
            decreases self.memberships@.len() - i,
        {
            if self.memberships[i].user_id == user_id && self.memberships[i].club_id == club_id {
                proof {
                    lemma_membership_of(self@.memberships, i as int);
                }
                return Some(self.memberships[i].privilege_level);
            }
            i += 1;
        }
        None
    }

    /// The number of memberships of `user_id` in `club_id`: 1 or 0.
    pub fn membership_count(&self, user_id: i32, club_id: i32) -> (count: i64)
        requires
            self@.wf(),
        ensures
            count == (if is_member(self@.memberships, user_id, club_id) {
                1i64
            } else {
                0i64
            }),
    {
        match self.privilege_level(user_id, club_id) {
            Some(_) => 1,
            None => 0,
        }
    }

    /// The id of the first council named `name`.
    pub fn find_council(&self, name: &str) -> (id: Option<i32>)
        requires
            self@.wf(),
        ensures
            id == council_named(self@.councils, name@),
    {
        let mut i: usize = 0;
        while i < self.councils.len()
            invariant
                self@.wf(),
                i <= self.councils@.len(),
                forall|j: int| 0 <= j < i ==> self@.councils[j].name != name@,
            decreases self.councils@.len() - i,
        {
            if same_text(self.councils[i].name.as_str(), name) {
                proof {
                    lemma_council_named(self@.councils, name@, i as int);
                }
                return Some(self.councils[i].id);
            }
            i += 1;
        }
        assert forall|k: int| !is_first_council(self@.councils, name@, k) by {
            if 0 <= k < self@.councils.len() {
                assert(self@.councils[k].name != name@);
            }
        }
        None
    }

    /// Creates a council in the name of `user_id`.
    pub fn create_council(
        &mut self,
        users: &CredentialStore,
        user_id: i32,
        name: String,
        secretary_email: String,
        deputy_secretaries_email: Vec<String>,
    ) -> (answer: StatusResponse)
        requires
            old(self)@.wf(),
            users_wf(users@),
        ensures
            final(self)@.wf(),
            answer@ == council_creation_outcome(
                old(self)@,
                users@,
                user_id,
                texts(deputy_secretaries_email@),
            ),
            final(self)@ == (if answer@ is Success {
                ClubRegistryView {
                    councils: old(self)@.councils.push(
                        CouncilView {
                            id: old(self)@.councils.len() as int + 1,
                            name: name@,
                            secretary_email: secretary_email@,
                            deputy_secretaries_email: texts(deputy_secretaries_email@),
                        },
                    ),
                    ..old(self)@
                }
            } else {
                old(self)@
            }),
    {
        if !self.is_admin(user_id) {
            return StatusResponse::refusal(crate::club::NOT_AN_ADMIN);
        }
        let known = users.count_known(&deputy_secretaries_email);
        if !emails_all_known(known, deputy_secretaries_email.len()) {
            return StatusResponse::refusal(crate::club::DEPUTY_EMAILS_INVALID);
        }
        let n: usize = self.councils.len();
        if n >= 2147483647 {
            return StatusResponse::ServerError;
        }
        let ghost before = self@;
        let council = Council { id: (n + 1) as i32, name, secretary_email, deputy_secretaries_email };
        let ghost row = council@;
        self.councils.push(council);
        assert(self@.councils =~= before.councils.push(row));
        assert(self@.clubs =~= before.clubs);
        assert(self@.applications =~= before.applications);
        StatusResponse::Success
    }

    /// Works out the memberships of the heads of a new club, one email after the
    /// other.
    fn head_memberships(&self, users: &CredentialStore, emails: &Vec<String>, club_id: i32) -> (rows:
        Result<Vec<Membership>, StatusResponse>)
        requires
            self@.wf(),
            users_wf(users@),
        ensures
            match rows {
                Ok(list) => head_rows(users@, texts(emails@), club_id, self@.memberships) == Ok::<
                    Seq<Membership>,
                    StatusResponseView,
                >(list@) && memberships_distinct(self@.memberships + list@),
                Err(answer) => head_rows(users@, texts(emails@), club_id, self@.memberships)
                    == Err::<Seq<Membership>, StatusResponseView>(answer@) && !(answer@
                    is Success),
            },
    {
        let mut rows: Vec<Membership> = Vec::new();
        let mut i: usize = 0;
        assert(texts(emails@).take(0) =~= Seq::empty());
        assert(self@.memberships + rows@ =~= self@.memberships);
        while i < emails.len()
            invariant
                self@.wf(),
                users_wf(users@),
                i <= emails@.len(),
                head_rows(users@, texts(emails@).take(i as int), club_id, self@.memberships) == Ok::<
                    Seq<Membership>,
                    StatusResponseView,
                >(rows@),
                memberships_distinct(self@.memberships + rows@),
            decreases emails@.len() - i,
        {
            let ghost all = texts(emails@);
            assert(all.take(i + 1).drop_last() =~= all.take(i as int));
            assert(all.take(i + 1).last() == emails@[i as int]@);
            let Some(user) = users.find_by_email(emails[i].as_str()) else {
                proof {
                    lemma_head_rows_end(users@, all, club_id, self@.memberships, i + 1);
                }
                return Err(head_not_found(emails[i].as_str()));
            };
            let user_id = user.id;
            if self.privilege_level(user_id, club_id).is_some() || holds(&rows, user_id, club_id) {
                proof {
                    let joined = self@.memberships + rows@;
                    if is_member(self@.memberships, user_id, club_id) {
                        let k = choose|k: int|
                            0 <= k < self@.memberships.len() && (
                            #[trigger] self@.memberships[k]).user_id == user_id
                                && self@.memberships[k].club_id == club_id;
                        assert(joined[k] == self@.memberships[k]);
                    } else {
                        let k = choose|k: int|
                            0 <= k < rows@.len() && (#[trigger] rows@[k]).user_id == user_id
                                && rows@[k].club_id == club_id;
                        assert(joined[self@.memberships.len() + k] == rows@[k]);
                    }
                    assert(is_member(joined, user_id, club_id));
                    lemma_head_rows_end(users@, all, club_id, self@.memberships, i + 1);
                }
                return Err(StatusResponse::ServerError);
            }
            proof {
                let joined = self@.memberships + rows@;
                assert(!is_member(joined, user_id, club_id)) by {
                    if is_member(joined, user_id, club_id) {
                        let k = choose|k: int|
                            0 <= k < joined.len() && (#[trigger] joined[k]).user_id == user_id
                                && joined[k].club_id == club_id;
                        if k < self@.memberships.len() {
                            assert(joined[k] == self@.memberships[k]);
                        } else {
                            assert(joined[k] == rows@[k - self@.memberships.len()]);
                        }
                    }
                }
                lemma_push_keeps_distinct(joined, head_membership(user_id, club_id));
                assert(joined.push(head_membership(user_id, club_id)) =~= self@.memberships
                    + rows@.push(head_membership(user_id, club_id)));
            }
            rows.push(
                Membership { user_id, club_id, role: Role::Head, privilege_level: HEAD_PRIVILEGE },
            );
            i += 1;
        }
        assert(texts(emails@).take(i as int) =~= texts(emails@));
        Ok(rows)
    }

    /// Creates a club in the name of `user_id` and makes each of its heads a
    /// member at the level of a head, as one unit: a refusal or a failure leaves
    /// the registry as it was.
    pub fn create_club(&mut self, users: &CredentialStore, user_id: i32, data: ClubFull) -> (answer:
        StatusResponse)
        requires
            old(self)@.wf(),
            users_wf(users@),
        ensures
            final(self)@.wf(),
            answer@ == club_creation_outcome(old(self)@, users@, user_id, data),
            final(self)@ == after_club_creation(old(self)@, users@, user_id, data),
    {
        let is_admin = self.is_admin(user_id);
        let council = self.find_council(data.council_name.as_str());
        let known = users.count_known(&data.club_head_emails);
        let heads_known = emails_all_known(known, data.club_head_emails.len());
        let council_id = match club_creation_gate(Some(is_admin), Some(council), Some(heads_known)) {
            Ok(id) => id,
            Err(answer) => {
                return answer;
            },
        };
        let n: usize = self.clubs.len();
        if n >= 2147483647 {
            return StatusResponse::ServerError;
        }
        let id: i32 = (n + 1) as i32;
        let mut rows = match self.head_memberships(users, &data.club_head_emails, id) {
            Ok(rows) => rows,
            Err(answer) => {
                return answer;
            },
        };
        let ghost before = self@;
        let ghost added = rows@;
        let ghost row = club_of(data, id as int, council_id as int);
        self.clubs.push(
            Club {
                id,
                name: data.name,
                email: data.email,
                description: data.description,
                council_id,
                club_head_emails: data.club_head_emails,
                phones: data.phones,
            },
        );
        self.memberships.append(&mut rows);
        assert(self@.clubs =~= before.clubs.push(row));
        assert(self@.councils =~= before.councils);
        assert(self@.applications =~= before.applications);
        assert(self@.memberships =~= before.memberships + added);
        StatusResponse::Success
    }

    /// Updates every club named `name`. New heads are checked against the
    /// accounts first.
    pub fn update_club(&mut self, users: &CredentialStore, name: &str, update: ClubUpdate) -> (answer:
        StatusResponse)
        requires
            old(self)@.wf(),
            users_wf(users@),
        ensures
            final(self)@.wf(),
            answer@ == club_update_outcome(users@, update@),
            final(self)@ == (if answer@ is Success {
                ClubRegistryView {
                    clubs: clubs_updated(
                        old(self)@.clubs,
                        name@,
                        update@,
                        old(self)@.clubs.len() as int,
                    ),
                    ..old(self)@
                }
            } else {
                old(self)@
            }),
    {
        if let ClubUpdate::UpdateHeads(heads) = &update {
            let known = emails_all_known(users.count_known(heads), heads.len());
            if let Err(answer) = crate::club::emails_gate(Some(known)) {
                return answer;
            }
        }
        let ghost before = self@;
        let n: usize = self.clubs.len();
        let mut i: usize = 0;
        assert(self@.clubs =~= clubs_updated(before.clubs, name@, update@, 0));
        while i < n
            invariant
                before.wf(),
                n == before.clubs.len(),
                i <= n,
                self.clubs@.len() == n,
                self@.clubs == clubs_updated(before.clubs, name@, update@, i as int),
                self@.admins == before.admins,
                self@.councils == before.councils,
                self@.memberships == before.memberships,
                self@.applications == before.applications,
            decreases n - i,
        {
            if same_text(self.clubs[i].name.as_str(), name) {
                let ghost so_far = self@;
                let ghost rows = self.clubs@;
                let club = self.clubs.remove(i);
                let changed = apply_club_update(club, &update);
                let ghost row = changed@;
                self.clubs.insert(i, changed);
                assert(self.clubs@.len() == n);
                assert forall|k: int| 0 <= k < n implies (#[trigger] self@.clubs[k])
                    == clubs_updated(before.clubs, name@, update@, i + 1)[k] by {
                    if k == i {
                        assert(self.clubs@[k]@ == row);
                        assert(rows[k]@ == so_far.clubs[k]);
                    } else {
                        assert(self.clubs@[k] == rows[k]);
                        assert(rows[k]@ == so_far.clubs[k]);
                    }
                }
                assert(self@.clubs =~= clubs_updated(before.clubs, name@, update@, i + 1));
                assert(self@.councils =~= so_far.councils);
                assert(self@.applications =~= so_far.applications);
            } else {
                assert(self@.clubs =~= clubs_updated(before.clubs, name@, update@, i + 1));
            }
            i += 1;
        }
        assert forall|k: int| 0 <= k < self@.clubs.len() implies (#[trigger] self@.clubs[k]).id == k
            + 1 by {
            assert(self@.clubs[k].id == before.clubs[k].id);
        }
        StatusResponse::of_statement(true)
    }

    /// Updates every council named `name`. New deputy secretaries are checked
    /// against the accounts first.
    pub fn update_council(&mut self, users: &CredentialStore, name: &str, update: CouncilUpdate) -> (answer:
        StatusResponse)
        requires
            old(self)@.wf(),
            users_wf(users@),
        ensures
            final(self)@.wf(),
            answer@ == council_update_outcome(users@, update@),
            final(self)@ == (if answer@ is Success {
                ClubRegistryView {
                    councils: councils_updated(
                        old(self)@.councils,
                        name@,
                        update@,
                        old(self)@.councils.len() as int,
                    ),
                    ..old(self)@
                }
            } else {
                old(self)@
            }),
    {
        if let CouncilUpdate::UpdateDeputySeceretaries(deputies) = &update {
            let known = emails_all_known(users.count_known(deputies), deputies.len());
            if let Err(answer) = crate::club::emails_gate(Some(known)) {
                return answer;
            }
        }
        let ghost before = self@;
        let n: usize = self.councils.len();
        let mut i: usize = 0;
        assert(self@.councils =~= councils_updated(before.councils, name@, update@, 0));
        while i < n
            invariant
                before.wf(),
                n == before.councils.len(),
                i <= n,
                self.councils@.len() == n,
                self@.councils == councils_updated(before.councils, name@, update@, i as int),
                self@.admins == before.admins,
                self@.clubs == before.clubs,
                self@.memberships == before.memberships,
                self@.applications == before.applications,
            decreases n - i,
        {
            if same_text(self.councils[i].name.as_str(), name) {
                let ghost so_far = self@;
                let ghost rows = self.councils@;
                let council = self.councils.remove(i);
                let changed = apply_council_update(council, &update);
                let ghost row = changed@;
                self.councils.insert(i, changed);
                assert(self.councils@.len() == n);
                assert forall|k: int| 0 <= k < n implies (#[trigger] self@.councils[k])
                    == councils_updated(before.councils, name@, update@, i + 1)[k] by {
                    if k == i {
                        assert(self.councils@[k]@ == row);
                        assert(rows[k]@ == so_far.councils[k]);
                    } else {
                        assert(self.councils@[k] == rows[k]);
                        assert(rows[k]@ == so_far.councils[k]);
                    }
                }
                assert(self@.councils =~= councils_updated(before.councils, name@, update@, i + 1));
                assert(self@.clubs =~= so_far.clubs);
                assert(self@.applications =~= so_far.applications);
            } else {
                assert(self@.councils =~= councils_updated(before.councils, name@, update@, i + 1));
            }
            i += 1;
        }
        assert forall|k: int| 0 <= k < self@.councils.len() implies (
        #[trigger] self@.councils[k]).id == k + 1 by {
            assert(self@.councils[k].id == before.councils[k].id);
        }
        StatusResponse::of_statement(true)
    }

    /// The club `club_id`.
    pub fn club(&self, club_id: i32) -> (found: Option<&Club>)
        ensures
            match found {
                Some(club) => self@.has_club(club_id) && club@ == self@.clubs[club_id - 1],
                None => !self@.has_club(club_id),
            },
    {
        if club_id >= 1 && club_id as usize <= self.clubs.len() {
            Some(&self.clubs[(club_id - 1) as usize])
        } else {
            None
        }
    }

    /// Files an application of `user_id` to join `club_id`.
    pub fn join_club(&mut self, user_id: i32, club_id: i32, message: Option<String>, now: i64) -> (answer:
        StatusResponse)
        requires
            old(self)@.wf(),
        ensures
            final(self)@.wf(),
            answer@ == join_outcome(old(self)@, user_id, club_id),
            final(self)@ == (if answer@ is Success {
                ClubRegistryView {
                    applications: old(self)@.applications.push(
                        filed_application(
                            old(self)@.applications.len() as int + 1,
                            user_id,
                            club_id,
                            option_text(message),
                            now,
                        ),
                    ),
                    ..old(self)@
                }
            } else {
                old(self)@
            }),
    {
        if let Err(answer) = join_gate(Some(self.membership_count(user_id, club_id))) {
            return answer;
        }
        let n: usize = self.applications.len();
        if club_id < 1 || self.clubs.len() < club_id as usize || n >= 2147483647 {
            return StatusResponse::ServerError;
        }
        let ghost before = self@;
        let application = ClubApplication {
            id: (n + 1) as i32,
            club_id,
            user_id,
            message,
            created_at: now,
            accepted: false,
            accepted_at: None,
        };
        let ghost row = application@;
        self.applications.push(application);
        assert(self@.applications =~= before.applications.push(row));
        assert(self@.clubs =~= before.clubs);
        assert(self@.councils =~= before.councils);
        StatusResponse::Success
    }

    /// The applications to `club_id`, for one of the club's heads.
    pub fn view_club_application(&self, user_email: &str, club_id: i32) -> (listed: Result<
        Vec<ClubApplication>,
        StatusResponse,
    >)
        requires
            self@.wf(),
        ensures
            match listed {
                Ok(list) => {
                    &&& head_refusal(club_head_emails(self@, club_id), user_email@) is None
                    &&& applications_view(list@) == self@.applications.filter(
                        |a: ClubApplicationView| a.club_id == club_id,
                    )
                },
                Err(answer) => head_refusal(club_head_emails(self@, club_id), user_email@) == Some(
                    answer@,
                ),
            },
    {
        let head_emails = if club_id >= 1 && club_id as usize <= self.clubs.len() {
            Some(&self.clubs[(club_id - 1) as usize].club_head_emails)
        } else {
            None
        };
        require_club_head(head_emails, user_email)?;
        let mut list: Vec<ClubApplication> = Vec::new();
        let mut i: usize = 0;
        let ghost wanted = |a: ClubApplicationView| a.club_id == club_id;
        assert(self@.applications.take(0) =~= Seq::empty());
        assert(applications_view(list@) =~= Seq::empty());
        assert(self@.applications.take(0).filter(wanted) =~= Seq::empty()) by {
            reveal(Seq::filter);
        }
        while i < self.applications.len()
            invariant
                i <= self.applications@.len(),
                wanted == |a: ClubApplicationView| a.club_id == club_id,
                applications_view(list@) == self@.applications.take(i as int).filter(wanted),
            decreases self.applications@.len() - i,
        {
            proof {
                let upto = self@.applications.take(i + 1);
                assert(upto.drop_last() =~= self@.applications.take(i as int));
                assert(upto.last() == self@.applications[i as int]);
                reveal(Seq::filter);
            }
            if self.applications[i].club_id == club_id {
                let ghost so_far = applications_view(list@);
                let copy = self.applications[i].duplicate();
                list.push(copy);
                assert(applications_view(list@) =~= so_far.push(self@.applications[i as int]));
            }
            i += 1;
        }
        assert(self@.applications.take(i as int) =~= self@.applications);
        Ok(list)
    }

    /// Accepts the application `application_id` in the name of the user with the
    /// email `user_email`, at `now`: the application is marked as accepted and
    /// the applicant becomes a member, both or neither.
    pub fn accept_club_join_application(&mut self, user_email: &str, application_id: i32, now: i64) -> (answer:
        StatusResponse)
        requires
            old(self)@.wf(),
        ensures
            final(self)@.wf(),
            answer@ == acceptance_outcome(old(self)@, user_email@, application_id),
            final(self)@ == after_acceptance(old(self)@, user_email@, application_id, now),
    {
        proof {
            lemma_acceptance_is_atomic(self@, user_email@, application_id, now);
        }
        if application_id < 1 || self.applications.len() < application_id as usize {
            return StatusResponse::ServerError;
        }
        let at: usize = (application_id - 1) as usize;
        let club_id = self.applications[at].club_id;
        let user_id = self.applications[at].user_id;
        let head_emails = if club_id >= 1 && club_id as usize <= self.clubs.len() {
            Some(&self.clubs[(club_id - 1) as usize].club_head_emails)
        } else {
            None
        };
        if let Err(answer) = require_club_head(head_emails, user_email) {
            return answer;
        }
        let insertable = self.privilege_level(user_id, club_id).is_none();
        let (end, answer) = end_acceptance(Some(user_id), insertable);
        match end {
            UnitEnd::Rollback => answer,
            UnitEnd::Commit => {
                let ghost before = self@;
                let mut marked = self.applications[at].duplicate();
                marked.accepted = true;
                marked.accepted_at = Some(now);
                self.applications.set(at, marked);
                self.memberships.push(
                    Membership {
                        user_id,
                        club_id,
                        role: Role::Member,
                        privilege_level: MEMBER_PRIVILEGE,
                    },
                );
                assert(self@.applications =~= before.applications.update(
                    at as int,
                    accepted_at(before.applications[at as int], now),
                ));
                assert(self@.clubs =~= before.clubs);
                assert(self@.councils =~= before.councils);
                answer
            },
        }
    }
}

/// Whether `rows` holds a membership of the user in the club.
fn holds(rows: &Vec<Membership>, user_id: i32, club_id: i32) -> (held: bool)
    ensures
        held == is_member(rows@, user_id, club_id),
{
    let mut i: usize = 0;
    while i < rows.len()
        invariant
            i <= rows@.len(),
            forall|j: int|
                0 <= j < i ==> !((#[trigger] rows@[j]).user_id == user_id && rows@[j].club_id
                    == club_id),
        decreases rows@.len() - i,
    {
        if rows[i].user_id == user_id && rows[i].club_id == club_id {
            return true;
        }
        i += 1;
    }
    false
}

/// The head emails of the club `club_id`, where the club exists.
pub open spec fn club_head_emails(reg: ClubRegistryView, club_id: i32) -> Option<Seq<Seq<char>>> {
    if reg.has_club(club_id) {
        Some(reg.clubs[club_id - 1].club_head_emails)
    } else {
        None
    }
}

/// The mathematical form of each application of a list.
pub open spec fn applications_view(list: Seq<ClubApplication>) -> Seq<ClubApplicationView> {
    Seq::new(list.len(), |i: int| list[i]@)
}

/// The characters of a string that may be absent.
pub open spec fn option_text(text: Option<String>) -> Option<Seq<char>> {
    match text {
        Some(t) => Some(t@),
        None => None,
    }
}

} // verus!
