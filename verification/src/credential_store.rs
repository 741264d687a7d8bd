//! A credential store held in memory, and the account flows run against it.
//!
//! The store keeps the accounts in insertion order and hands out ids from 1 on.
//! It refuses a second account under an email that is taken, as a unique key
//! would.

use vstd::prelude::*;
use crate::accounts::{
    after_activation, after_user_insert, login, login_outcome, mail_for, mail_outcome,
    new_user, option_user, registration_complete, registration_reply, request_verification,
    verification_reply, verification_request_outcome, verification_sent_message,
    verified_location, InsertOutcome, NewUser, VerificationMail, VerificationMailView,
    inserted_user, REGISTERED_MESSAGE,
};
use crate::auth::{
    AuthBody, AuthError, AuthPayload, RegisterAuthPayload, ResponseBody, UserProfile,
    UserProfileView, VerificationRequestPayload, TOKEN_TYPE,
};
use crate::password::{bcrypt_hash, password_verdict};
use crate::text::{contains_email, same_text, texts};
use crate::token::{is_token_for, issued_token, verified_claims, verify_token, Keys};

verus! {

/// Whether `users` holds an account under `email`.
pub open spec fn has_email(users: Seq<UserProfileView>, email: Seq<char>) -> bool {
    exists|i: int| 0 <= i < users.len() && users[i].email == email
}

/// The position of an account under `email` in `users`, where there is one. In a
/// well-formed store there is at most one.
pub open spec fn email_position(users: Seq<UserProfileView>, email: Seq<char>) -> int {
    choose|i: int| 0 <= i < users.len() && users[i].email == email
}

/// The account under `email` in `users`, where there is one.
pub open spec fn by_email(users: Seq<UserProfileView>, email: Seq<char>) -> Option<
    UserProfileView,
> {
    if has_email(users, email) {
        Some(users[email_position(users, email)])
    } else {
        None
    }
}

/// The invariant of the credential store: ids count up from 1 in insertion
/// order, and no two accounts share an email.
pub open spec fn users_wf(users: Seq<UserProfileView>) -> bool {
    &&& users.len() <= i32::MAX
    &&& forall|i: int| 0 <= i < users.len() ==> (#[trigger] users[i]).id == i + 1
    &&& forall|i: int, j: int|
        0 <= i < j < users.len() ==> (#[trigger] users[i]).email != (#[trigger] users[j]).email
}

/// In a well-formed store the account under an email is unique.
pub proof fn lemma_email_position(users: Seq<UserProfileView>, i: int)
    requires
        users_wf(users),
        0 <= i < users.len(),
    ensures
        has_email(users, users[i].email),
        email_position(users, users[i].email) == i,
        by_email(users, users[i].email) == Some(users[i]),
{
    let k = email_position(users, users[i].email);
    if k < i {
        assert(users[k].email != users[i].email);
    } else if i < k {
        assert(users[i].email != users[k].email);
    }
}

/// The account `user` with its active flag set.
pub open spec fn activated(user: UserProfileView) -> UserProfileView {
    UserProfileView { active: true, ..user }
}

/// What the insert of an account with these fields answers on `users`, where
/// `Ok` carries the new row.
pub open spec fn insert_outcome(
    users: Seq<UserProfileView>,
    name: Seq<char>,
    email: Seq<char>,
    password_hash: Seq<char>,
) -> Result<UserProfileView, AuthError> {
    if has_email(users, email) {
        Err(AuthError::UserAlreadyExists)
    } else if users.len() + 1 > i32::MAX {
        Err(AuthError::InternalServerError)
    } else {
        Ok(inserted_user(users.len() as int + 1, name, email, password_hash))
    }
}

/// What a registration comes to on `users`, where the password was hashed as
/// `hashed` and the transport answers `mail_accepted`. The checks come in this
/// order: the fields, the hashing, the insert, the token, the mail.
pub open spec fn registration_outcome(
    users: Seq<UserProfileView>,
    name: Seq<char>,
    email: Seq<char>,
    password: Seq<char>,
    hashed: Option<Seq<char>>,
    now: int,
    secret: Seq<u8>,
    mail_accepted: bool,
) -> Result<VerificationMailView, AuthError> {
    if !registration_complete(name, email, password) {
        Err(AuthError::MissingCredentials)
    } else {
        match hashed {
            None => Err(AuthError::InternalServerError),
            Some(password_hash) => match insert_outcome(users, name, email, password_hash) {
                Err(e) => Err(e),
                Ok(user) => match issued_token(user, now, secret) {
                    None => Err(AuthError::TokenCreation),
                    Some(token) => if mail_accepted {
                        Ok(mail_for(user, token))
                    } else {
                        Err(AuthError::InternalServerError)
                    },
                },
            },
        }
    }
}

/// The accounts after a registration: the new account is kept only where the
/// registration succeeded as a whole.
pub open spec fn after_registration(
    users: Seq<UserProfileView>,
    name: Seq<char>,
    email: Seq<char>,
    password: Seq<char>,
    hashed: Option<Seq<char>>,
    now: int,
    secret: Seq<u8>,
    mail_accepted: bool,
) -> Seq<UserProfileView> {
    if registration_outcome(users, name, email, password, hashed, now, secret, mail_accepted)
        is Ok {
        users.push(inserted_user(users.len() as int + 1, name, email, hashed->Some_0))
    } else {
        users
    }
}

/// What following a verification link with `token` comes to on `users`: the
/// location that the client is sent to, or the refusal.
pub open spec fn activation_outcome(
    users: Seq<UserProfileView>,
    token: Seq<char>,
    now: int,
    secret: Seq<u8>,
) -> Result<Seq<char>, AuthError> {
    match verified_claims(token, secret, now) {
        None => Err(AuthError::InvalidToken),
        Some(claims) => match by_email(users, claims.email) {
            None => Err(AuthError::InternalServerError),
            Some(user) => match issued_token(activated(user), now, secret) {
                None => Err(AuthError::TokenCreation),
                Some(fresh) => Ok(verified_location(fresh)),
            },
        },
    }
}

/// The accounts after a verification link with `token` was followed: the account
/// under the token's email is active where the activation succeeded as a whole.
pub open spec fn after_activation_of(
    users: Seq<UserProfileView>,
    token: Seq<char>,
    now: int,
    secret: Seq<u8>,
) -> Seq<UserProfileView> {
    if activation_outcome(users, token, now, secret) is Ok {
        let email = verified_claims(token, secret, now)->Some_0.email;
        let at = email_position(users, email);
        users.update(at, activated(users[at]))
    } else {
        users
    }
}

/// A registration under an email that an earlier registration took is refused
/// with `UserAlreadyExists`, and leaves the store as it was: the first account
/// stands as it was inserted.
///
/// The second request must be complete and its password hashed, since an
/// incomplete request and a failed hashing are reported before the store is
/// asked.
pub proof fn lemma_second_registration_is_refused(
    users: Seq<UserProfileView>,
    email: Seq<char>,
    first_name: Seq<char>,
    first_password: Seq<char>,
    first_hashed: Option<Seq<char>>,
    first_now: int,
    first_mail_accepted: bool,
    second_name: Seq<char>,
    second_password: Seq<char>,
    second_hashed: Option<Seq<char>>,
    second_now: int,
    second_mail_accepted: bool,
    secret: Seq<u8>,
)
    requires
        users_wf(users),
        registration_outcome(
            users,
            first_name,
            email,
            first_password,
            first_hashed,
            first_now,
            secret,
            first_mail_accepted,
        ) is Ok,
        registration_complete(second_name, email, second_password),
        second_hashed is Some,
    ensures
        ({
            let once = after_registration(
                users,
                first_name,
                email,
                first_password,
                first_hashed,
                first_now,
                secret,
                first_mail_accepted,
            );
            &&& users_wf(once)
            &&& by_email(once, email) == Some(
                inserted_user(users.len() as int + 1, first_name, email, first_hashed->Some_0),
            )
            &&& registration_outcome(
                once,
                second_name,
                email,
                second_password,
                second_hashed,
                second_now,
                secret,
                second_mail_accepted,
            ) == Err::<VerificationMailView, AuthError>(AuthError::UserAlreadyExists)
            &&& after_registration(
                once,
                second_name,
                email,
                second_password,
                second_hashed,
                second_now,
                secret,
                second_mail_accepted,
            ) == once
        }),
{
    let row = inserted_user(users.len() as int + 1, first_name, email, first_hashed->Some_0);
    let once = users.push(row);
    assert(once == after_registration(
        users,
        first_name,
        email,
        first_password,
        first_hashed,
        first_now,
        secret,
        first_mail_accepted,
    ));
    assert forall|i: int, j: int| 0 <= i < j < once.len() implies (#[trigger] once[i]).email != (
    #[trigger] once[j]).email by {
        if j < users.len() {
            assert(once[i] == users[i] && once[j] == users[j]);
        } else {
            assert(once[i] == users[i]);
        }
    }
    assert(once[users.len() as int] == row);
    lemma_email_position(once, users.len() as int);
}

/// Following a verification link again is harmless: once the account under the
/// token's email was activated, an activation with the same token leaves every
/// account as it is.
pub proof fn lemma_activation_is_idempotent(
    users: Seq<UserProfileView>,
    token: Seq<char>,
    first_now: int,
    second_now: int,
    secret: Seq<u8>,
)
    requires
        users_wf(users),
        activation_outcome(users, token, first_now, secret) is Ok,
    ensures
        ({
            let once = after_activation_of(users, token, first_now, secret);
            let email = verified_claims(token, secret, first_now)->Some_0.email;
            &&& users_wf(once)
            &&& by_email(once, email) matches Some(user) && user.active
            &&& after_activation_of(once, token, second_now, secret) == once
        }),
{
    let claims = verified_claims(token, secret, first_now)->Some_0;
    let email = claims.email;
    let at = email_position(users, email);
    let once = users.update(at, activated(users[at]));
    assert(once == after_activation_of(users, token, first_now, secret));
    assert forall|i: int, j: int| 0 <= i < j < once.len() implies (#[trigger] once[i]).email != (
    #[trigger] once[j]).email by {
        assert(once[i].email == users[i].email);
        assert(once[j].email == users[j].email);
    }
    assert forall|i: int| 0 <= i < once.len() implies (#[trigger] once[i]).id == i + 1 by {
        assert(once[i].id == users[i].id);
    }
    assert(once[at].email == email);
    lemma_email_position(once, at);
    if activation_outcome(once, token, second_now, secret) is Ok {
        let again = verified_claims(token, secret, second_now)->Some_0;
        assert(again == claims);
        assert(once.update(at, activated(once[at])) =~= once);
    }
}

/// The outcomes of a login that names an email and a password. For an email that
/// the store holds: a password that does not match is refused with
/// `WrongCredentials`; a matching password for an inactive account is refused
/// with `UserNotActive`; a matching password for an active account gives the
/// token issued to that account. (`login` adds that this token verifies to the
/// account's id, name and email.) An email that the store does not hold is
/// refused as a wrong password is, so the answer does not tell the two apart.
pub proof fn lemma_login_cases(
    user: UserProfileView,
    password: Seq<char>,
    now: int,
    secret: Seq<u8>,
)
    requires
        user.email.len() > 0,
        password.len() > 0,
    ensures
        login_outcome(user.email, password, None, now, secret) == Err::<Seq<char>, AuthError>(
            AuthError::WrongCredentials,
        ),
        password_verdict(password, user.password_hash) == Some(false) ==> login_outcome(
            user.email,
            password,
            Some(user),
            now,
            secret,
        ) == Err::<Seq<char>, AuthError>(AuthError::WrongCredentials),
        password_verdict(password, user.password_hash) == Some(true) && !user.active
            ==> login_outcome(user.email, password, Some(user), now, secret) == Err::<
            Seq<char>,
            AuthError,
        >(AuthError::UserNotActive),
        password_verdict(password, user.password_hash) == Some(true) && user.active
            && issued_token(user, now, secret) is Some ==> login_outcome(
            user.email,
            password,
            Some(user),
            now,
            secret,
        ) == Ok::<Seq<char>, AuthError>(issued_token(user, now, secret)->Some_0),
{
}

/// The number of accounts in `users` whose email is among `emails`.
pub open spec fn known_count(users: Seq<UserProfileView>, emails: Seq<Seq<char>>) -> int
    decreases users.len(),
{
    if users.len() == 0 {
        0
    } else {
        known_count(users.drop_last(), emails) + (if emails.contains(users.last().email) {
            1int
        } else {
            0int
        })
    }
}

/// A mail transport held in memory: it keeps what it accepted, and accepts
/// nothing while it is not reachable.
#[derive(Debug)]
pub struct Outbox {
    pub reachable: bool,
    pub sent: Vec<VerificationMail>,
}

/// The mails that `outbox` has accepted, oldest first.
pub open spec fn sent_mails(outbox: Outbox) -> Seq<VerificationMailView> {
    Seq::new(outbox.sent@.len(), |i: int| outbox.sent@[i]@)
}

impl Outbox {
    /// A reachable transport that has accepted nothing yet.
    pub fn new() -> (outbox: Outbox)
        ensures
            outbox.reachable,
            sent_mails(outbox).len() == 0,
    {
        Outbox { reachable: true, sent: Vec::new() }
    }

    /// Hands `mail` to the transport and says whether it was accepted.
    pub fn send(&mut self, mail: VerificationMail) -> (accepted: bool)
        ensures
            accepted == old(self).reachable,
            final(self).reachable == old(self).reachable,
            sent_mails(*final(self)) == (if accepted {
                sent_mails(*old(self)).push(mail@)
            } else {
                sent_mails(*old(self))
            }),
    {
        if self.reachable {
            let ghost before = sent_mails(*self);
            self.sent.push(mail);
            assert(sent_mails(*self) =~= before.push(mail@));
            true
        } else {
            false
        }
    }
}

/// The credential store: the accounts in insertion order.
pub struct CredentialStore {
    users: Vec<UserProfile>,
}

impl View for CredentialStore {
    type V = Seq<UserProfileView>;

    closed spec fn view(&self) -> Seq<UserProfileView> {
        Seq::new(self.users@.len(), |i: int| self.users@[i]@)
    }
}

impl CredentialStore {
    /// A store without accounts.
    pub fn new() -> (store: CredentialStore)
        ensures
            users_wf(store@),
            store@.len() == 0,
    {
        CredentialStore { users: Vec::new() }
    }

    /// The account under `email`.
    pub fn find_by_email(&self, email: &str) -> (found: Option<&UserProfile>)
        requires
            users_wf(self@),
        ensures
            option_user(found) == by_email(self@, email@),
    {
        let mut i: usize = 0;
        while i < self.users.len()
            invariant
                users_wf(self@),
                i <= self.users@.len(),
                forall|j: int| 0 <= j < i ==> self@[j].email != email@,
            decreases self.users@.len() - i,
        {
            if same_text(self.users[i].email.as_str(), email) {
                proof {
                    lemma_email_position(self@, i as int);
                }
                return Some(&self.users[i]);
            }
            i += 1;
        }
        None
    }

    /// Inserts `user` as a new, inactive account and hands out its row.
    pub fn insert(&mut self, user: NewUser) -> (outcome: InsertOutcome)
        requires
            users_wf(old(self)@),
        ensures
            users_wf(final(self)@),
            match insert_outcome(old(self)@, user.name@, user.email@, user.password_hash@) {
                Ok(row) => outcome matches InsertOutcome::Inserted(got) && got@ == row
                    && final(self)@ == old(self)@.push(row),
                Err(e) => final(self)@ == old(self)@ && (if e == AuthError::UserAlreadyExists {
                    outcome is UniqueViolation
                } else {
                    outcome is Failed
                }),
            },
    {
        if self.find_by_email(user.email.as_str()).is_some() {
            return InsertOutcome::UniqueViolation;
        }
        let n: usize = self.users.len();
        if n >= 2147483647 {
            return InsertOutcome::Failed;
        }
        let row = UserProfile {
            id: (n + 1) as i32,
            name: user.name,
            email: user.email,
            active: false,
            password_hash: user.password_hash,
        };
        let copy = row.duplicate();
        let ghost before = self@;
        self.users.push(row);
        assert(self@ =~= before.push(copy@));
        assert forall|i: int, j: int| 0 <= i < j < self@.len() implies (#[trigger] self@[i]).email
            != (#[trigger] self@[j]).email by {
            if j < before.len() {
                assert(self@[i] == before[i] && self@[j] == before[j]);
            } else {
                assert(self@[i] == before[i]);
            }
        }
        InsertOutcome::Inserted(copy)
    }

    /// Takes back the most recent insert.
    fn undo_insert(&mut self)
        requires
            old(self)@.len() > 0,
        ensures
            final(self)@ == old(self)@.drop_last(),
    {
        self.users.pop();
        assert(self@ =~= old(self)@.drop_last());
    }

    /// Sets the active flag of the account under `email` and hands out the row as
    /// it stands then.
    fn activate(&mut self, email: &str) -> (row: Option<UserProfile>)
        requires
            users_wf(old(self)@),
        ensures
            users_wf(final(self)@),
            match by_email(old(self)@, email@) {
                Some(user) => row matches Some(got) && got@ == activated(user) && final(self)@
                    == old(self)@.update(email_position(old(self)@, email@), activated(user)),
                None => row is None && final(self)@ == old(self)@,
            },
    {
        let mut i: usize = 0;
        while i < self.users.len()
            invariant
                users_wf(self@),
                self@ == old(self)@,
                i <= self.users@.len(),
                forall|j: int| 0 <= j < i ==> self@[j].email != email@,
            decreases self.users@.len() - i,
        {
            if same_text(self.users[i].email.as_str(), email) {
                proof {
                    lemma_email_position(self@, i as int);
                }
                let ghost before = self@;
                let mut row = self.users[i].duplicate();
                row.active = true;
                let copy = row.duplicate();
                self.users.set(i, row);
                assert(self@ =~= before.update(i as int, activated(before[i as int])));
                assert forall|a: int, b: int| 0 <= a < b < self@.len() implies (
                #[trigger] self@[a]).email != (#[trigger] self@[b]).email by {
                    assert(self@[a].email == before[a].email);
                    assert(self@[b].email == before[b].email);
                }
                return Some(copy);
            }
            i += 1;
        }
        None
    }

    /// The number of accounts whose email is among `emails`.
    pub fn count_known(&self, emails: &Vec<String>) -> (count: i64)
        requires
            users_wf(self@),
        ensures
            count == known_count(self@, texts(emails@)),
    {
        let mut count: i64 = 0;
        let mut i: usize = 0;
        assert(self@.take(0) =~= Seq::empty());
        while i < self.users.len()
            invariant
                users_wf(self@),
                i <= self.users@.len(),
                count == known_count(self@.take(i as int), texts(emails@)),
                0 <= count <= i,
            decreases self.users@.len() - i,
        {
            assert(self@.take(i + 1).drop_last() =~= self@.take(i as int));
            assert(self@.take(i + 1).last() == self@[i as int]);
            if contains_email(emails, self.users[i].email.as_str()) {
                count += 1;
            }
            i += 1;
        }
        assert(self@.take(i as int) =~= self@);
        count
    }

    /// The number of accounts.
    pub fn len(&self) -> (n: usize)
        ensures
            n == self@.len(),
    {
        self.users.len()
    }

    /// Logs in with `payload`. On success the access token is a fresh token for
    /// the account under the payload's email; the store is only read.
    pub fn login(&self, payload: &AuthPayload, now: u64, keys: &Keys) -> (reply: Result<
        AuthBody,
        AuthError,
    >)
        requires
            users_wf(self@),
        ensures
            match reply {
                Ok(body) => {
                    &&& login_outcome(
                        payload.email@,
                        payload.password@,
                        by_email(self@, payload.email@),
                        now as int,
                        keys@,
                    ) == Ok::<Seq<char>, AuthError>(body.access_token@)
                    &&& body.token_type@ == TOKEN_TYPE@
                    &&& by_email(self@, payload.email@) matches Some(user) && is_token_for(
                        body.access_token@,
                        user,
                        now as int,
                        keys@,
                    )
                },
                Err(e) => login_outcome(
                    payload.email@,
                    payload.password@,
                    by_email(self@, payload.email@),
                    now as int,
                    keys@,
                ) == Err::<Seq<char>, AuthError>(e),
            },
    {
        let found = self.find_by_email(payload.email.as_str());
        login(payload, found, now, keys)
    }

    /// Registers an account whose password was hashed as `hashed`, and sends the
    /// verification mail through `outbox`. The account is kept only where every
    /// step succeeded; otherwise the store is as it was.
    pub fn register_hashed(
        &mut self,
        outbox: &mut Outbox,
        payload: RegisterAuthPayload,
        hashed: Option<String>,
        now: u64,
        keys: &Keys,
    ) -> (reply: Result<ResponseBody, AuthError>)
        requires
            users_wf(old(self)@),
        ensures
            users_wf(final(self)@),
            final(outbox).reachable == old(outbox).reachable,
            final(self)@ == after_registration(
                old(self)@,
                payload.name@,
                payload.email@,
                payload.password@,
                option_chars(hashed),
                now as int,
                keys@,
                old(outbox).reachable,
            ),
            match registration_outcome(
                old(self)@,
                payload.name@,
                payload.email@,
                payload.password@,
                option_chars(hashed),
                now as int,
                keys@,
                old(outbox).reachable,
            ) {
                Ok(mail) => reply matches Ok(body) && body.message@ == REGISTERED_MESSAGE@
                    && sent_mails(*final(outbox)) == sent_mails(*old(outbox)).push(mail),
                Err(e) => reply matches Err(got) && got == e && sent_mails(*final(outbox))
                    == sent_mails(*old(outbox)),
            },
    {
        let user = new_user(payload, hashed)?;
        let outcome = self.insert(user);
        let mail = match after_user_insert(outcome, now, keys) {
            Ok(mail) => mail,
            Err(e) => {
                if e == AuthError::TokenCreation {
                    self.undo_insert();
                    assert(self@ =~= old(self)@);
                }
                return Err(e);
            },
        };
        if let Err(e) = mail_outcome(outbox.send(mail)) {
            self.undo_insert();
            assert(self@ =~= old(self)@);
            return Err(e);
        }
        registration_reply(true)
    }

    /// Registers an account: hashes the password at the work factor `cost` and
    /// goes on as `register_hashed` does with the hash. The hash is salted at
    /// random, so the contract speaks of some hash that the password matches.
    pub fn register(
        &mut self,
        outbox: &mut Outbox,
        payload: RegisterAuthPayload,
        cost: u32,
        now: u64,
        keys: &Keys,
    ) -> (reply: Result<ResponseBody, AuthError>)
        requires
            users_wf(old(self)@),
        ensures
            users_wf(final(self)@),
            final(outbox).reachable == old(outbox).reachable,
            exists|hashed: Option<Seq<char>>|
                {
                    &&& hashed matches Some(text) ==> password_verdict(payload.password@, text)
                        == Some(true)
                    &&& final(self)@ == #[trigger] after_registration(
                        old(self)@,
                        payload.name@,
                        payload.email@,
                        payload.password@,
                        hashed,
                        now as int,
                        keys@,
                        old(outbox).reachable,
                    )
                    &&& match registration_outcome(
                        old(self)@,
                        payload.name@,
                        payload.email@,
                        payload.password@,
                        hashed,
                        now as int,
                        keys@,
                        old(outbox).reachable,
                    ) {
                        Ok(mail) => reply matches Ok(body) && body.message@ == REGISTERED_MESSAGE@
                            && sent_mails(*final(outbox)) == sent_mails(*old(outbox)).push(mail),
                        Err(e) => reply matches Err(got) && got == e && sent_mails(*final(outbox))
                            == sent_mails(*old(outbox)),
                    }
                },
    {
        let hashed = bcrypt_hash(payload.password.as_str(), cost);
        let ghost witness = option_chars(hashed);
        let reply = self.register_hashed(outbox, payload, hashed, now, keys);
        assert(self@ == after_registration(
            old(self)@,
            payload.name@,
            payload.email@,
            payload.password@,
            witness,
            now as int,
            keys@,
            old(outbox).reachable,
        ));
        reply
    }

    /// Sends a new verification mail to the account under the payload's email.
    /// Exactly one mail goes out where the request succeeds, none where it fails.
    pub fn send_verification(
        &self,
        outbox: &mut Outbox,
        payload: &VerificationRequestPayload,
        now: u64,
        keys: &Keys,
    ) -> (reply: Result<ResponseBody, AuthError>)
        requires
            users_wf(self@),
        ensures
            final(outbox).reachable == old(outbox).reachable,
            match verification_request_outcome(
                payload.email@,
                by_email(self@, payload.email@),
                now as int,
                keys@,
            ) {
                Ok(mail) => if old(outbox).reachable {
                    &&& reply matches Ok(body)
                    &&& body.message@ == verification_sent_message(mail.to)
                    &&& sent_mails(*final(outbox)) == sent_mails(*old(outbox)).push(mail)
                } else {
                    &&& reply matches Err(e)
                    &&& e == AuthError::InternalServerError
                    &&& sent_mails(*final(outbox)) == sent_mails(*old(outbox))
                },
                Err(refusal) => reply matches Err(e) && e == refusal && sent_mails(
                    *final(outbox),
                ) == sent_mails(*old(outbox)),
            },
    {
        let found = self.find_by_email(payload.email.as_str());
        let mail = request_verification(payload, found, now, keys)?;
        let to = mail.to.clone();
        let sent = outbox.send(mail);
        verification_reply(to.as_str(), sent)
    }

    /// Follows a verification link: checks `token`, activates the account under
    /// the token's email, and issues a fresh token for the account as the store
    /// holds it. Activating an active account again changes nothing and succeeds
    /// again. Where no fresh token can be issued the activation is not kept.
    pub fn verify_user(&mut self, token: &str, now: u64, keys: &Keys) -> (location: Result<
        String,
        AuthError,
    >)
        requires
            users_wf(old(self)@),
        ensures
            users_wf(final(self)@),
            final(self)@ == after_activation_of(old(self)@, token@, now as int, keys@),
            match location {
                Ok(text) => activation_outcome(old(self)@, token@, now as int, keys@) == Ok::<
                    Seq<char>,
                    AuthError,
                >(text@),
                Err(e) => activation_outcome(old(self)@, token@, now as int, keys@) == Err::<
                    Seq<char>,
                    AuthError,
                >(e),
            },
    {
        let claims = verify_token(token, now, keys)?;
        let row = match self.find_by_email(claims.email.as_str()) {
            Some(user) => {
                let mut row = user.duplicate();
                row.active = true;
                Some(row)
            },
            None => None,
        };
        let location = after_activation(row.as_ref(), now, keys)?;
        self.activate(claims.email.as_str());
        Ok(location)
    }
}

/// The characters of a string that may be absent.
pub open spec fn option_chars(text: Option<String>) -> Option<Seq<char>> {
    match text {
        Some(t) => Some(t@),
        None => None,
    }
}

} // verus!
