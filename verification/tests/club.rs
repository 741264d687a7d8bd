use sac_backend::auth::RegisterAuthPayload;
use sac_backend::club::{
    club_creation_gate, club_heads, emails_all_known, emails_gate,
    end_acceptance, head_not_found, join_gate, require_club_head, Role, UnitEnd, HEAD_PRIVILEGE,
    MEMBER_PRIVILEGE,
};
use sac_backend::club_registry::{ClubFull, ClubRegistry, ClubUpdate, CouncilUpdate};
use sac_backend::credential_store::{CredentialStore, Outbox};
use sac_backend::text::contains_email;
use sac_backend::thread_comment::StatusResponse;
use sac_backend::token::Keys;

fn list(items: &[&str]) -> Vec<String> {
    items.iter().map(|s| s.to_string()).collect()
}

fn users(emails: &[&str]) -> CredentialStore {
    let keys = Keys::new(b"k");
    let mut store = CredentialStore::new();
    let mut outbox = Outbox::new();
    for email in emails {
        let payload = RegisterAuthPayload {
            name: format!("user of {}", email),
            email: email.to_string(),
            password: "pw".to_string(),
        };
        store
            .register_hashed(&mut outbox, payload, Some("hash".to_string()), 1, &keys)
            .unwrap();
    }
    store
}

fn chess(heads: &[&str]) -> ClubFull {
    ClubFull {
        name: "Chess".to_string(),
        email: "chess@example.org".to_string(),
        description: "Board games".to_string(),
        council_name: "Culture".to_string(),
        club_head_emails: list(heads),
        phones: list(&["111", "222"]),
    }
}

fn registry_with_club(people: &CredentialStore) -> ClubRegistry {
    let mut registry = ClubRegistry::new();
    registry.add_admin(1);
    let made = registry.create_council(
        people,
        1,
        "Culture".to_string(),
        "ann@example.org".to_string(),
        list(&["bob@example.org"]),
    );
    assert!(matches!(made, StatusResponse::Success));
    let made = registry.create_club(people, 1, chess(&["ann@example.org", "bob@example.org"]));
    assert!(matches!(made, StatusResponse::Success));
    registry
}

#[test]
fn roles_have_their_label_and_level() {
    assert_eq!(Role::Head.label(), "head");
    assert_eq!(Role::Member.label(), "member");
    assert_eq!(HEAD_PRIVILEGE, 2);
    assert_eq!(MEMBER_PRIVILEGE, 0);
}

#[test]
fn head_check_looks_for_the_email() {
    let heads = list(&["ann@example.org", "bob@example.org"]);
    assert!(contains_email(&heads, "bob@example.org"));
    assert!(!contains_email(&heads, "Bob@example.org"));
    assert!(!contains_email(&list(&[]), "bob@example.org"));
    assert!(require_club_head(Some(&heads), "ann@example.org").is_ok());
    let refused = require_club_head(Some(&heads), "eve@example.org").unwrap_err();
    assert_eq!(refused.status_code(), 400);
    assert_eq!(refused.error(), Some("You are not a club head".to_string()));
    let missing = require_club_head(None, "ann@example.org").unwrap_err();
    assert!(matches!(missing, StatusResponse::ServerError));
}

#[test]
fn emails_are_known_where_the_counts_agree() {
    assert!(emails_all_known(0, 0));
    assert!(emails_all_known(2, 2));
    assert!(!emails_all_known(1, 2));
    assert!(!emails_all_known(3, 2));
    assert!(!emails_all_known(-1, 0));
    assert!(emails_gate(Some(true)).is_ok());
    assert_eq!(
        emails_gate(Some(false)).unwrap_err().error(),
        Some("One or more emails are not valid".to_string())
    );
    assert!(matches!(emails_gate(None).unwrap_err(), StatusResponse::ServerError));
}

#[test]
fn members_do_not_apply_again() {
    assert!(join_gate(Some(0)).is_ok());
    assert_eq!(
        join_gate(Some(1)).unwrap_err().error(),
        Some("You are already a member of this club".to_string())
    );
    assert!(matches!(join_gate(None).unwrap_err(), StatusResponse::ServerError));
}

#[test]
fn acceptance_commits_only_both_writes() {
    let (end, answer) = end_acceptance(Some(4), true);
    assert_eq!(end, UnitEnd::Commit);
    assert!(matches!(answer, StatusResponse::Success));
    let (end, answer) = end_acceptance(Some(4), false);
    assert_eq!(end, UnitEnd::Rollback);
    assert!(matches!(answer, StatusResponse::ServerError));
    let (end, answer) = end_acceptance(None, false);
    assert_eq!(end, UnitEnd::Rollback);
    assert!(matches!(answer, StatusResponse::ServerError));
    let (end, _) = end_acceptance(None, true);
    assert_eq!(end, UnitEnd::Rollback);
}

#[test]
fn club_creation_is_gated_in_order() {
    assert_eq!(club_creation_gate(Some(true), Some(Some(3)), Some(true)).unwrap(), 3);
    let not_admin = club_creation_gate(Some(false), Some(None), Some(false)).unwrap_err();
    assert_eq!(not_admin.error(), Some("You are not an admin".to_string()));
    let no_council = club_creation_gate(Some(true), Some(None), Some(false)).unwrap_err();
    assert_eq!(no_council.error(), Some("Council not found".to_string()));
    let bad_heads = club_creation_gate(Some(true), Some(Some(3)), Some(false)).unwrap_err();
    assert_eq!(bad_heads.error(), Some("Club Heads email is not valid".to_string()));
    assert!(matches!(
        club_creation_gate(None, Some(Some(3)), Some(true)).unwrap_err(),
        StatusResponse::ServerError
    ));
    assert!(matches!(
        club_creation_gate(Some(true), None, Some(true)).unwrap_err(),
        StatusResponse::ServerError
    ));
    assert!(matches!(
        club_creation_gate(Some(true), Some(Some(3)), None).unwrap_err(),
        StatusResponse::ServerError
    ));
    assert_eq!(
        head_not_found("zed@example.org").error(),
        Some("Failed to find user with email zed@example.org".to_string())
    );
}

#[test]
fn heads_are_paired_with_phones() {
    let accounts = vec![
        ("Ann".to_string(), "ann@example.org".to_string()),
        ("Bob".to_string(), "bob@example.org".to_string()),
        ("Cy".to_string(), "cy@example.org".to_string()),
    ];
    let heads = club_heads(&accounts, &list(&["111", "222"]));
    assert_eq!(heads.len(), 2);
    assert_eq!(heads[0].name, "Ann");
    assert_eq!(heads[0].email, "ann@example.org");
    assert_eq!(heads[0].contact_number, "111");
    assert_eq!(heads[1].name, "Bob");
    assert_eq!(heads[1].contact_number, "222");
    assert!(club_heads(&accounts, &list(&[])).is_empty());
    assert_eq!(club_heads(&accounts[..1].to_vec(), &list(&["1", "2", "3"])).len(), 1);
}

#[test]
fn club_creation_makes_heads_members() {
    let people = users(&["ann@example.org", "bob@example.org", "cy@example.org"]);
    let registry = registry_with_club(&people);
    assert!(registry.is_admin(1));
    assert!(!registry.is_admin(2));
    assert_eq!(registry.find_council("Culture"), Some(1));
    assert_eq!(registry.find_council("Sports"), None);
    assert_eq!(registry.privilege_level(1, 1), Some(2));
    assert_eq!(registry.privilege_level(2, 1), Some(2));
    assert_eq!(registry.privilege_level(3, 1), None);
    assert_eq!(registry.privilege_level(1, 2), None);
    assert_eq!(registry.membership_count(1, 1), 1);
    assert_eq!(registry.membership_count(3, 1), 0);
}

#[test]
fn club_creation_is_refused_as_a_whole() {
    let people = users(&["ann@example.org", "bob@example.org"]);
    let mut registry = ClubRegistry::new();
    let r = registry.create_club(&people, 1, chess(&["ann@example.org"]));
    assert_eq!(r.error(), Some("You are not an admin".to_string()));
    registry.add_admin(1);
    let r = registry.create_club(&people, 1, chess(&["ann@example.org"]));
    assert_eq!(r.error(), Some("Council not found".to_string()));
    let r = registry.create_council(&people, 2, "Culture".to_string(), "a".to_string(), list(&[]));
    assert_eq!(r.error(), Some("You are not an admin".to_string()));
    let r = registry.create_council(&people, 1, "Culture".to_string(), "a".to_string(), list(&["zed@example.org"]));
    assert_eq!(r.error(), Some("Deputy Seceretaries email is not valid".to_string()));
    let r = registry.create_council(&people, 1, "Culture".to_string(), "a".to_string(), list(&[]));
    assert!(matches!(r, StatusResponse::Success));
    let r = registry.create_club(&people, 1, chess(&["ann@example.org", "zed@example.org"]));
    assert_eq!(r.error(), Some("Club Heads email is not valid".to_string()));
    let r = registry.create_club(&people, 1, chess(&["ann@example.org", "ann@example.org"]));
    assert_eq!(r.error(), Some("Club Heads email is not valid".to_string()));
    assert_eq!(registry.privilege_level(1, 1), None);
    let r = registry.create_club(&people, 1, chess(&[]));
    assert!(matches!(r, StatusResponse::Success));
    let r = registry.create_club(&people, 1, chess(&["bob@example.org"]));
    assert!(matches!(r, StatusResponse::Success));
    assert_eq!(registry.privilege_level(2, 2), Some(2));
    assert_eq!(registry.privilege_level(2, 1), None);
}

#[test]
fn accepted_application_makes_one_member() {
    let people = users(&["ann@example.org", "bob@example.org", "cy@example.org"]);
    let mut registry = registry_with_club(&people);
    assert_eq!(registry.privilege_level(3, 1), None);
    let filed = registry.join_club(3, 1, Some("please".to_string()), 1000);
    assert!(matches!(filed, StatusResponse::Success));
    let listed = registry.view_club_application("ann@example.org", 1).unwrap();
    assert_eq!(listed.len(), 1);
    assert_eq!(listed[0].id, 1);
    assert_eq!(listed[0].user_id, 3);
    assert_eq!(listed[0].club_id, 1);
    assert_eq!(listed[0].message, Some("please".to_string()));
    assert_eq!(listed[0].created_at, 1000);
    assert!(!listed[0].accepted);
    assert_eq!(listed[0].accepted_at, None);
    assert_eq!(registry.privilege_level(3, 1), None);

    let refused = registry.accept_club_join_application("cy@example.org", 1, 2000);
    assert_eq!(refused.error(), Some("You are not a club head".to_string()));
    assert_eq!(registry.privilege_level(3, 1), None);
    assert!(!registry.view_club_application("ann@example.org", 1).unwrap()[0].accepted);

    let accepted = registry.accept_club_join_application("bob@example.org", 1, 2000);
    assert!(matches!(accepted, StatusResponse::Success));
    assert_eq!(registry.privilege_level(3, 1), Some(0));
    assert_eq!(registry.membership_count(3, 1), 1);
    let listed = registry.view_club_application("ann@example.org", 1).unwrap();
    assert!(listed[0].accepted);
    assert_eq!(listed[0].accepted_at, Some(2000));

    let again = registry.accept_club_join_application("bob@example.org", 1, 3000);
    assert!(matches!(again, StatusResponse::ServerError));
    assert_eq!(registry.membership_count(3, 1), 1);
    let listed = registry.view_club_application("ann@example.org", 1).unwrap();
    assert_eq!(listed[0].accepted_at, Some(2000));
}

#[test]
fn application_of_a_member_stays_unaccepted() {
    let people = users(&["ann@example.org", "bob@example.org", "cy@example.org"]);
    let mut registry = registry_with_club(&people);
    registry.join_club(3, 1, None, 10);
    registry.join_club(3, 1, None, 20);
    assert!(matches!(registry.accept_club_join_application("ann@example.org", 1, 30), StatusResponse::Success));
    let second = registry.accept_club_join_application("ann@example.org", 2, 40);
    assert!(matches!(second, StatusResponse::ServerError));
    let listed = registry.view_club_application("ann@example.org", 1).unwrap();
    assert_eq!(listed.len(), 2);
    assert!(listed[0].accepted);
    assert!(!listed[1].accepted);
    assert_eq!(listed[1].accepted_at, None);
    assert_eq!(registry.membership_count(3, 1), 1);
}

#[test]
fn joining_needs_a_club_and_no_membership() {
    let people = users(&["ann@example.org", "bob@example.org", "cy@example.org"]);
    let mut registry = registry_with_club(&people);
    let member = registry.join_club(1, 1, None, 10);
    assert_eq!(member.error(), Some("You are already a member of this club".to_string()));
    assert!(matches!(registry.join_club(3, 2, None, 10), StatusResponse::ServerError));
    assert!(matches!(registry.join_club(3, 0, None, 10), StatusResponse::ServerError));
    assert!(registry.view_club_application("ann@example.org", 1).unwrap().is_empty());
    let stranger = registry.view_club_application("cy@example.org", 1).unwrap_err();
    assert_eq!(stranger.error(), Some("You are not a club head".to_string()));
    assert!(matches!(
        registry.view_club_application("ann@example.org", 2).unwrap_err(),
        StatusResponse::ServerError
    ));
    assert!(matches!(
        registry.accept_club_join_application("ann@example.org", 1, 5),
        StatusResponse::ServerError
    ));
    assert!(matches!(
        registry.accept_club_join_application("ann@example.org", 0, 5),
        StatusResponse::ServerError
    ));
}

#[test]
fn only_admins_read_admin_lists() {
    assert_eq!(sac_backend::club::for_admins(true, vec![1, 2, 3]), vec![1, 2, 3]);
    assert_eq!(sac_backend::club::for_admins(false, vec![1, 2, 3]), Vec::<i32>::new());
    assert_eq!(sac_backend::club::for_admins(true, Vec::<i32>::new()), Vec::<i32>::new());
}

#[test]
fn club_update_changes_the_named_club() {
    let people = users(&["ann@example.org", "bob@example.org", "cy@example.org"]);
    let mut registry = registry_with_club(&people);
    let mut second = chess(&["cy@example.org"]);
    second.name = "Go".to_string();
    assert!(matches!(registry.create_club(&people, 1, second), StatusResponse::Success));

    let r = registry.update_club(&people, "Chess", ClubUpdate::UpdateDescription("Kings".to_string()));
    assert!(matches!(r, StatusResponse::Success));
    assert_eq!(registry.club(1).unwrap().description, "Kings");
    assert_eq!(registry.club(2).unwrap().description, "Board games");
    assert_eq!(registry.club(1).unwrap().name, "Chess");
    assert_eq!(registry.club(1).unwrap().id, 1);

    let r = registry.update_club(&people, "Go", ClubUpdate::UpdateEmail("go@example.org".to_string()));
    assert!(matches!(r, StatusResponse::Success));
    assert_eq!(registry.club(2).unwrap().email, "go@example.org");
    assert_eq!(registry.club(1).unwrap().email, "chess@example.org");

    let r = registry.update_club(&people, "Chess", ClubUpdate::UpdatePhones(list(&["999"])));
    assert!(matches!(r, StatusResponse::Success));
    assert_eq!(registry.club(1).unwrap().phones, list(&["999"]));

    let r = registry.update_club(&people, "Chess", ClubUpdate::UpdateHeads(list(&["cy@example.org"])));
    assert!(matches!(r, StatusResponse::Success));
    assert_eq!(registry.club(1).unwrap().club_head_emails, list(&["cy@example.org"]));
    let r = registry.update_club(&people, "Chess", ClubUpdate::UpdateHeads(list(&["zed@example.org"])));
    assert_eq!(r.error(), Some("One or more emails are not valid".to_string()));
    assert_eq!(registry.club(1).unwrap().club_head_emails, list(&["cy@example.org"]));

    let r = registry.update_club(&people, "Nobody", ClubUpdate::UpdateDescription("x".to_string()));
    assert!(matches!(r, StatusResponse::Success));
    assert_eq!(registry.club(1).unwrap().description, "Kings");
    assert!(registry.club(3).is_none());
    assert!(registry.club(0).is_none());
}

#[test]
fn council_update_checks_new_deputies() {
    let people = users(&["ann@example.org", "bob@example.org"]);
    let mut registry = registry_with_club(&people);
    let r = registry.update_council(
        &people,
        "Culture",
        CouncilUpdate::UpdateSeceratary("bob@example.org".to_string()),
    );
    assert!(matches!(r, StatusResponse::Success));
    let r = registry.update_council(
        &people,
        "Culture",
        CouncilUpdate::UpdateDeputySeceretaries(list(&["ann@example.org"])),
    );
    assert!(matches!(r, StatusResponse::Success));
    let r = registry.update_council(
        &people,
        "Culture",
        CouncilUpdate::UpdateDeputySeceretaries(list(&["zed@example.org"])),
    );
    assert_eq!(r.error(), Some("One or more emails are not valid".to_string()));
    assert_eq!(registry.find_council("Culture"), Some(1));
}
