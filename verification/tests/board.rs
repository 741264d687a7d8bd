use sac_backend::auth::RegisterAuthPayload;
use sac_backend::board::Board;
use sac_backend::club_registry::{ClubFull, ClubRegistry};
use sac_backend::credential_store::{CredentialStore, Outbox};
use sac_backend::thread_comment::StatusResponse;
use sac_backend::token::Keys;

fn world() -> (CredentialStore, ClubRegistry) {
    let keys = Keys::new(b"k");
    let mut people = CredentialStore::new();
    let mut outbox = Outbox::new();
    for (name, email) in [("Ann", "ann@example.org"), ("Bob", "bob@example.org"), ("Cy", "cy@example.org")] {
        let payload = RegisterAuthPayload {
            name: name.to_string(),
            email: email.to_string(),
            password: "pw".to_string(),
        };
        people
            .register_hashed(&mut outbox, payload, Some("hash".to_string()), 1, &keys)
            .unwrap();
    }
    let mut registry = ClubRegistry::new();
    registry.add_admin(1);
    registry.create_council(&people, 1, "Culture".to_string(), "ann@example.org".to_string(), Vec::new());
    let club = ClubFull {
        name: "Chess".to_string(),
        email: "chess@example.org".to_string(),
        description: "Board games".to_string(),
        council_name: "Culture".to_string(),
        club_head_emails: vec!["ann@example.org".to_string()],
        phones: vec!["111".to_string()],
    };
    assert!(matches!(registry.create_club(&people, 1, club), StatusResponse::Success));
    registry.join_club(2, 1, None, 5);
    assert!(matches!(
        registry.accept_club_join_application("ann@example.org", 1, 6),
        StatusResponse::Success
    ));
    (people, registry)
}

#[test]
fn plain_members_and_strangers_may_not_create_content() {
    let (_, registry) = world();
    let mut board = Board::new();
    assert_eq!(registry.privilege_level(2, 1), Some(0));
    let r = board.create_thread(&registry, 2, 1, "t".to_string(), "c".to_string(), 10);
    assert_eq!(r.error(), Some("You are not allowed to create threads in this club".to_string()));
    let r = board.create_announcement(&registry, 2, 1, "t".to_string(), "c".to_string(), 10);
    assert_eq!(r.error(), Some("You are not allowed to create announcements in this club".to_string()));
    let r = board.create_event(&registry, 2, 1, "t".to_string(), "d".to_string(), 99, "hall".to_string());
    assert_eq!(r.error(), Some("You are not allowed to create events in this club".to_string()));
    let r = board.create_thread(&registry, 3, 1, "t".to_string(), "c".to_string(), 10);
    assert!(matches!(r, StatusResponse::ServerError));
    let r = board.create_event(&registry, 1, 2, "t".to_string(), "d".to_string(), 99, "hall".to_string());
    assert!(matches!(r, StatusResponse::ServerError));
    assert!(board.threads().is_empty());
    assert!(board.announcements().is_empty());
    assert!(board.announcements_full().is_empty());
    assert!(board.events().is_empty());
}

#[test]
fn heads_create_content_that_the_lists_show() {
    let (_, registry) = world();
    let mut board = Board::new();
    assert_eq!(registry.privilege_level(1, 1), Some(2));
    let r = board.create_thread(&registry, 1, 1, "Opening".to_string(), "e4".to_string(), 10);
    assert!(matches!(r, StatusResponse::Success));
    let r = board.create_thread(&registry, 1, 1, "Endgame".to_string(), "Kf1".to_string(), 11);
    assert!(matches!(r, StatusResponse::Success));
    let threads = board.threads();
    assert_eq!(threads.len(), 2);
    assert_eq!((threads[0].id, threads[1].id), (1, 2));
    assert_eq!(threads[1].title, "Endgame");
    assert_eq!(threads[1].content, "Kf1");
    assert_eq!(threads[1].created_at, 11);
    assert_eq!(threads[1].club_id, 1);
    assert_eq!(threads[1].likes, 0);

    let r = board.create_announcement(&registry, 1, 1, "Meet".to_string(), "Friday".to_string(), 20);
    assert_eq!(r.data(), Some("1".to_string()));
    assert_eq!(r.status_code(), 200);
    let shown = board.announcements();
    assert_eq!(shown.len(), 1);
    assert_eq!(shown[0].title, "Meet");
    assert_eq!(shown[0].content, "Friday");
    assert_eq!(shown[0].created_at, 20);

    let r = board.create_event(&registry, 1, 1, "Open".to_string(), "Rapid".to_string(), 777, "Hall".to_string());
    assert_eq!(r.data(), Some("1".to_string()));
    let r = board.create_event(&registry, 1, 1, "Blitz".to_string(), "Fast".to_string(), 888, "Room".to_string());
    assert_eq!(r.data(), Some("2".to_string()));
    let events = board.events();
    assert_eq!(events.len(), 2);
    assert_eq!(events[0].id, 2);
    assert_eq!(events[0].title, "Blitz");
    assert_eq!(events[0].description, "Fast");
    assert_eq!(events[0].starts_at, 888);
    assert_eq!(events[0].venue, "Room");
    assert_eq!(events[0].user_id, 1);
    assert_eq!(events[1].id, 1);
}

#[test]
fn public_list_shows_the_newest_five() {
    let (_, registry) = world();
    let mut board = Board::new();
    for n in 1..=7 {
        let r = board.create_announcement(&registry, 1, 1, format!("a{}", n), String::new(), n);
        assert_eq!(r.data(), Some(format!("{}", n)));
    }
    let public: Vec<i32> = board.announcements().iter().map(|a| a.id).collect();
    assert_eq!(public, vec![7, 6, 5, 4, 3]);
    let full: Vec<i32> = board.announcements_full().iter().map(|a| a.id).collect();
    assert_eq!(full, vec![7, 6, 5, 4, 3, 2, 1]);
}

#[test]
fn anyone_comments_on_an_existing_thread() {
    let (_, registry) = world();
    let mut board = Board::new();
    board.create_thread(&registry, 1, 1, "Opening".to_string(), "e4".to_string(), 10);
    board.create_thread(&registry, 1, 1, "Endgame".to_string(), "Kf1".to_string(), 11);
    assert!(matches!(board.create_comment(3, 1, "nice".to_string(), 12), StatusResponse::Success));
    assert!(matches!(board.create_comment(2, 2, "hm".to_string(), 13), StatusResponse::Success));
    assert!(matches!(board.create_comment(2, 1, "yes".to_string(), 14), StatusResponse::Success));
    assert!(matches!(board.create_comment(2, 3, "lost".to_string(), 15), StatusResponse::ServerError));
    assert!(matches!(board.create_comment(2, 0, "lost".to_string(), 15), StatusResponse::ServerError));
    let first: Vec<(i32, String)> = board.comments(1).into_iter().map(|c| (c.id, c.content)).collect();
    assert_eq!(first, vec![(1, "nice".to_string()), (3, "yes".to_string())]);
    let second = board.comments(2);
    assert_eq!(second.len(), 1);
    assert_eq!(second[0].user_id, 2);
    assert_eq!(second[0].created_at, 13);
    assert!(board.comments(3).is_empty());
}

#[test]
fn a_user_likes_once() {
    let (_, registry) = world();
    let mut board = Board::new();
    board.create_thread(&registry, 1, 1, "Opening".to_string(), "e4".to_string(), 10);
    board.create_comment(3, 1, "nice".to_string(), 12);
    assert!(matches!(board.like_thread(2, 1), StatusResponse::Success));
    assert_eq!(board.threads()[0].likes, 1);
    let again = board.like_thread(2, 1);
    assert_eq!(again.error(), Some("You already liked this thread".to_string()));
    assert_eq!(board.threads()[0].likes, 1);
    assert!(matches!(board.like_thread(3, 1), StatusResponse::Success));
    assert_eq!(board.threads()[0].likes, 2);
    assert!(matches!(board.like_thread(3, 2), StatusResponse::ServerError));

    assert!(matches!(board.like_comment(2, 1), StatusResponse::Success));
    assert_eq!(board.comments(1)[0].likes, 1);
    let again = board.like_comment(2, 1);
    assert_eq!(again.error(), Some("You already liked this comment".to_string()));
    assert_eq!(board.comments(1)[0].likes, 1);
    assert!(matches!(board.like_comment(2, 9), StatusResponse::ServerError));
}
