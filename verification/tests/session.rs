use recipe_view::error::{Error, Outcome};
use recipe_view::session::validate;
use recipe_view::store::SessionRow;
use recipe_view::time::Timestamp;

fn session(key: &str, user_id: i32, expire_at: i64) -> SessionRow {
    SessionRow { session_key: key.to_string(), user_id, expire_at: Timestamp { micros: expire_at } }
}

fn at(micros: i64) -> Timestamp {
    Timestamp::from_micros(micros)
}

#[test]
fn valid_session_gives_its_user() {
    let sessions = vec![session("other", 9, 1_000), session("abc", 1, 1_000)];
    assert_eq!(validate(&sessions, "abc", at(999)), Ok(1));
}

#[test]
fn unknown_token_is_unauthenticated() {
    let sessions = vec![session("abc", 1, 1_000)];
    assert_eq!(validate(&sessions, "abd", at(0)), Err(Error::Unauthenticated));
    assert_eq!(validate(&sessions, "", at(0)), Err(Error::Unauthenticated));
    assert_eq!(validate(&Vec::new(), "abc", at(0)), Err(Error::Unauthenticated));
}

#[test]
fn expired_session_is_unauthenticated() {
    let sessions = vec![session("abc", 1, 1_000)];
    assert_eq!(validate(&sessions, "abc", at(1_001)), Err(Error::Unauthenticated));
    assert_eq!(validate(&sessions, "abc", at(i64::MAX)), Err(Error::Unauthenticated));
}

#[test]
fn session_that_expires_now_is_unauthenticated() {
    let sessions = vec![session("abc", 1, 1_000)];
    assert_eq!(validate(&sessions, "abc", at(1_000)), Err(Error::Unauthenticated));
    assert_eq!(validate(&sessions, "abc", at(999)), Ok(1));
}

#[test]
fn first_unexpired_session_of_the_token_counts() {
    let sessions = vec![session("abc", 1, 10), session("abc", 2, 100), session("abc", 3, 200)];
    assert_eq!(validate(&sessions, "abc", at(50)), Ok(2));
    assert_eq!(validate(&sessions, "abc", at(150)), Ok(3));
    assert_eq!(validate(&sessions, "abc", at(5)), Ok(1));
    assert_eq!(validate(&sessions, "abc", at(200)), Err(Error::Unauthenticated));
}

#[test]
fn errors_map_to_outcomes() {
    assert_eq!(Error::Unauthenticated.outcome(), Outcome::AccessDenied);
    assert_eq!(Error::NoRecipeAvailable.outcome(), Outcome::NothingToShow);
    assert_eq!(Error::Inconsistent.outcome(), Outcome::InternalFailure);
    assert_eq!(Error::StorageUnavailable.outcome(), Outcome::TemporarilyUnavailable);
}

#[test]
fn only_a_failed_read_may_be_tried_again() {
    assert!(Error::StorageUnavailable.is_retryable());
    assert!(!Error::Unauthenticated.is_retryable());
    assert!(!Error::NoRecipeAvailable.is_retryable());
    assert!(!Error::Inconsistent.is_retryable());
}

#[test]
fn timestamps_compare_by_micros() {
    assert!(at(2).is_after(&at(1)));
    assert!(!at(1).is_after(&at(1)));
    assert!(!at(-5).is_after(&at(1)));
    assert_eq!(at(7), Timestamp { micros: 7 });
}
