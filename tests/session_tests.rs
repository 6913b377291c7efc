use session_guard::cache::UserState;
use session_guard::session::{apply_policy, authorize, AuthStep, SessionAuthority};
use session_guard::tokens::{AuthError, TokenHandler};

const NOW: i64 = 1_700_000_000;

fn st(uid: i64, verified: bool) -> UserState {
    UserState { uid, email_verified: verified }
}

fn ticket_of(step: AuthStep) -> u64 {
    match step {
        AuthStep::Load(_, t) => t,
        AuthStep::Done(r) => panic!("expected a load, got {:?}", r),
    }
}

#[test]
fn policy_outcomes() {
    assert_eq!(apply_policy(5, None), Err(AuthError::UnknownSubject));
    assert_eq!(apply_policy(5, Some(st(5, false))), Err(AuthError::EmailNotVerified));
    assert_eq!(apply_policy(5, Some(st(5, true))), Ok(5));
}

#[test]
fn cache_miss_asks_for_record_then_caches_it() {
    let mut a = SessionAuthority::new(10);
    let t = ticket_of(a.authorize_subject(8));
    assert_eq!(t, 0);
    assert!(matches!(a.complete_load(8, t, Ok(Some(st(8, true)))), AuthStep::Done(Ok(8))));
    assert!(matches!(a.authorize_subject(8), AuthStep::Done(Ok(8))));
}

#[test]
fn load_failure_is_storage_error() {
    let mut a = SessionAuthority::new(10);
    assert!(matches!(a.complete_load(8, 0, Err(())), AuthStep::Done(Err(AuthError::StorageError))));
    assert!(matches!(a.complete_load(8, 0, Ok(None)), AuthStep::Done(Err(AuthError::UnknownSubject))));
    assert!(matches!(a.authorize_subject(8), AuthStep::Load(8, 0)));
}

#[test]
fn unverified_subject_rejected_from_cache() {
    let mut a = SessionAuthority::new(10);
    assert!(matches!(
        a.complete_load(8, 0, Ok(Some(st(8, false)))),
        AuthStep::Done(Err(AuthError::EmailNotVerified))
    ));
    assert!(matches!(a.authorize_subject(8), AuthStep::Done(Err(AuthError::EmailNotVerified))));
}

#[test]
fn verification_then_invalidation_admits_subject() {
    let mut a = SessionAuthority::new(10);
    a.complete_load(8, 0, Ok(Some(st(8, false))));
    a.invalidate_user(8);
    assert_eq!(a.epoch(8), 1);
    let t = ticket_of(a.authorize_subject(8));
    assert_eq!(t, 1);
    assert!(matches!(a.complete_load(8, t, Ok(Some(st(8, true)))), AuthStep::Done(Ok(8))));
    assert!(matches!(a.authorize_subject(8), AuthStep::Done(Ok(8))));
}

#[test]
fn load_overlapping_invalidation_is_not_cached() {
    let mut a = SessionAuthority::new(10);
    let stale_ticket = ticket_of(a.authorize_subject(8));
    a.invalidate_user(8);
    let again = a.complete_load(8, stale_ticket, Ok(Some(st(8, false))));
    assert!(matches!(again, AuthStep::Load(8, 1)));
    assert!(matches!(a.authorize_subject(8), AuthStep::Load(8, 1)));
    assert!(matches!(a.complete_load(8, 1, Ok(Some(st(8, true)))), AuthStep::Done(Ok(8))));
    assert!(matches!(a.authorize_subject(8), AuthStep::Done(Ok(8))));
}

#[test]
fn authorize_full_flow() {
    let mut tokens = TokenHandler::new();
    let mut a = SessionAuthority::new(10);
    let c = tokens.generate_token(21, NOW);
    assert!(matches!(authorize(&tokens, &mut a, Some(c), NOW + 1), AuthStep::Load(21, 0)));
    assert!(matches!(a.complete_load(21, 0, Ok(Some(st(21, true)))), AuthStep::Done(Ok(21))));
    assert!(matches!(authorize(&tokens, &mut a, Some(c), NOW + 2), AuthStep::Done(Ok(21))));
    assert!(matches!(authorize(&tokens, &mut a, None, NOW + 2), AuthStep::Done(Err(AuthError::Malformed))));
    tokens.destroy_all_tokens(21);
    assert!(matches!(
        authorize(&tokens, &mut a, Some(c), NOW + 3),
        AuthStep::Done(Err(AuthError::Revoked))
    ));
}
