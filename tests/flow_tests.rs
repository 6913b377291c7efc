use session_guard::accounts::PasswordError;
use session_guard::cache::UserState;
use session_guard::codes::{CodeCheck, CodeStorage, CodeStore};
use session_guard::flows::{
    check_password_reset, email_verification_recorded, password_change_recorded,
    request_email_verification_code, request_password_reset_code, CodeRequestError, ResetError,
};
use session_guard::session::{AuthStep, SessionAuthority};
use session_guard::tokens::TOKEN_LIFETIME_SECS;

const T0: u64 = 1_700_000_000;

fn st(uid: i64, verified: bool) -> UserState {
    UserState { uid, email_verified: verified }
}

#[test]
fn verified_user_gets_no_verification_code() {
    let mut a = SessionAuthority::new(4);
    let mut codes = CodeStore::new();
    a.complete_load(1, 0, Ok(Some(st(1, false))));
    assert_eq!(
        request_email_verification_code(&mut a, &mut codes, st(1, true), T0),
        Err(CodeRequestError::AlreadyVerified)
    );
    assert!(matches!(a.authorize_subject(1), AuthStep::Load(1, 1)));
    assert!(!CodeStorage::EmailVerificationCodes.has_pending_code(&codes, 1));
}

#[test]
fn verification_code_throttled() {
    let mut a = SessionAuthority::new(4);
    let mut codes = CodeStore::new();
    let code = request_email_verification_code(&mut a, &mut codes, st(1, false), T0).unwrap();
    assert_eq!(CodeStorage::EmailVerificationCodes.get_code(&mut codes, 1, T0), Some(code));
    assert_eq!(
        request_email_verification_code(&mut a, &mut codes, st(1, false), T0 + 30),
        Err(CodeRequestError::RetryAfter(30))
    );
}

#[test]
fn reset_code_needs_verified_email() {
    let mut codes = CodeStore::new();
    assert_eq!(
        request_password_reset_code(&mut codes, st(2, false), T0),
        Err(CodeRequestError::EmailNotVerified)
    );
    let code = request_password_reset_code(&mut codes, st(2, true), T0).unwrap();
    assert_eq!(CodeStorage::PasswordResetCodes.get_code(&mut codes, 2, T0), Some(code));
    assert_eq!(
        request_password_reset_code(&mut codes, st(2, true), T0 + 1),
        Err(CodeRequestError::RetryAfter(59))
    );
}

#[test]
fn redeem_outcomes() {
    let mut codes = CodeStore::new();
    let p = CodeStorage::EmailVerificationCodes;
    assert_eq!(p.redeem(&mut codes, 3, 123456, T0), CodeCheck::NonePending);
    p.insert_code(&mut codes, 3, 123456, T0);
    assert_eq!(p.redeem(&mut codes, 3, 654321, T0), CodeCheck::Mismatch);
    assert_eq!(p.redeem(&mut codes, 3, 123456, T0), CodeCheck::Accepted);
    assert_eq!(p.redeem(&mut codes, 3, 123456, T0), CodeCheck::NonePending);
}

#[test]
fn password_reset_checks_code_then_password() {
    let mut codes = CodeStore::new();
    let p = CodeStorage::PasswordResetCodes;
    assert_eq!(check_password_reset(&mut codes, 7, 111111, "Abcdef1!", T0), Err(ResetError::NonePending));
    p.insert_code(&mut codes, 7, 111111, T0);
    assert_eq!(check_password_reset(&mut codes, 7, 222222, "weak", T0), Err(ResetError::WrongCode));
    assert_eq!(
        check_password_reset(&mut codes, 7, 111111, "weak", T0),
        Err(ResetError::WeakPassword(PasswordError::TooShort))
    );
    assert_eq!(check_password_reset(&mut codes, 7, 111111, "Abcdef1!", T0), Ok(()));
    assert_eq!(p.get_code(&mut codes, 7, T0), Some(111111));
    assert_eq!(
        check_password_reset(&mut codes, 7, 111111, "Abcdef1!", T0 + 601),
        Err(ResetError::NonePending)
    );
    assert!(!p.has_pending_code(&codes, 7));
}

#[test]
fn recorded_verification_drops_cache_and_mints_claims() {
    let mut a = SessionAuthority::new(4);
    a.complete_load(5, 0, Ok(Some(st(5, false))));
    let c = email_verification_recorded(&mut a, 5, 1_700_000_000);
    assert!(matches!(a.authorize_subject(5), AuthStep::Load(5, 1)));
    assert_eq!(c.user_id, 5);
    assert_eq!(c.exp, 1_700_000_000 + TOKEN_LIFETIME_SECS);
}

#[test]
fn recorded_password_change_uses_code_and_drops_cache() {
    let mut a = SessionAuthority::new(4);
    let mut codes = CodeStore::new();
    CodeStorage::PasswordResetCodes.insert_code(&mut codes, 6, 333333, T0);
    a.complete_load(6, 0, Ok(Some(st(6, true))));
    password_change_recorded(&mut a, &mut codes, 6);
    assert!(matches!(a.authorize_subject(6), AuthStep::Load(6, 1)));
    assert!(!CodeStorage::PasswordResetCodes.has_pending_code(&codes, 6));
}
