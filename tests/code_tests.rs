use session_guard::codes::{CodeError, CodeStorage, CodeStore, CODE_MAX, CODE_MIN};

const T0: u64 = 1_700_000_000;

#[test]
fn create_returns_code_in_range() {
    let mut store = CodeStore::new();
    let purpose = CodeStorage::EmailVerificationCodes;
    let code = purpose.create(&mut store, 1, T0).unwrap();
    assert!(code >= CODE_MIN && code <= CODE_MAX);
    assert!(purpose.has_pending_code(&store, 1));
    assert_eq!(purpose.get_code(&mut store, 1, T0), Some(code));
}

#[test]
fn second_create_within_cooldown_is_throttled() {
    let mut store = CodeStore::new();
    let purpose = CodeStorage::EmailVerificationCodes;
    let first = purpose.create(&mut store, 9, T0).unwrap();
    assert_eq!(purpose.create(&mut store, 9, T0 + 10), Err(CodeError::RetryAfter(50)));
    assert_eq!(purpose.create(&mut store, 9, T0), Err(CodeError::RetryAfter(60)));
    assert_eq!(purpose.get_code(&mut store, 9, T0 + 10), Some(first));
}

#[test]
fn create_allowed_once_cooldown_passed() {
    let mut store = CodeStore::new();
    let purpose = CodeStorage::PasswordResetCodes;
    purpose.create(&mut store, 9, T0).unwrap();
    assert_eq!(purpose.get_retry_time(&store, 9, T0 + 60), None);
    assert_eq!(purpose.get_retry_time(&store, 9, T0 + 59), Some(1));
    let second = purpose.create(&mut store, 9, T0 + 60).unwrap();
    assert_eq!(purpose.get_code(&mut store, 9, T0 + 60), Some(second));
}

#[test]
fn create_after_full_window_replaces_old_code() {
    let mut store = CodeStore::new();
    let purpose = CodeStorage::EmailVerificationCodes;
    purpose.insert_code(&mut store, 3, 123456, T0);
    let second = purpose.create(&mut store, 3, T0 + 601).unwrap();
    assert_eq!(purpose.get_code(&mut store, 3, T0 + 601), Some(second));
    if second != 123456 {
        assert!(!purpose.consume(&mut store, 3, 123456, T0 + 602));
    }
    assert!(purpose.consume(&mut store, 3, second as u64, T0 + 602));
}

#[test]
fn consume_is_single_use() {
    let mut store = CodeStore::new();
    let purpose = CodeStorage::EmailVerificationCodes;
    purpose.insert_code(&mut store, 4, 654321, T0);
    assert!(purpose.consume(&mut store, 4, 654321, T0 + 5));
    assert!(!purpose.consume(&mut store, 4, 654321, T0 + 6));
    assert!(!purpose.has_pending_code(&store, 4));
}

#[test]
fn consume_wrong_code_keeps_entry() {
    let mut store = CodeStore::new();
    let purpose = CodeStorage::PasswordResetCodes;
    purpose.insert_code(&mut store, 4, 654321, T0);
    assert!(!purpose.consume(&mut store, 4, 111111, T0 + 5));
    assert!(purpose.consume(&mut store, 4, 654321, T0 + 6));
}

#[test]
fn consume_absent_is_false() {
    let mut store = CodeStore::new();
    assert!(!CodeStorage::EmailVerificationCodes.consume(&mut store, 4, 654321, T0));
}

#[test]
fn code_valid_until_expiry_inclusive() {
    let mut store = CodeStore::new();
    let purpose = CodeStorage::EmailVerificationCodes;
    purpose.insert_code(&mut store, 5, 222222, T0);
    assert_eq!(purpose.get_code(&mut store, 5, T0 + 600), Some(222222));
    assert_eq!(purpose.get_code(&mut store, 5, T0 + 601), None);
    assert!(!purpose.has_pending_code(&store, 5));
}

#[test]
fn purposes_are_separate() {
    let mut store = CodeStore::new();
    CodeStorage::EmailVerificationCodes.insert_code(&mut store, 6, 333333, T0);
    assert!(!CodeStorage::PasswordResetCodes.has_pending_code(&store, 6));
    assert_eq!(CodeStorage::PasswordResetCodes.get_code(&mut store, 6, T0), None);
    assert!(CodeStorage::PasswordResetCodes.create(&mut store, 6, T0).is_ok());
}

#[test]
fn delete_code_forgets_entry() {
    let mut store = CodeStore::new();
    let purpose = CodeStorage::PasswordResetCodes;
    purpose.insert_code(&mut store, 8, 444444, T0);
    purpose.delete_code(&mut store, 8);
    assert!(!purpose.has_pending_code(&store, 8));
    assert!(purpose.create(&mut store, 8, T0).is_ok());
}

#[test]
fn expired_code_released_after_eleven_minutes() {
    let mut store = CodeStore::new();
    let purpose = CodeStorage::EmailVerificationCodes;
    purpose.create(&mut store, 42, T0).unwrap();
    let later = T0 + 11 * 60;
    assert_eq!(purpose.get_code(&mut store, 42, later), None);
    let again = purpose.create(&mut store, 42, later);
    assert!(again.is_ok());
}
