use session_guard::tokens::{
    check_allow_list, check_claims, AllowList, AuthError, Claims, TokenHandler, TOKEN_LIFETIME_SECS,
};

const NOW: i64 = 1_700_000_000;

#[test]
fn issued_token_verifies_for_its_subject() {
    let mut h = TokenHandler::new();
    let c = h.generate_token(77, NOW);
    assert_eq!(c.user_id, 77);
    assert_eq!(c.exp, NOW + TOKEN_LIFETIME_SECS);
    assert_eq!(h.verify_token(Some(c), NOW), Ok(c));
    assert_eq!(h.verify_token(Some(c), NOW + 1000).map(|x| x.user_id), Ok(77));
}

#[test]
fn lifetime_is_one_year() {
    assert_eq!(TOKEN_LIFETIME_SECS, 31_536_000);
}

#[test]
fn issue_token_uses_given_identifier() {
    let mut h = TokenHandler::new();
    let c = h.issue_token(5, NOW, 0xabc);
    assert_eq!(c, Claims { user_id: 5, exp: NOW + 31_536_000, jti: 0xabc });
    assert_eq!(h.verify_token(Some(c), NOW), Ok(c));
}

#[test]
fn generated_identifiers_differ() {
    let mut h = TokenHandler::new();
    let a = h.generate_token(1, NOW);
    let b = h.generate_token(1, NOW);
    assert_ne!(a.jti, b.jti);
}

#[test]
fn revoked_tokens_are_rejected() {
    let mut h = TokenHandler::new();
    let a = h.generate_token(3, NOW);
    let b = h.generate_token(3, NOW + 5);
    let other = h.generate_token(4, NOW);
    h.destroy_all_tokens(3);
    assert_eq!(h.verify_token(Some(a), NOW + 10), Err(AuthError::Revoked));
    assert_eq!(h.verify_token(Some(b), NOW + 10), Err(AuthError::Revoked));
    assert_eq!(h.verify_token(Some(other), NOW + 10), Ok(other));
}

#[test]
fn expired_token_rejected_even_if_listed() {
    let mut h = TokenHandler::new();
    let c = h.issue_token(3, NOW, 99);
    let stale = Claims { exp: NOW - 1, ..c };
    assert_eq!(h.verify_token(Some(stale), NOW), Err(AuthError::Expired));
    assert_eq!(
        h.verify_token(Some(c), NOW + TOKEN_LIFETIME_SECS + 1),
        Err(AuthError::Expired)
    );
}

#[test]
fn undecodable_token_is_malformed() {
    let h = TokenHandler::new();
    assert_eq!(h.verify_token(None, NOW), Err(AuthError::Malformed));
    assert_eq!(check_claims(None, NOW), Err(AuthError::Malformed));
}

#[test]
fn unknown_identifier_is_revoked() {
    let mut h = TokenHandler::new();
    h.issue_token(3, NOW, 1);
    let forged = Claims { user_id: 3, exp: NOW + 100, jti: 2 };
    assert_eq!(h.verify_token(Some(forged), NOW), Err(AuthError::Revoked));
}

#[test]
fn identifier_of_other_subject_is_revoked() {
    let mut h = TokenHandler::new();
    h.issue_token(3, NOW, 1);
    let moved = Claims { user_id: 4, exp: NOW + 100, jti: 1 };
    assert_eq!(h.verify_token(Some(moved), NOW), Err(AuthError::Revoked));
}

#[test]
fn check_claims_expiry_boundary() {
    let c = Claims { user_id: 1, exp: NOW, jti: 1 };
    assert_eq!(check_claims(Some(c), NOW), Ok(c));
    assert_eq!(check_claims(Some(c), NOW + 1), Err(AuthError::Expired));
}

#[test]
fn check_allow_list_membership() {
    let c = Claims { user_id: 1, exp: NOW, jti: 7 };
    assert_eq!(check_allow_list(c, &vec![3, 7, 9]), Ok(c));
    assert_eq!(check_allow_list(c, &vec![3, 9]), Err(AuthError::Revoked));
    assert_eq!(check_allow_list(c, &vec![]), Err(AuthError::Revoked));
}

#[test]
fn allow_list_reads_active_rows_of_subject() {
    let mut l = AllowList::new();
    l.insert(1, 10, NOW + 5);
    l.insert(2, 20, NOW + 5);
    l.insert(1, 11, NOW);
    l.insert(1, 12, NOW + 50);
    assert_eq!(l.read_by_uid(1, NOW), vec![10, 12]);
    assert_eq!(l.read_by_uid(2, NOW), vec![20]);
    l.delete_by_uid(1);
    assert_eq!(l.read_by_uid(1, NOW), Vec::<u128>::new());
    assert_eq!(l.read_by_uid(2, NOW), vec![20]);
}
