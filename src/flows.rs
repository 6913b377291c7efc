use crate::accounts::{password_verdict, validate_password, PasswordError};
use crate::cache::{without_key, UserState};
use crate::codes::{
    after_read, retry_wait, valid_code, CodeError, CodeStorage, CodeStore, StoredCode, CODE_MAX,
    CODE_MIN, CODE_VALIDITY_SECS,
};
use crate::session::{epoch_of, next_epoch, SessionAuthority};
use crate::tokens::{issued_claims, mint_claims, Claims, TOKEN_LIFETIME_SECS};
use vstd::prelude::*;

verus! {

/// Why no code was sent.
#[derive(Clone, Copy, Debug, PartialEq, Eq, Structural)]
pub enum CodeRequestError {
    /// The email address is verified already.
    AlreadyVerified,
    /// A password reset needs a verified email address.
    EmailNotVerified,
    /// A code was issued too recently; retry after this many seconds.
    RetryAfter(u64),
}

/// Decides on a request for an email verification code by the user whose
/// record is `user`. A user already verified is refused, and its cached state
/// is dropped since the cache may have missed the verification.
pub fn request_email_verification_code(
    cache: &mut SessionAuthority,
    codes: &mut CodeStore,
    user: UserState,
    now: u64,
) -> (r: Result<u32, CodeRequestError>)
    requires
        old(cache).wf(),
        now <= u64::MAX - CODE_VALIDITY_SECS,
    ensures
        final(cache).wf(),
        final(cache).capacity() == old(cache).capacity(),
        user.email_verified ==> {
            &&& r == Err::<u32, CodeRequestError>(CodeRequestError::AlreadyVerified)
            &&& final(cache).entries() == without_key(old(cache).entries(), user.uid)
            &&& final(cache).epochs() == old(cache).epochs().insert(
                user.uid,
                next_epoch(epoch_of(old(cache).epochs(), user.uid)),
            )
            &&& *final(codes) == *old(codes)
        },
        !user.email_verified ==> {
            &&& final(cache).entries() == old(cache).entries()
            &&& final(cache).epochs() == old(cache).epochs()
            &&& match retry_wait(old(codes).table(CodeStorage::EmailVerificationCodes), user.uid, now) {
                Some(wait) => r == Err::<u32, CodeRequestError>(CodeRequestError::RetryAfter(wait))
                    && *final(codes) == *old(codes),
                None => r matches Ok(code) && CODE_MIN <= code <= CODE_MAX && final(codes).table(
                    CodeStorage::EmailVerificationCodes,
                ) == old(codes).table(CodeStorage::EmailVerificationCodes).insert(
                    user.uid,
                    StoredCode { code, expires_at: (now + CODE_VALIDITY_SECS) as u64 },
                ),
            }
        },
        forall|p: CodeStorage|
            p != CodeStorage::EmailVerificationCodes ==> #[trigger] final(codes).table(p) == old(
                codes,
            ).table(p),
{
    if user.email_verified {
        cache.invalidate_user(user.uid);
        return Err(CodeRequestError::AlreadyVerified);
    }
    match CodeStorage::EmailVerificationCodes.create(codes, user.uid, now) {
        Ok(code) => Ok(code),
        Err(CodeError::RetryAfter(wait)) => Err(CodeRequestError::RetryAfter(wait)),
    }
}

/// Decides on a request for a password reset code by the user whose record is
/// `user`: only a verified address may receive one.
pub fn request_password_reset_code(codes: &mut CodeStore, user: UserState, now: u64) -> (r: Result<
    u32,
    CodeRequestError,
>)
    requires
        now <= u64::MAX - CODE_VALIDITY_SECS,
    ensures
        !user.email_verified ==> r == Err::<u32, CodeRequestError>(
            CodeRequestError::EmailNotVerified,
        ) && *final(codes) == *old(codes),
        user.email_verified ==> match retry_wait(
            old(codes).table(CodeStorage::PasswordResetCodes),
            user.uid,
            now,
        ) {
            Some(wait) => r == Err::<u32, CodeRequestError>(CodeRequestError::RetryAfter(wait))
                && *final(codes) == *old(codes),
            None => r matches Ok(code) && CODE_MIN <= code <= CODE_MAX && final(codes).table(
                CodeStorage::PasswordResetCodes,
            ) == old(codes).table(CodeStorage::PasswordResetCodes).insert(
                user.uid,
                StoredCode { code, expires_at: (now + CODE_VALIDITY_SECS) as u64 },
            ),
        },
        forall|p: CodeStorage|
            p != CodeStorage::PasswordResetCodes ==> #[trigger] final(codes).table(p) == old(
                codes,
            ).table(p),
{
    if !user.email_verified {
        return Err(CodeRequestError::EmailNotVerified);
    }
    match CodeStorage::PasswordResetCodes.create(codes, user.uid, now) {
        Ok(code) => Ok(code),
        Err(CodeError::RetryAfter(wait)) => Err(CodeRequestError::RetryAfter(wait)),
    }
}

/// Why a password reset was refused.
#[derive(Clone, Copy, Debug, PartialEq, Eq, Structural)]
pub enum ResetError {
    /// No valid reset code is pending.
    NonePending,
    /// The code offered is not the pending one.
    WrongCode,
    /// The new password breaks a rule.
    WeakPassword(PasswordError),
}

/// The verdict on a password reset: the code first, then the new password.
pub open spec fn reset_verdict(
    t: Map<i64, StoredCode>,
    uid: i64,
    submitted: u64,
    new_password: &str,
    now: u64,
) -> Result<(), ResetError> {
    match valid_code(t, uid, now) {
        None => Err(ResetError::NonePending),
        Some(c) => if c as u64 != submitted {
            Err(ResetError::WrongCode)
        } else {
            match password_verdict(new_password) {
                Err(e) => Err(ResetError::WeakPassword(e)),
                Ok(()) => Ok(()),
            }
        },
    }
}

/// Checks a password reset of `uid`: the offered code must be the pending
/// valid one, then the new password must keep the rules. The code is not
/// used up here (only an expired one is evicted), so that it stays until
/// the new password is stored; `password_change_recorded` then removes it.
pub fn check_password_reset(
    codes: &mut CodeStore,
    uid: i64,
    submitted: u64,
    new_password: &str,
    now: u64,
) -> (r: Result<(), ResetError>)
    ensures
        r == reset_verdict(old(codes).table(CodeStorage::PasswordResetCodes), uid, submitted, new_password, now),
        final(codes).table(CodeStorage::PasswordResetCodes) == after_read(
            old(codes).table(CodeStorage::PasswordResetCodes),
            uid,
            now,
        ),
        forall|p: CodeStorage|
            p != CodeStorage::PasswordResetCodes ==> #[trigger] final(codes).table(p) == old(
                codes,
            ).table(p),
{
    match CodeStorage::PasswordResetCodes.get_code(codes, uid, now) {
        None => Err(ResetError::NonePending),
        Some(c) => {
            if c as u64 != submitted {
                Err(ResetError::WrongCode)
            } else {
                match validate_password(new_password) {
                    Err(e) => Err(ResetError::WeakPassword(e)),
                    Ok(()) => Ok(()),
                }
            }
        },
    }
}

/// To be called once the store has marked the email of `uid` verified: the
/// cached state of `uid` is dropped, and loads in flight invalidated, before
/// the claims of a new session token are minted. The caller records their
/// identifier on the allow-list before it hands the token out.
pub fn email_verification_recorded(cache: &mut SessionAuthority, uid: i64, now: i64) -> (r: Claims)
    requires
        old(cache).wf(),
        now <= i64::MAX - TOKEN_LIFETIME_SECS,
    ensures
        final(cache).wf(),
        final(cache).capacity() == old(cache).capacity(),
        final(cache).entries() == without_key(old(cache).entries(), uid),
        final(cache).cached(uid) is None,
        final(cache).epochs() == old(cache).epochs().insert(
            uid,
            next_epoch(epoch_of(old(cache).epochs(), uid)),
        ),
        r == issued_claims(uid, now, r.jti),
{
    cache.invalidate_user(uid);
    mint_claims(uid, now)
}

/// To be called once the store holds the new password hash of `uid` and
/// every allow-list row of `uid` is deleted: the reset code is used up, and
/// the cached state of `uid` dropped.
pub fn password_change_recorded(cache: &mut SessionAuthority, codes: &mut CodeStore, uid: i64)
    requires
        old(cache).wf(),
    ensures
        final(cache).wf(),
        final(cache).capacity() == old(cache).capacity(),
        final(cache).entries() == without_key(old(cache).entries(), uid),
        final(cache).cached(uid) is None,
        final(cache).epochs() == old(cache).epochs().insert(
            uid,
            next_epoch(epoch_of(old(cache).epochs(), uid)),
        ),
        final(codes).table(CodeStorage::PasswordResetCodes) == old(codes).table(
            CodeStorage::PasswordResetCodes,
        ).remove(uid),
        forall|p: CodeStorage|
            p != CodeStorage::PasswordResetCodes ==> #[trigger] final(codes).table(p) == old(
                codes,
            ).table(p),
{
    CodeStorage::PasswordResetCodes.delete_code(codes, uid);
    cache.invalidate_user(uid);
}

} // verus!
