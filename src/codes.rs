use rand::Rng;
use std::collections::HashMap;
use vstd::prelude::*;

verus! {

broadcast use vstd::std_specs::hash::group_hash_axioms;

/// How long a one-time code stays valid, in seconds.
pub const CODE_VALIDITY_SECS: u64 = 600;

/// A new code is refused while more than this many seconds of the previous
/// code's validity remain.
pub const REISSUE_THRESHOLD_SECS: u64 = 540;

/// The smallest code drawn.
pub const CODE_MIN: u32 = 100000;

/// The largest code drawn: every six-digit number may be drawn.
pub const CODE_MAX: u32 = 999999;

/// What a one-time code proves: control of the email address, or the right
/// to set a new password.
#[derive(Clone, Copy, Debug, PartialEq, Eq, Structural)]
pub enum CodeStorage {
    EmailVerificationCodes,
    PasswordResetCodes,
}

/// A stored code and the instant, in seconds, until which it is valid.
#[derive(Clone, Copy, Debug, PartialEq, Eq, Structural)]
pub struct StoredCode {
    pub code: u32,
    pub expires_at: u64,
}

/// Why a code was not issued.
#[derive(Clone, Copy, Debug, PartialEq, Eq, Structural)]
pub enum CodeError {
    /// A code was issued too recently; a new one may be asked for after this
    /// many seconds.
    RetryAfter(u64),
}

/// The outstanding codes, one table per purpose, keyed by user id.
pub struct CodeStore {
    email_verification: HashMap<i64, StoredCode>,
    password_reset: HashMap<i64, StoredCode>,
}

/// The seconds to wait before a new code may be issued under `uid`, if any:
/// while more than the threshold of the stored code's validity remains.
pub open spec fn retry_wait(t: Map<i64, StoredCode>, uid: i64, now: u64) -> Option<u64> {
    if t.contains_key(uid) && t[uid].expires_at > now + REISSUE_THRESHOLD_SECS {
        Some((t[uid].expires_at - now - REISSUE_THRESHOLD_SECS) as u64)
    } else {
        None
    }
}

/// The code of `uid` that is still valid at `now`.
pub open spec fn valid_code(t: Map<i64, StoredCode>, uid: i64, now: u64) -> Option<u32> {
    if t.contains_key(uid) && now <= t[uid].expires_at {
        Some(t[uid].code)
    } else {
        None
    }
}

/// The table after a read at `now`: an expired entry of `uid` is evicted.
pub open spec fn after_read(t: Map<i64, StoredCode>, uid: i64, now: u64) -> Map<i64, StoredCode> {
    if t.contains_key(uid) && now > t[uid].expires_at {
        t.remove(uid)
    } else {
        t
    }
}

/// Whether `submitted` is the valid code of `uid` at `now`.
pub open spec fn code_matches(t: Map<i64, StoredCode>, uid: i64, submitted: u64, now: u64) -> bool {
    valid_code(t, uid, now) matches Some(c) && c as u64 == submitted
}

/// The table after `submitted` is offered for `uid` at `now`: a matching code
/// is used up, a wrong one stays, an expired one is evicted.
pub open spec fn after_consume(t: Map<i64, StoredCode>, uid: i64, submitted: u64, now: u64) -> Map<
    i64,
    StoredCode,
> {
    if code_matches(t, uid, submitted, now) {
        t.remove(uid)
    } else {
        after_read(t, uid, now)
    }
}

/// Relies on `rand::Rng::gen_range` over the thread-local generator: a value of
/// the inclusive range, which is not empty.
#[verifier::external_body]
fn draw_code() -> (r: u32)
    ensures
        CODE_MIN <= r <= CODE_MAX,
{
    rand::thread_rng().gen_range(CODE_MIN..=CODE_MAX)
}

impl CodeStore {
    /// The table of codes kept for `purpose`.
    pub closed spec fn table(&self, purpose: CodeStorage) -> Map<i64, StoredCode> {
        match purpose {
            CodeStorage::EmailVerificationCodes => self.email_verification@,
            CodeStorage::PasswordResetCodes => self.password_reset@,
        }
    }

    pub fn new() -> (r: Self)
        ensures
            forall|p: CodeStorage| #[trigger] r.table(p) == Map::<i64, StoredCode>::empty(),
    {
        CodeStore { email_verification: HashMap::new(), password_reset: HashMap::new() }
    }

    fn find(&self, purpose: CodeStorage, uid: i64) -> (r: Option<StoredCode>)
        ensures
            r == (if self.table(purpose).contains_key(uid) {
                Some(self.table(purpose)[uid])
            } else {
                None
            }),
    {
        let found = match purpose {
            CodeStorage::EmailVerificationCodes => self.email_verification.get(&uid),
            CodeStorage::PasswordResetCodes => self.password_reset.get(&uid),
        };
        match found {
            Some(e) => Some(*e),
            None => None,
        }
    }

    fn put(&mut self, purpose: CodeStorage, uid: i64, entry: StoredCode)
        ensures
            final(self).table(purpose) == old(self).table(purpose).insert(uid, entry),
            forall|p: CodeStorage| p != purpose ==> #[trigger] final(self).table(p) == old(self).table(p),
    {
        match purpose {
            CodeStorage::EmailVerificationCodes => {
                self.email_verification.insert(uid, entry);
            },
            CodeStorage::PasswordResetCodes => {
                self.password_reset.insert(uid, entry);
            },
        }
    }

    fn take(&mut self, purpose: CodeStorage, uid: i64)
        ensures
            final(self).table(purpose) == old(self).table(purpose).remove(uid),
            forall|p: CodeStorage| p != purpose ==> #[trigger] final(self).table(p) == old(self).table(p),
    {
        match purpose {
            CodeStorage::EmailVerificationCodes => {
                self.email_verification.remove(&uid);
            },
            CodeStorage::PasswordResetCodes => {
                self.password_reset.remove(&uid);
            },
        }
    }
}

/// The outcome of offering a code.
#[derive(Clone, Copy, Debug, PartialEq, Eq, Structural)]
pub enum CodeCheck {
    /// The code was the valid one and is now used up.
    Accepted,
    /// A valid code is pending, and it is another one.
    Mismatch,
    /// No valid code is pending.
    NonePending,
}

/// The outcome of offering `submitted` for `uid` at `now`.
pub open spec fn code_check(t: Map<i64, StoredCode>, uid: i64, submitted: u64, now: u64) -> CodeCheck {
    match valid_code(t, uid, now) {
        None => CodeCheck::NonePending,
        Some(c) => if c as u64 == submitted {
            CodeCheck::Accepted
        } else {
            CodeCheck::Mismatch
        },
    }
}

impl CodeStorage {
    /// Stores `code` for `user_id`, valid for the full window from `now`, in
    /// place of any earlier code.
    pub fn insert_code(&self, store: &mut CodeStore, user_id: i64, code: u32, now: u64)
        requires
            now <= u64::MAX - CODE_VALIDITY_SECS,
        ensures
            final(store).table(*self) == old(store).table(*self).insert(
                user_id,
                StoredCode { code, expires_at: (now + CODE_VALIDITY_SECS) as u64 },
            ),
            forall|p: CodeStorage| p != *self ==> #[trigger] final(store).table(p) == old(store).table(p),
    {
        store.put(*self, user_id, StoredCode { code, expires_at: now + CODE_VALIDITY_SECS });
    }

    /// Whether a code, expired or not, is stored for `user_id`.
    pub fn has_pending_code(&self, store: &CodeStore, user_id: i64) -> (r: bool)
        ensures
            r == store.table(*self).contains_key(user_id),
    {
        store.find(*self, user_id).is_some()
    }

    /// The seconds to wait before a new code may be issued for `user_id`, or
    /// `None` when one may be issued now.
    pub fn get_retry_time(&self, store: &CodeStore, user_id: i64, now: u64) -> (r: Option<u64>)
        ensures
            r == retry_wait(store.table(*self), user_id, now),
    {
        match store.find(*self, user_id) {
            Some(e) => {
                if now <= u64::MAX - REISSUE_THRESHOLD_SECS && e.expires_at > now
                    + REISSUE_THRESHOLD_SECS {
                    Some(e.expires_at - now - REISSUE_THRESHOLD_SECS)
                } else {
                    None
                }
            },
            None => None,
        }
    }

    /// Issues a fresh random code for `user_id`, unless the previous one was
    /// issued too recently, in which case the store is left as it was.
    pub fn create(&self, store: &mut CodeStore, user_id: i64, now: u64) -> (r: Result<u32, CodeError>)
        requires
            now <= u64::MAX - CODE_VALIDITY_SECS,
        ensures
            match retry_wait(old(store).table(*self), user_id, now) {
                Some(wait) => {
                    &&& r == Err::<u32, CodeError>(CodeError::RetryAfter(wait))
                    &&& wait > 0
                    &&& *final(store) == *old(store)
                },
                None => r matches Ok(code) && {
                    &&& CODE_MIN <= code <= CODE_MAX
                    &&& final(store).table(*self) == old(store).table(*self).insert(
                        user_id,
                        StoredCode { code, expires_at: (now + CODE_VALIDITY_SECS) as u64 },
                    )
                },
            },
            forall|p: CodeStorage| p != *self ==> #[trigger] final(store).table(p) == old(store).table(p),
    {
        if let Some(wait) = self.get_retry_time(store, user_id, now) {
            return Err(CodeError::RetryAfter(wait));
        }
        let code = draw_code();
        self.insert_code(store, user_id, code, now);
        Ok(code)
    }

    /// The code of `user_id` if it is still valid at `now`; an expired code is
    /// evicted.
    pub fn get_code(&self, store: &mut CodeStore, user_id: i64, now: u64) -> (r: Option<u32>)
        ensures
            r == valid_code(old(store).table(*self), user_id, now),
            final(store).table(*self) == after_read(old(store).table(*self), user_id, now),
            forall|p: CodeStorage| p != *self ==> #[trigger] final(store).table(p) == old(store).table(p),
    {
        match store.find(*self, user_id) {
            Some(e) => {
                if now <= e.expires_at {
                    Some(e.code)
                } else {
                    store.take(*self, user_id);
                    None
                }
            },
            None => None,
        }
    }

    /// Forgets any code of `user_id`.
    pub fn delete_code(&self, store: &mut CodeStore, user_id: i64)
        ensures
            final(store).table(*self) == old(store).table(*self).remove(user_id),
            forall|p: CodeStorage| p != *self ==> #[trigger] final(store).table(p) == old(store).table(p),
    {
        store.take(*self, user_id);
    }

    /// Offers `submitted` for `user_id` as `consume` does, telling a wrong code
    /// apart from a missing or expired one.
    pub fn redeem(&self, store: &mut CodeStore, user_id: i64, submitted: u64, now: u64) -> (r:
        CodeCheck)
        ensures
            r == code_check(old(store).table(*self), user_id, submitted, now),
            (r == CodeCheck::Accepted) == code_matches(old(store).table(*self), user_id, submitted, now),
            final(store).table(*self) == after_consume(
                old(store).table(*self),
                user_id,
                submitted,
                now,
            ),
            forall|p: CodeStorage| p != *self ==> #[trigger] final(store).table(p) == old(store).table(p),
    {
        match self.get_code(store, user_id, now) {
            Some(code) => {
                if code as u64 == submitted {
                    self.delete_code(store, user_id);
                    CodeCheck::Accepted
                } else {
                    CodeCheck::Mismatch
                }
            },
            None => CodeCheck::NonePending,
        }
    }

    /// Uses up the code of `user_id` if `submitted` is it and it is still
    /// valid; a wrong code stays, so that the user may try again.
    pub fn consume(&self, store: &mut CodeStore, user_id: i64, submitted: u64, now: u64) -> (r:
        bool)
        ensures
            r == code_matches(old(store).table(*self), user_id, submitted, now),
            final(store).table(*self) == after_consume(
                old(store).table(*self),
                user_id,
                submitted,
                now,
            ),
            forall|p: CodeStorage| p != *self ==> #[trigger] final(store).table(p) == old(store).table(p),
    {
        match self.get_code(store, user_id, now) {
            Some(code) => {
                if code as u64 == submitted {
                    self.delete_code(store, user_id);
                    true
                } else {
                    false
                }
            },
            None => false,
        }
    }
}

/// A second request inside the first minute after an issue is refused with a
/// positive wait; once the wait is over a new code may be issued, and the
/// new code replaces the old one, which then no longer matches.
pub proof fn lemma_reissue_throttled(
    t: Map<i64, StoredCode>,
    uid: i64,
    first: u32,
    issued: u64,
    later: u64,
)
    requires
        issued <= later,
        issued <= u64::MAX - CODE_VALIDITY_SECS,
    ensures
        ({
            let t1 = t.insert(uid, StoredCode { code: first, expires_at: (issued + CODE_VALIDITY_SECS) as u64 });
            &&& later < issued + (CODE_VALIDITY_SECS - REISSUE_THRESHOLD_SECS) ==> retry_wait(t1, uid, later)
                == Some((issued + (CODE_VALIDITY_SECS - REISSUE_THRESHOLD_SECS) - later) as u64)
            &&& later < issued + (CODE_VALIDITY_SECS - REISSUE_THRESHOLD_SECS) ==> retry_wait(t1, uid, later)->Some_0 > 0
            &&& later >= issued + (CODE_VALIDITY_SECS - REISSUE_THRESHOLD_SECS) ==> retry_wait(t1, uid, later) is None
        }),
{
}

/// After a new code `second` is stored over `first`, offering `first` matches
/// only if the two codes are the same.
pub proof fn lemma_reissue_replaces(
    t: Map<i64, StoredCode>,
    uid: i64,
    second: u32,
    issued: u64,
    now: u64,
    first: u64,
)
    requires
        issued <= u64::MAX - CODE_VALIDITY_SECS,
        first != second as u64,
    ensures
        !code_matches(
            t.insert(uid, StoredCode { code: second, expires_at: (issued + CODE_VALIDITY_SECS) as u64 }),
            uid,
            first,
            now,
        ),
{
}

/// A code is single use: once it has matched, offering it again fails.
pub proof fn lemma_consume_single_use(
    t: Map<i64, StoredCode>,
    uid: i64,
    submitted: u64,
    now: u64,
    later: u64,
)
    requires
        code_matches(t, uid, submitted, now),
    ensures
        !after_consume(t, uid, submitted, now).contains_key(uid),
        !code_matches(after_consume(t, uid, submitted, now), uid, submitted, later),
{
}

/// Once the validity window has passed, a read finds nothing and evicts the
/// entry, and a new code may be issued without waiting.
pub proof fn lemma_expired_code_released(t: Map<i64, StoredCode>, uid: i64, now: u64)
    requires
        t.contains_key(uid),
        now > t[uid].expires_at,
    ensures
        valid_code(t, uid, now) is None,
        !after_read(t, uid, now).contains_key(uid),
        retry_wait(after_read(t, uid, now), uid, now) is None,
        retry_wait(t, uid, now) is None,
{
}

} // verus!
