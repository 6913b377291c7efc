use crate::cache::{after_insert, after_touch, lemma_without_key, lookup, without_key, CacheManager, UserState};
use crate::tokens::{token_verdict, AuthError, Claims, TokenHandler};
use std::collections::HashMap;
use vstd::prelude::*;

verus! {

broadcast use vstd::std_specs::hash::group_hash_axioms;

/// Where an authorization stands: decided, or waiting for the user record of
/// a subject to be loaded from the store. A load carries the subject's
/// invalidation count as it stood when the load was asked for.
#[derive(Clone, Copy, Debug)]
pub enum AuthStep {
    Done(Result<i64, AuthError>),
    Load(i64, u64),
}

/// The policy on a subject's record: an absent record is an unknown subject,
/// an unverified email is refused, anything else is accepted as `uid`.
pub open spec fn admission(uid: i64, state: Option<UserState>) -> Result<i64, AuthError> {
    match state {
        None => Err(AuthError::UnknownSubject),
        Some(u) => if u.email_verified {
            Ok(uid)
        } else {
            Err(AuthError::EmailNotVerified)
        },
    }
}

/// The invalidation count of `uid`; a subject never invalidated counts zero.
pub open spec fn epoch_of(epochs: Map<i64, u64>, uid: i64) -> u64 {
    if epochs.contains_key(uid) {
        epochs[uid]
    } else {
        0
    }
}

/// The count after one more invalidation; it always differs from `e`.
pub open spec fn next_epoch(e: u64) -> u64 {
    if e == u64::MAX {
        0
    } else {
        (e + 1) as u64
    }
}

/// The step after a token for `uid` passed: a cached state decides, a miss
/// asks for the record.
pub open spec fn subject_step(entries: Seq<(i64, UserState)>, epochs: Map<i64, u64>, uid: i64) -> AuthStep {
    match lookup(entries, uid) {
        Some(u) => AuthStep::Done(admission(uid, Some(u))),
        None => AuthStep::Load(uid, epoch_of(epochs, uid)),
    }
}

/// Whether a load asked for under `ticket` is still current: no invalidation
/// of `uid` happened since.
pub open spec fn load_current(epochs: Map<i64, u64>, uid: i64, ticket: u64) -> bool {
    epoch_of(epochs, uid) == ticket
}

/// The verdict once the record of `uid` was loaded; a failed load is no
/// verdict on the subject.
pub open spec fn load_verdict(uid: i64, loaded: Result<Option<UserState>, ()>) -> Result<
    i64,
    AuthError,
> {
    match loaded {
        Err(_) => Err(AuthError::StorageError),
        Ok(state) => admission(uid, state),
    }
}

/// The step after a load under `ticket`: a stale load is asked again, a
/// current one decides.
pub open spec fn load_step(
    epochs: Map<i64, u64>,
    uid: i64,
    ticket: u64,
    loaded: Result<Option<UserState>, ()>,
) -> AuthStep {
    if load_current(epochs, uid, ticket) {
        AuthStep::Done(load_verdict(uid, loaded))
    } else {
        AuthStep::Load(uid, epoch_of(epochs, uid))
    }
}

/// The entries after a load under `ticket`: a found record is cached, unless
/// the subject was invalidated while it was loaded.
pub open spec fn after_load(
    entries: Seq<(i64, UserState)>,
    cap: nat,
    epochs: Map<i64, u64>,
    uid: i64,
    ticket: u64,
    loaded: Result<Option<UserState>, ()>,
) -> Seq<(i64, UserState)> {
    match loaded {
        Ok(Some(u)) => if load_current(epochs, uid, ticket) {
            after_insert(entries, cap, uid, u)
        } else {
            entries
        },
        _ => entries,
    }
}

/// Applies the policy to the record of `uid`.
pub fn apply_policy(uid: i64, state: Option<UserState>) -> (r: Result<i64, AuthError>)
    ensures
        r == admission(uid, state),
{
    match state {
        None => Err(AuthError::UnknownSubject),
        Some(u) => {
            if u.email_verified {
                Ok(uid)
            } else {
                Err(AuthError::EmailNotVerified)
            }
        },
    }
}

/// The cached user state that authorizations read, and for each subject the
/// number of times its state was invalidated, so that a load that overlaps
/// an invalidation never puts its stale record in the cache.
pub struct SessionAuthority {
    cache: CacheManager,
    epochs: HashMap<i64, u64>,
}

impl SessionAuthority {
    /// The cached entries, from least to most recently used.
    pub closed spec fn entries(&self) -> Seq<(i64, UserState)> {
        self.cache.entries()
    }

    /// The most entries the cache holds.
    pub closed spec fn capacity(&self) -> nat {
        self.cache.capacity()
    }

    /// The invalidation counts of the subjects.
    pub closed spec fn epochs(&self) -> Map<i64, u64> {
        self.epochs@
    }

    pub closed spec fn wf(&self) -> bool {
        self.cache.wf()
    }

    /// The state cached for `uid`, if any.
    pub open spec fn cached(&self, uid: i64) -> Option<UserState> {
        lookup(self.entries(), uid)
    }

    /// An empty cache of `capacity` entries; no subject was invalidated.
    pub fn new(capacity: usize) -> (r: Self)
        ensures
            r.wf(),
            r.entries() == Seq::<(i64, UserState)>::empty(),
            r.capacity() == capacity,
            r.epochs() == Map::<i64, u64>::empty(),
    {
        SessionAuthority { cache: CacheManager::new(capacity), epochs: HashMap::new() }
    }

    /// The invalidation count of `uid`.
    pub fn epoch(&self, uid: i64) -> (r: u64)
        ensures
            r == epoch_of(self.epochs(), uid),
    {
        match self.epochs.get(&uid) {
            Some(e) => *e,
            None => 0,
        }
    }

    /// Decides on `uid` from the cache, or asks for its record on a miss.
    pub fn authorize_subject(&mut self, uid: i64) -> (r: AuthStep)
        requires
            old(self).wf(),
        ensures
            final(self).wf(),
            r == subject_step(old(self).entries(), old(self).epochs(), uid),
            final(self).entries() == after_touch(old(self).entries(), uid),
            final(self).capacity() == old(self).capacity(),
            final(self).epochs() == old(self).epochs(),
    {
        match self.cache.get(&uid) {
            Some(u) => AuthStep::Done(apply_policy(uid, Some(u))),
            None => AuthStep::Load(uid, self.epoch(uid)),
        }
    }

    /// Finishes an authorization with the record of `uid` as loaded from the
    /// store under `ticket`. A load that overlapped an invalidation of `uid`
    /// is neither cached nor trusted: the record is asked for again.
    pub fn complete_load(&mut self, uid: i64, ticket: u64, loaded: Result<Option<UserState>, ()>) -> (r:
        AuthStep)
        requires
            old(self).wf(),
        ensures
            final(self).wf(),
            r == load_step(old(self).epochs(), uid, ticket, loaded),
            final(self).entries() == after_load(
                old(self).entries(),
                old(self).capacity(),
                old(self).epochs(),
                uid,
                ticket,
                loaded,
            ),
            final(self).capacity() == old(self).capacity(),
            final(self).epochs() == old(self).epochs(),
    {
        let current = self.epoch(uid);
        if current != ticket {
            return AuthStep::Load(uid, current);
        }
        match loaded {
            Err(_) => AuthStep::Done(Err(AuthError::StorageError)),
            Ok(None) => AuthStep::Done(Err(AuthError::UnknownSubject)),
            Ok(Some(u)) => {
                self.cache.insert(uid, u);
                AuthStep::Done(apply_policy(uid, Some(u)))
            },
        }
    }

    /// Drops the cached state of `uid` and counts the invalidation. Every
    /// write that changes the record of `uid` calls this before it reports
    /// success.
    pub fn invalidate_user(&mut self, uid: i64)
        requires
            old(self).wf(),
        ensures
            final(self).wf(),
            final(self).entries() == without_key(old(self).entries(), uid),
            final(self).capacity() == old(self).capacity(),
            final(self).cached(uid) is None,
            final(self).epochs() == old(self).epochs().insert(
                uid,
                next_epoch(epoch_of(old(self).epochs(), uid)),
            ),
    {
        self.cache.remove(&uid);
        let e = self.epoch(uid);
        let next = if e == u64::MAX {
            0
        } else {
            e + 1
        };
        self.epochs.insert(uid, next);
        proof {
            lemma_without_key(old(self).entries(), uid);
        }
    }
}

/// Authorizes a request token at `now`: the token is verified (signature
/// result, expiry, allow-list), then the subject is decided from the cache or
/// its record is asked for.
pub fn authorize(tokens: &TokenHandler, authority: &mut SessionAuthority, decoded: Option<Claims>, now: i64) -> (r:
    AuthStep)
    requires
        old(authority).wf(),
    ensures
        final(authority).wf(),
        final(authority).capacity() == old(authority).capacity(),
        final(authority).epochs() == old(authority).epochs(),
        match token_verdict(tokens.rows(), decoded, now) {
            Err(e) => r == AuthStep::Done(Err(e)) && final(authority).entries() == old(
                authority,
            ).entries(),
            Ok(c) => r == subject_step(old(authority).entries(), old(authority).epochs(), c.user_id)
                && final(authority).entries() == after_touch(old(authority).entries(), c.user_id),
        },
{
    match tokens.verify_token(decoded, now) {
        Err(e) => AuthStep::Done(Err(e)),
        Ok(c) => authority.authorize_subject(c.user_id),
    }
}

/// Once the email of `uid` is marked verified and `uid` invalidated, no
/// authorization of `uid` is refused for an unverified email from a copy
/// read before the write: a load that was in flight when the invalidation
/// happened, whatever it read, is neither cached nor trusted and is asked
/// again; the next authorization misses the cache; a load asked for after
/// the invalidation finds the verified record, admits `uid`, and later
/// authorizations served from the cache admit it too.
pub proof fn lemma_no_stale_email_rejection(
    entries: Seq<(i64, UserState)>,
    cap: nat,
    epochs: Map<i64, u64>,
    uid: i64,
    stale: Result<Option<UserState>, ()>,
    fresh: UserState,
)
    requires
        fresh.email_verified,
        cap > 0,
    ensures
        ({
            let dropped = without_key(entries, uid);
            let bumped = epochs.insert(uid, next_epoch(epoch_of(epochs, uid)));
            let ticket = epoch_of(epochs, uid);
            let fresh_ticket = epoch_of(bumped, uid);
            &&& load_step(bumped, uid, ticket, stale) == AuthStep::Load(uid, fresh_ticket)
            &&& after_load(dropped, cap, bumped, uid, ticket, stale) == dropped
            &&& subject_step(dropped, bumped, uid) == AuthStep::Load(uid, fresh_ticket)
            &&& load_step(bumped, uid, fresh_ticket, Ok(Some(fresh))) == AuthStep::Done(Ok(uid))
            &&& subject_step(after_load(dropped, cap, bumped, uid, fresh_ticket, Ok(Some(fresh))), bumped, uid)
                == AuthStep::Done(Ok(uid))
        }),
{
    lemma_without_key(entries, uid);
    let w = without_key(entries, uid);
    let t = w.push((uid, fresh));
    assert(t.drop_last() =~= w);
    if t.len() > cap {
        assert(t.drop_first().last() == t.last());
    }
}

} // verus!
