use uuid::Uuid;
use vstd::prelude::*;

verus! {

/// How long an issued session token is valid, in seconds (365 days).
pub const TOKEN_LIFETIME_SECS: i64 = 365 * 24 * 60 * 60;

/// The claims a session token carries: the subject, the instant (in seconds)
/// after which the token is inert, and the identifier of this issuance.
#[derive(Clone, Copy, Debug, PartialEq, Eq, Structural)]
pub struct Claims {
    pub user_id: i64,
    pub exp: i64,
    pub jti: u128,
}

/// One allow-list row: an issuance identifier, its subject, and the instant
/// after which it counts as absent.
#[derive(Clone, Copy, Debug, PartialEq, Eq, Structural)]
pub struct AuthTokens {
    pub uid: i64,
    pub jti: u128,
    pub expires_at: i64,
}

/// Why a token or a session is not accepted, or why no verdict was reached.
#[derive(Clone, Copy, Debug, PartialEq, Eq, Structural)]
pub enum AuthError {
    /// The signature or the structure of the token is invalid.
    Malformed,
    /// The token's expiry has passed.
    Expired,
    /// The token's issuance identifier is no longer on the allow-list.
    Revoked,
    /// No user record exists for the token's subject.
    UnknownSubject,
    /// The subject has not verified their email address.
    EmailNotVerified,
    /// A dependent store failed; this is no verdict on the token.
    StorageError,
}

/// The identifiers on `rows` that belong to `uid` and are still active at
/// `now`, in the order of the rows.
pub open spec fn active_jtis(rows: Seq<AuthTokens>, uid: i64, now: i64) -> Seq<u128>
    decreases rows.len(),
{
    if rows.len() == 0 {
        Seq::empty()
    } else {
        let rest = active_jtis(rows.drop_last(), uid, now);
        let r = rows.last();
        if r.uid == uid && r.expires_at > now {
            rest.push(r.jti)
        } else {
            rest
        }
    }
}

/// `rows` without any row of `uid`, the others in their order.
pub open spec fn without_uid(rows: Seq<AuthTokens>, uid: i64) -> Seq<AuthTokens>
    decreases rows.len(),
{
    if rows.len() == 0 {
        rows
    } else {
        let rest = without_uid(rows.drop_last(), uid);
        if rows.last().uid == uid {
            rest
        } else {
            rest.push(rows.last())
        }
    }
}

/// The signature-independent checks, made before any storage access: a token
/// that did not decode is malformed, one whose expiry has passed is expired.
pub open spec fn claims_verdict(decoded: Option<Claims>, now: i64) -> Result<Claims, AuthError> {
    match decoded {
        None => Err(AuthError::Malformed),
        Some(c) => if c.exp < now {
            Err(AuthError::Expired)
        } else {
            Ok(c)
        },
    }
}

/// The allow-list check: the token's identifier must be among `active`.
pub open spec fn allow_verdict(claims: Claims, active: Seq<u128>) -> Result<Claims, AuthError> {
    if active.contains(claims.jti) {
        Ok(claims)
    } else {
        Err(AuthError::Revoked)
    }
}

/// The verdict on a decoded token at `now` against the allow-list `rows`:
/// structure, then expiry, then allow-list membership.
pub open spec fn token_verdict(rows: Seq<AuthTokens>, decoded: Option<Claims>, now: i64) -> Result<
    Claims,
    AuthError,
> {
    match claims_verdict(decoded, now) {
        Ok(c) => allow_verdict(c, active_jtis(rows, c.user_id, now)),
        Err(e) => Err(e),
    }
}

/// The claims of a token issued to `user_id` at `now` under `jti`.
pub open spec fn issued_claims(user_id: i64, now: i64, jti: u128) -> Claims {
    Claims { user_id, exp: (now + TOKEN_LIFETIME_SECS) as i64, jti }
}

/// The first checks of a token, which need no storage: `decoded` is what the
/// signature check gave (`None` when the signature or structure was bad).
pub fn check_claims(decoded: Option<Claims>, now: i64) -> (r: Result<Claims, AuthError>)
    ensures
        r == claims_verdict(decoded, now),
{
    match decoded {
        None => Err(AuthError::Malformed),
        Some(c) => {
            if c.exp < now {
                Err(AuthError::Expired)
            } else {
                Ok(c)
            }
        },
    }
}

/// The last check of a token: its identifier must be among the subject's
/// active identifiers.
pub fn check_allow_list(claims: Claims, active: &Vec<u128>) -> (r: Result<Claims, AuthError>)
    ensures
        r == allow_verdict(claims, active@),
{
    let mut i: usize = 0;
    while i < active.len()
        invariant
            0 <= i <= active.len(),
            forall|j: int| 0 <= j < i ==> active@[j] != claims.jti,
        decreases active.len() - i,
    {
        if active[i] == claims.jti {
            assert(active@.contains(claims.jti)) by {
                assert(active@[i as int] == claims.jti);
            }
            return Ok(claims);
        }
        i = i + 1;
    }
    Err(AuthError::Revoked)
}

/// Relies on `uuid::Uuid::new_v4`: a random identifier, read as an integer by
/// `Uuid::as_u128`. Nothing is promised of its value.
#[verifier::external_body]
fn new_jti() -> (r: u128) {
    Uuid::new_v4().as_u128()
}

/// The claims of a new token for `user_id` at `now`, under a fresh random
/// identifier. The caller records the identifier on its allow-list before it
/// hands the token out.
pub fn mint_claims(user_id: i64, now: i64) -> (r: Claims)
    requires
        now <= i64::MAX - TOKEN_LIFETIME_SECS,
    ensures
        r == issued_claims(user_id, now, r.jti),
{
    Claims { user_id, exp: now + TOKEN_LIFETIME_SECS, jti: new_jti() }
}

/// An in-process allow-list of issuance identifiers.
pub struct AllowList {
    rows: Vec<AuthTokens>,
}

impl AllowList {
    /// The rows, in the order they were inserted.
    pub closed spec fn rows(&self) -> Seq<AuthTokens> {
        self.rows@
    }

    pub fn new() -> (r: Self)
        ensures
            r.rows() == Seq::<AuthTokens>::empty(),
    {
        AllowList { rows: Vec::new() }
    }

    /// Records that `jti` was issued to `user_id`, valid until `expires_at`.
    pub fn insert(&mut self, user_id: i64, jti: u128, expires_at: i64)
        ensures
            final(self).rows() == old(self).rows().push(AuthTokens { uid: user_id, jti, expires_at }),
    {
        self.rows.push(AuthTokens { uid: user_id, jti, expires_at });
    }

    /// The identifiers of `user_id` still active at `now`; expired rows count
    /// as absent.
    pub fn read_by_uid(&self, user_id: i64, now: i64) -> (r: Vec<u128>)
        ensures
            r@ == active_jtis(self.rows(), user_id, now),
    {
        let mut out: Vec<u128> = Vec::new();
        let mut i: usize = 0;
        while i < self.rows.len()
            invariant
                0 <= i <= self.rows@.len(),
                out@ == active_jtis(self.rows@.take(i as int), user_id, now),
            decreases self.rows@.len() - i,
        {
            let row = self.rows[i];
            assert(self.rows@.take(i + 1).drop_last() =~= self.rows@.take(i as int));
            if row.uid == user_id && row.expires_at > now {
                out.push(row.jti);
            }
            i = i + 1;
        }
        assert(self.rows@.take(i as int) =~= self.rows@);
        out
    }

    /// Deletes every row of `user_id` at once.
    pub fn delete_by_uid(&mut self, user_id: i64)
        ensures
            final(self).rows() == without_uid(old(self).rows(), user_id),
    {
        let mut kept: Vec<AuthTokens> = Vec::new();
        let mut i: usize = 0;
        while i < self.rows.len()
            invariant
                0 <= i <= self.rows@.len(),
                kept@ == without_uid(self.rows@.take(i as int), user_id),
            decreases self.rows@.len() - i,
        {
            let row = self.rows[i];
            assert(self.rows@.take(i + 1).drop_last() =~= self.rows@.take(i as int));
            if row.uid != user_id {
                kept.push(row);
            }
            i = i + 1;
        }
        assert(self.rows@.take(i as int) =~= self.rows@);
        self.rows = kept;
    }
}

/// Issues and verifies session tokens against an allow-list that can be
/// revoked independently of the tokens' expiry.
pub struct TokenHandler {
    tokens: AllowList,
}

impl TokenHandler {
    /// The allow-list rows.
    pub closed spec fn rows(&self) -> Seq<AuthTokens> {
        self.tokens.rows()
    }

    pub fn new() -> (r: Self)
        ensures
            r.rows() == Seq::<AuthTokens>::empty(),
    {
        TokenHandler { tokens: AllowList::new() }
    }

    /// Issues a token to `user_id` at `now` under the identifier `jti`: the
    /// allow-list row is written before the claims are handed out.
    pub fn issue_token(&mut self, user_id: i64, now: i64, jti: u128) -> (r: Claims)
        requires
            now <= i64::MAX - TOKEN_LIFETIME_SECS,
        ensures
            r == issued_claims(user_id, now, jti),
            final(self).rows() == old(self).rows().push(
                AuthTokens { uid: user_id, jti, expires_at: r.exp },
            ),
    {
        let exp = now + TOKEN_LIFETIME_SECS;
        self.tokens.insert(user_id, jti, exp);
        Claims { user_id, exp, jti }
    }

    /// Issues a token to `user_id` at `now` under a fresh random identifier.
    pub fn generate_token(&mut self, user_id: i64, now: i64) -> (r: Claims)
        requires
            now <= i64::MAX - TOKEN_LIFETIME_SECS,
        ensures
            r == issued_claims(user_id, now, r.jti),
            final(self).rows() == old(self).rows().push(
                AuthTokens { uid: user_id, jti: r.jti, expires_at: r.exp },
            ),
    {
        let claims = mint_claims(user_id, now);
        self.tokens.insert(user_id, claims.jti, claims.exp);
        claims
    }

    /// The verdict on a token at `now`; `decoded` is what the signature check
    /// gave. Structure and expiry are checked before the allow-list is read.
    pub fn verify_token(&self, decoded: Option<Claims>, now: i64) -> (r: Result<Claims, AuthError>)
        ensures
            r == token_verdict(self.rows(), decoded, now),
    {
        match check_claims(decoded, now) {
            Ok(claims) => {
                let active = self.tokens.read_by_uid(claims.user_id, now);
                check_allow_list(claims, &active)
            },
            Err(e) => Err(e),
        }
    }

    /// Revokes every token of `user_id` at once.
    pub fn destroy_all_tokens(&mut self, user_id: i64)
        ensures
            final(self).rows() == without_uid(old(self).rows(), user_id),
    {
        self.tokens.delete_by_uid(user_id);
    }
}

/// A token verifies, for its own subject, at any instant from its issue until
/// its expiry.
pub proof fn lemma_issued_token_verifies(
    rows: Seq<AuthTokens>,
    user_id: i64,
    now: i64,
    jti: u128,
    later: i64,
)
    requires
        now <= i64::MAX - TOKEN_LIFETIME_SECS,
        now <= later < now + TOKEN_LIFETIME_SECS,
    ensures
        ({
            let c = issued_claims(user_id, now, jti);
            let rows1 = rows.push(AuthTokens { uid: user_id, jti, expires_at: c.exp });
            &&& token_verdict(rows1, Some(c), later) == Ok::<Claims, AuthError>(c)
            &&& c.user_id == user_id
        }),
{
    let c = issued_claims(user_id, now, jti);
    let rows1 = rows.push(AuthTokens { uid: user_id, jti, expires_at: c.exp });
    assert(rows1.drop_last() =~= rows);
    let act = active_jtis(rows1, user_id, later);
    assert(act.last() == jti);
    assert(act.contains(jti));
}

/// No identifier of `uid` is active once its rows are deleted.
pub proof fn lemma_without_uid_inactive(rows: Seq<AuthTokens>, uid: i64, now: i64)
    ensures
        active_jtis(without_uid(rows, uid), uid, now) == Seq::<u128>::empty(),
    decreases rows.len(),
{
    if rows.len() > 0 {
        lemma_without_uid_inactive(rows.drop_last(), uid, now);
        let rest = without_uid(rows.drop_last(), uid);
        if rows.last().uid != uid {
            assert(rest.push(rows.last()).drop_last() =~= rest);
        }
    }
}

/// After every token of a subject is revoked, each of its tokens that passes
/// the structure and expiry checks is rejected as revoked.
pub proof fn lemma_revoked_after_destroy(rows: Seq<AuthTokens>, claims: Claims, now: i64)
    requires
        claims.exp >= now,
    ensures
        token_verdict(without_uid(rows, claims.user_id), Some(claims), now) == Err::<
            Claims,
            AuthError,
        >(AuthError::Revoked),
{
    lemma_without_uid_inactive(rows, claims.user_id, now);
    assert(!Seq::<u128>::empty().contains(claims.jti));
}

/// A token whose expiry has passed is rejected as expired, whatever the
/// allow-list holds.
pub proof fn lemma_expired_rejected(rows: Seq<AuthTokens>, claims: Claims, now: i64)
    requires
        claims.exp < now,
    ensures
        token_verdict(rows, Some(claims), now) == Err::<Claims, AuthError>(AuthError::Expired),
{
}

} // verus!
