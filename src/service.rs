use vstd::prelude::*;

use crate::scopes::scopes_match;
use crate::store::{has_id, pruned, Config};
use crate::user::{
    grant_ok, registered, registered_user, ApiError, TokenLookup, TokenResponse, User,
    REGISTRATION_TIME_MILLIS,
};

verus! {

/// `k` is another pairing token of `m`, registered and linked to the same
/// remote account as `new`.
pub open spec fn dup_of(m: Map<Seq<char>, User>, new: Seq<char>, k: Seq<char>) -> bool {
    &&& m.contains_key(k)
    &&& k != new
    &&& registered(m[k])
    &&& has_id(m[k], m[new].spotify_id->0@)
}

/// The store after the record under `new` has been moved to the canonical
/// token `canon`, replacing what `canon` held.
pub open spec fn merged(m: Map<Seq<char>, User>, new: Seq<char>, canon: Seq<char>) -> Map<
    Seq<char>,
    User,
> {
    if canon == new {
        m
    } else {
        m.remove(new).insert(canon, m[new])
    }
}

/// After the record under `new_token` has been registered: if another
/// registered pairing token is linked to the same remote account, the new record moves under that
/// older token, which is returned; otherwise `new_token` is returned.
pub fn ensure_unique(config: &mut Config, new_token: String) -> (r: String)
    requires
        old(config).wf(),
        old(config)@.contains_key(new_token@),
        old(config)@[new_token@].spotify_id is Some,
    ensures
        final(config).wf(),
        final(config)@ == merged(old(config)@, new_token@, r@),
        r@ != new_token@ <==> exists|k: Seq<char>| dup_of(old(config)@, new_token@, k),
        r@ != new_token@ ==> dup_of(old(config)@, new_token@, r@),
{
    let sid = config.get(&new_token).unwrap().spotify_id.as_ref().unwrap().clone();
    match config.find_registered_with_id(&sid, &new_token) {
        None => {
            assert(forall|k: Seq<char>| !dup_of(old(config)@, new_token@, k));
            new_token
        },
        Some(t) => {
            let ghost m = config@;
            let moved = config.remove(&new_token).unwrap();
            let _replaced = config.remove(&t);
            config.insert_new(t.clone(), moved);
            assert(config@ =~= merged(m, new_token@, t@));
            assert(dup_of(m, new_token@, t@));
            t
        },
    }
}

/// The check made on the OAuth callback before any request to the provider:
/// the pairing token must name a record that has not registered yet.
pub fn begin_registration(config: &Config, state: &String) -> (r: Result<(), ApiError>)
    requires
        config.wf(),
    ensures
        !config@.contains_key(state@) ==> r == Err::<(), ApiError>(ApiError::NotFound),
        config@.contains_key(state@) && registered(config@[state@]) ==> r == Err::<(), ApiError>(
            ApiError::AlreadyRegistered,
        ),
        r is Ok <==> config@.contains_key(state@) && !registered(config@[state@]),
{
    match config.get(state) {
        None => Err(ApiError::NotFound),
        Some(u) => if u.is_registered() {
            Err(ApiError::AlreadyRegistered)
        } else {
            Ok(())
        },
    }
}

/// Completes the OAuth callback for pairing token `state` from the provider's
/// token response and the fetched profile's account id (or the error of that
/// fetch), at time `now`; returns the canonical pairing token. The store
/// changes only on success.
pub fn register_success(
    config: &mut Config,
    state: String,
    res: TokenResponse,
    profile: Result<String, ApiError>,
    now: i64,
) -> (r: Result<String, ApiError>)
    requires
        old(config).wf(),
    ensures
        final(config).wf(),
        !old(config)@.contains_key(state@) ==> r == Err::<String, ApiError>(ApiError::NotFound),
        old(config)@.contains_key(state@) && registered(old(config)@[state@]) ==> r == Err::<
            String,
            ApiError,
        >(ApiError::AlreadyRegistered),
        old(config)@.contains_key(state@) && !registered(old(config)@[state@]) && !scopes_match(
            res.scope@,
        ) ==> r == Err::<String, ApiError>(ApiError::Scope),
        old(config)@.contains_key(state@) && !registered(old(config)@[state@]) && scopes_match(
            res.scope@,
        ) && res.refresh_token is None ==> r == Err::<String, ApiError>(
            ApiError::MissingRefreshToken,
        ),
        old(config)@.contains_key(state@) && !registered(old(config)@[state@]) && grant_ok(res)
            && profile is Err ==> r == Err::<String, ApiError>(profile->Err_0),
        r is Err ==> final(config)@ == old(config)@,
        r is Ok <==> old(config)@.contains_key(state@) && !registered(old(config)@[state@])
            && grant_ok(res) && profile is Ok,
        r is Ok ==> {
            let m = old(config)@.insert(state@, registered_user(res, profile->Ok_0, now));
            &&& final(config)@ == merged(m, state@, r->Ok_0@)
            &&& r->Ok_0@ != state@ <==> exists|k: Seq<char>| dup_of(m, state@, k)
            &&& r->Ok_0@ != state@ ==> dup_of(m, state@, r->Ok_0@)
        },
{
    let ghost m0 = config@;
    let mut user = match config.remove(&state) {
        None => return Err(ApiError::NotFound),
        Some(u) => u,
    };
    let ghost u0 = user;
    let outcome = user.register(res, profile, now);
    let ghost u1 = user;
    config.insert_new(state.clone(), user);
    assert(m0.remove(state@).insert(state@, u0) =~= m0);
    assert(m0.remove(state@).insert(state@, u1) =~= m0.insert(state@, u1));
    match outcome {
        Err(e) => Err(e),
        Ok(()) => Ok(ensure_unique(config, state)),
    }
}

/// Handles the OAuth callback that reports `error` for pairing token `state`:
/// a declined consent removes the record under `state` if it is still
/// pending, and leaves a registered record in place; any other error leaves
/// the store as it is. Returns the error to report.
pub fn register_failure(config: &mut Config, state: &String, error: &String) -> (r: ApiError)
    requires
        old(config).wf(),
    ensures
        final(config).wf(),
        error@ == "access_denied"@ ==> r == ApiError::ProviderDenied,
        error@ == "access_denied"@ && old(config)@.contains_key(state@) && !registered(
            old(config)@[state@],
        ) ==> final(config)@ == old(config)@.remove(state@),
        !(error@ == "access_denied"@ && old(config)@.contains_key(state@) && !registered(
            old(config)@[state@],
        )) ==> final(config)@ == old(config)@,
        error@ != "access_denied"@ ==> r == ApiError::Provider(*error),
{
    let denied = String::from_str("access_denied");
    if *error == denied {
        let pending = match config.get(state) {
            Some(u) => !u.is_registered(),
            None => false,
        };
        if pending {
            let _removed = config.remove(state);
        }
        ApiError::ProviderDenied
    } else {
        ApiError::Provider(error.clone())
    }
}

/// Decides how to answer a token lookup for pairing token `token` at time `now`.
pub fn lookup_token(config: &Config, token: &String, now: i64) -> (r: Result<
    TokenLookup,
    ApiError,
>)
    requires
        config.wf(),
    ensures
        !config@.contains_key(token@) ==> r == Err::<TokenLookup, ApiError>(ApiError::NotFound),
        config@.contains_key(token@) ==> {
            let u = config@[token@];
            &&& !registered(u) ==> r == Err::<TokenLookup, ApiError>(ApiError::NotRegistered)
            &&& registered(u) && u.current_token is Some && now < u.token_expiry ==> r == Ok::<
                TokenLookup,
                ApiError,
            >(TokenLookup::Cached(u.current_token->0))
            &&& registered(u) && !(u.current_token is Some && now < u.token_expiry) ==> r == Ok::<
                TokenLookup,
                ApiError,
            >(TokenLookup::Refresh(u.refresh_token->0))
        },
{
    match config.get(token) {
        None => Err(ApiError::NotFound),
        Some(u) => u.get_spotify_token(now),
    }
}

/// Takes in the provider's answer to the refresh-token exchange made for
/// pairing token `token` at time `now`; returns the new access token.
pub fn refresh_user_token(config: &mut Config, token: &String, res: TokenResponse, now: i64) -> (r:
    Result<String, ApiError>)
    requires
        old(config).wf(),
    ensures
        final(config).wf(),
        !old(config)@.contains_key(token@) ==> r == Err::<String, ApiError>(ApiError::NotFound),
        old(config)@.contains_key(token@) && !registered(old(config)@[token@]) ==> r == Err::<
            String,
            ApiError,
        >(ApiError::NotRegistered),
        old(config)@.contains_key(token@) && registered(old(config)@[token@]) && !scopes_match(
            res.scope@,
        ) ==> r == Err::<String, ApiError>(ApiError::Scope),
        r is Err ==> final(config)@ == old(config)@,
        r is Ok ==> {
            &&& old(config)@.contains_key(token@)
            &&& r->Ok_0 == res.access_token
            &&& final(config)@.dom() == old(config)@.dom()
            &&& final(config)@[token@].current_token == Some(res.access_token)
            &&& final(config)@[token@].token_expiry == crate::user::expiry_after(
                now,
                res.expires_in,
            )
            &&& final(config)@[token@].refresh_token == old(config)@[token@].refresh_token
            &&& final(config)@[token@].spotify_id == old(config)@[token@].spotify_id
            &&& forall|k: Seq<char>| #[trigger] old(config)@.contains_key(k) && k != token@ ==> final(config)@[k] == old(config)@[k]
        },
        old(config)@.contains_key(token@) ==> (r is Ok <==> registered(old(config)@[token@])
            && scopes_match(res.scope@)),
{
    let ghost m0 = config@;
    let mut user = match config.remove(token) {
        None => return Err(ApiError::NotFound),
        Some(u) => u,
    };
    let ghost u0 = user;
    let outcome = user.apply_refresh(res, now);
    config.insert_new(token.clone(), user);
    proof {
        assert(m0.remove(token@).insert(token@, u0) =~= m0);
        assert(config@.dom() =~= m0.dom());
    }
    outcome
}

/// Pruning at `now` removes exactly the pending records whose registration
/// window has passed, and never a registered record.
pub proof fn lemma_prune_eligibility(m: Map<Seq<char>, User>, now: i64, k: Seq<char>)
    requires
        m.contains_key(k),
    ensures
        !pruned(m, now).contains_key(k) <==> (!registered(m[k]) && now - m[k].token_expiry
            > REGISTRATION_TIME_MILLIS),
        registered(m[k]) ==> pruned(m, now).contains_key(k) && pruned(m, now)[k] == m[k],
{
}

/// Two registered pairing tokens `a` (registered earlier) and `b` (just registered) linked
/// to the same remote account `x`, with no third token linked to it: the
/// canonical token that deduplication may return is `a`, and after the merge
/// `b` is gone while `a` holds `b`'s record.
pub proof fn lemma_dedup_keeps_older(
    m: Map<Seq<char>, User>,
    a: Seq<char>,
    b: Seq<char>,
    x: Seq<char>,
    canon: Seq<char>,
)
    requires
        a != b,
        m.contains_key(a),
        m.contains_key(b),
        registered(m[a]),
        has_id(m[a], x),
        has_id(m[b], x),
        forall|k: Seq<char>| #[trigger] m.contains_key(k) && has_id(m[k], x) ==> k == a || k == b,
        canon != b ==> dup_of(m, b, canon),
        canon != b <==> exists|k: Seq<char>| dup_of(m, b, k),
    ensures
        canon == a,
        !merged(m, b, canon).contains_key(b),
        merged(m, b, canon).contains_key(a),
        merged(m, b, canon)[a] == m[b],
{
    assert(dup_of(m, b, a));
}

/// Registered records of `m` are linked to pairwise different remote accounts.
pub open spec fn ids_unique(m: Map<Seq<char>, User>) -> bool {
    forall|k1: Seq<char>, k2: Seq<char>|
        #[trigger] m.contains_key(k1) && #[trigger] m.contains_key(k2) && k1 != k2 && registered(
            m[k1],
        ) && registered(m[k2]) && m[k1].spotify_id is Some ==> !has_id(
            m[k2],
            m[k1].spotify_id->0@,
        )
}

/// Deduplication keeps at most one registered record per remote account: if
/// the registered records other than the new one had pairwise different
/// accounts, so do all registered records after the merge, and the canonical
/// token holds the new record.
pub proof fn lemma_dedup_keeps_ids_unique(m: Map<Seq<char>, User>, new: Seq<char>, canon: Seq<char>)
    requires
        m.contains_key(new),
        registered(m[new]),
        m[new].spotify_id is Some,
        ids_unique(m.remove(new)),
        canon != new <==> exists|k: Seq<char>| dup_of(m, new, k),
        canon != new ==> dup_of(m, new, canon),
    ensures
        ids_unique(merged(m, new, canon)),
        merged(m, new, canon).contains_key(canon),
        merged(m, new, canon)[canon] == m[new],
{
    let r = merged(m, new, canon);
    let x = m[new].spotify_id->0@;
    assert forall|k1: Seq<char>, k2: Seq<char>|
        #[trigger] r.contains_key(k1) && #[trigger] r.contains_key(k2) && k1 != k2 && registered(
            r[k1],
        ) && registered(r[k2]) && r[k1].spotify_id is Some implies !has_id(
        r[k2],
        r[k1].spotify_id->0@,
    ) by {
        if k1 == canon {
            if has_id(r[k2], x) {
                if canon == new {
                    assert(dup_of(m, new, k2));
                } else {
                    assert(m.remove(new).contains_key(k2));
                    assert(m.remove(new).contains_key(canon));
                }
            }
        } else if k2 == canon {
            if has_id(r[k2], r[k1].spotify_id->0@) {
                if canon == new {
                    assert(dup_of(m, new, k1));
                } else {
                    assert(m.remove(new).contains_key(k1));
                    assert(m.remove(new).contains_key(canon));
                }
            }
        } else {
            assert(m.remove(new).contains_key(k1));
            assert(m.remove(new).contains_key(k2));
        }
    }
}

} // verus!
