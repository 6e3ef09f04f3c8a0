use vstd::prelude::*;

use crate::scopes::{check_scopes, scopes_match};

verus! {

/// How long a pending registration may wait for the OAuth callback, in milliseconds.
pub const REGISTRATION_TIME_MILLIS: i64 = 30000;

/// The errors of the registration and token lifecycle.
#[derive(Debug, PartialEq, Eq)]
pub enum ApiError {
    /// No record is stored under the pairing token.
    NotFound,
    /// The record has already completed registration.
    AlreadyRegistered,
    /// The record has not completed registration.
    NotRegistered,
    /// The provider granted another set of scopes than the required one.
    Scope,
    /// The provider's authorization-code exchange returned no refresh token.
    MissingRefreshToken,
    /// A request to the provider could not be sent.
    Network,
    /// The provider's answer could not be parsed.
    Parse,
    /// The user declined consent at the provider.
    ProviderDenied,
    /// The provider reported another error, with its text.
    Provider(String),
}

/// What the provider's token endpoint answered, as plain values.
pub struct TokenResponse {
    pub scope: String,
    pub access_token: String,
    /// Lifetime of `access_token`, in seconds.
    pub expires_in: i64,
    pub refresh_token: Option<String>,
}

/// One remote account's credential state.
pub struct User {
    pub refresh_token: Option<String>,
    pub current_token: Option<String>,
    /// Milliseconds since the Unix epoch. While the record is pending this
    /// is the time it was created.
    pub token_expiry: i64,
    pub spotify_id: Option<String>,
}

/// A pending record created at `now`.
pub open spec fn pending_at(u: User, now: i64) -> bool {
    &&& u.refresh_token is None
    &&& u.current_token is None
    &&& u.spotify_id is None
    &&& u.token_expiry == now
}

pub open spec fn registered(u: User) -> bool {
    u.refresh_token is Some
}

/// A pending record whose registration window has passed at `now`.
pub open spec fn timed_out(u: User, now: i64) -> bool {
    !registered(u) && now - u.token_expiry > REGISTRATION_TIME_MILLIS
}

/// `now` plus `secs` seconds, in milliseconds, held within the range of `i64`.
pub open spec fn expiry_after(now: i64, secs: i64) -> i64 {
    let t = now + secs * 1000;
    if t > i64::MAX {
        i64::MAX
    } else if t < i64::MIN {
        i64::MIN
    } else {
        t as i64
    }
}

/// The expiry of a token that lives `secs` seconds from `now`.
pub fn expiry_from(now: i64, secs: i64) -> (r: i64)
    ensures
        r == expiry_after(now, secs),
{
    let t: i128 = now as i128 + secs as i128 * 1000;
    if t > i64::MAX as i128 {
        i64::MAX
    } else if t < i64::MIN as i128 {
        i64::MIN
    } else {
        t as i64
    }
}


/// What a token lookup needs next: the cached access token is still valid,
/// or the provider must be asked for a new one with the refresh token.
#[derive(Debug, PartialEq, Eq)]
pub enum TokenLookup {
    Cached(String),
    Refresh(String),
}

/// The token response of an authorization-code exchange is acceptable: it
/// grants exactly the required scopes and carries a refresh token.
pub open spec fn grant_ok(res: TokenResponse) -> bool {
    scopes_match(res.scope@) && res.refresh_token is Some
}

/// The record after a successful registration from `res` and the account id
/// `id`, at time `now`.
pub open spec fn registered_user(res: TokenResponse, id: String, now: i64) -> User {
    User {
        refresh_token: res.refresh_token,
        current_token: Some(res.access_token),
        token_expiry: expiry_after(now, res.expires_in),
        spotify_id: Some(id),
    }
}

/// Checks the token response of an authorization-code exchange, before the
/// account profile is fetched with its access token.
pub fn validate_grant(res: &TokenResponse) -> (r: Result<(), ApiError>)
    ensures
        !scopes_match(res.scope@) ==> r == Err::<(), ApiError>(ApiError::Scope),
        scopes_match(res.scope@) && res.refresh_token is None ==> r == Err::<(), ApiError>(
            ApiError::MissingRefreshToken,
        ),
        r is Ok <==> grant_ok(*res),
{
    if !check_scopes(res.scope.as_str()) {
        Err(ApiError::Scope)
    } else if res.refresh_token.is_none() {
        Err(ApiError::MissingRefreshToken)
    } else {
        Ok(())
    }
}

impl User {
    /// A pending record created at `now`.
    pub fn new_at(now: i64) -> (r: User)
        ensures
            pending_at(r, now),
    {
        User { refresh_token: None, current_token: None, token_expiry: now, spotify_id: None }
    }

    /// A pending record created at the current time.
    pub fn new() -> (r: User)
        ensures
            r.refresh_token is None,
            r.current_token is None,
            r.spotify_id is None,
    {
        User::new_at(crate::clock::now_millis())
    }

    pub fn is_registered(&self) -> (r: bool)
        ensures
            r == registered(*self),
    {
        self.refresh_token.is_some()
    }

    /// Whether the record is still pending and its registration window has
    /// passed at `now`.
    pub fn registration_timed_out_at(&self, now: i64) -> (r: bool)
        ensures
            r == timed_out(*self, now),
    {
        self.refresh_token.is_none() && (now as i128) - (self.token_expiry as i128)
            > REGISTRATION_TIME_MILLIS as i128
    }

    /// Whether the record is still pending and its registration window has
    /// passed by the current time.
    pub fn registration_timed_out(&self) -> (r: bool)
        ensures
            r ==> !registered(*self),
            exists|now: i64| r == timed_out(*self, now),
    {
        self.registration_timed_out_at(crate::clock::now_millis())
    }

    pub fn get_spotify_id(&self) -> (r: Option<&String>)
        ensures
            r is Some <==> self.spotify_id is Some,
            r is Some ==> *r->0 == self.spotify_id->0,
    {
        self.spotify_id.as_ref()
    }

    /// Completes registration from the provider's token response and the
    /// account id of the profile fetched with its access token (or the error
    /// of that fetch), at time `now`. The record changes only on success.
    pub fn register(&mut self, res: TokenResponse, profile: Result<String, ApiError>, now: i64) -> (r:
        Result<(), ApiError>)
        ensures
            registered(*old(self)) ==> r == Err::<(), ApiError>(ApiError::AlreadyRegistered),
            !registered(*old(self)) && !scopes_match(res.scope@) ==> r == Err::<(), ApiError>(
                ApiError::Scope,
            ),
            !registered(*old(self)) && scopes_match(res.scope@) && res.refresh_token is None
                ==> r == Err::<(), ApiError>(ApiError::MissingRefreshToken),
            !registered(*old(self)) && grant_ok(res) && profile is Err ==> r == Err::<(), ApiError>(
                profile->Err_0,
            ),
            r is Err ==> *final(self) == *old(self),
            r is Ok <==> !registered(*old(self)) && grant_ok(res) && profile is Ok,
            r is Ok ==> *final(self) == registered_user(res, profile->Ok_0, now),
    {
        if self.is_registered() {
            return Err(ApiError::AlreadyRegistered);
        }
        match validate_grant(&res) {
            Err(e) => Err(e),
            Ok(()) => match profile {
                Err(e) => Err(e),
                Ok(id) => {
                    self.token_expiry = expiry_from(now, res.expires_in);
                    self.current_token = Some(res.access_token);
                    self.refresh_token = res.refresh_token;
                    self.spotify_id = Some(id);
                    Ok(())
                },
            },
        }
    }

    /// Decides how to answer a token lookup at time `now`.
    pub fn get_spotify_token(&self, now: i64) -> (r: Result<TokenLookup, ApiError>)
        ensures
            !registered(*self) ==> r == Err::<TokenLookup, ApiError>(ApiError::NotRegistered),
            registered(*self) && self.current_token is Some && now < self.token_expiry ==> r
                == Ok::<TokenLookup, ApiError>(TokenLookup::Cached(self.current_token->0)),
            registered(*self) && !(self.current_token is Some && now < self.token_expiry) ==> r
                == Ok::<TokenLookup, ApiError>(TokenLookup::Refresh(self.refresh_token->0)),
    {
        match &self.refresh_token {
            None => Err(ApiError::NotRegistered),
            Some(refresh) => match &self.current_token {
                Some(t) if now < self.token_expiry => Ok(TokenLookup::Cached(t.clone())),
                _ => Ok(TokenLookup::Refresh(refresh.clone())),
            },
        }
    }

    /// Takes in the provider's answer to a refresh-token exchange made at
    /// time `now`, and returns the new access token.
    pub fn apply_refresh(&mut self, res: TokenResponse, now: i64) -> (r: Result<String, ApiError>)
        ensures
            !registered(*old(self)) ==> r == Err::<String, ApiError>(ApiError::NotRegistered),
            registered(*old(self)) && !scopes_match(res.scope@) ==> r == Err::<String, ApiError>(
                ApiError::Scope,
            ),
            r is Err ==> *final(self) == *old(self),
            r is Ok <==> registered(*old(self)) && scopes_match(res.scope@),
            r is Ok ==> {
                &&& r->Ok_0 == res.access_token
                &&& final(self).current_token == Some(res.access_token)
                &&& final(self).token_expiry == expiry_after(now, res.expires_in)
                &&& final(self).refresh_token == old(self).refresh_token
                &&& final(self).spotify_id == old(self).spotify_id
            },
    {
        if !self.is_registered() {
            return Err(ApiError::NotRegistered);
        }
        if !check_scopes(res.scope.as_str()) {
            return Err(ApiError::Scope);
        }
        let token = res.access_token.clone();
        self.token_expiry = expiry_from(now, res.expires_in);
        self.current_token = Some(res.access_token);
        Ok(token)
    }
}

} // verus!
