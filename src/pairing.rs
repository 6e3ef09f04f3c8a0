use vstd::prelude::*;

use rand::Rng;

use crate::scopes::{
    SCOPE_MODIFY_PLAYBACK_STATE, SCOPE_READ_CURRENTLY_PLAYING, SCOPE_READ_PLAYBACK_STATE,
};
use crate::store::{pruned, Config};
use crate::user::{pending_at, User};

verus! {

/// Number of characters in a pairing token.
pub const TOKEN_LENGTH: usize = 16;

/// The characters a pairing token is drawn from.
pub const TOKEN_ALPHABET: &'static str = "abcdefghijlkmnopqrstuvwxyzABCDEFGHIJKLMNOPQRSTUVWXYZ0123456789";

/// How many fresh tokens are drawn before giving up on finding an unused one.
/// Drawing is bounded so that issuing a token always ends; with 62^16
/// possible tokens a store would need to be near-full for every draw to collide.
pub const MAX_TOKEN_ATTEMPTS: usize = 100;

pub const SPOTIFY_CLIENT_ID: &'static str = "fa91072114d148eaa15f9b59dcf564f7";

pub const SPOTIFY_REDIRECT_URI: &'static str = "https://espremote.cf/callback";

/// A well-formed pairing token.
pub open spec fn is_token(t: Seq<char>) -> bool {
    &&& t.len() == TOKEN_LENGTH
    &&& forall|i: int| 0 <= i < t.len() ==> TOKEN_ALPHABET@.contains(#[trigger] t[i])
}

/// The provider authorization URL for the pairing token `token`.
pub open spec fn authorize_url(token: Seq<char>) -> Seq<char> {
    "https://accounts.spotify.com/authorize/?client_id="@ + SPOTIFY_CLIENT_ID@
        + "&response_type=code&redirect_uri="@ + SPOTIFY_REDIRECT_URI@ + "&scope="@
        + SCOPE_READ_PLAYBACK_STATE@ + "%20"@ + SCOPE_READ_CURRENTLY_PLAYING@ + "%20"@
        + SCOPE_MODIFY_PLAYBACK_STATE@ + "&state="@ + token + "&show_dialog=false"@
}

/// A pairing token newly issued, with the URL the client is sent to.
pub struct Pairing {
    pub token: String,
    pub url: String,
}

/// Relies on rand's `thread_rng` and `Rng::gen_range`: an index below `n`,
/// drawn uniformly (`gen_range` panics on an empty range, hence `n > 0`).
#[verifier::external_body]
fn random_index(n: usize) -> (r: usize)
    requires
        n > 0,
    ensures
        r < n,
{
    rand::thread_rng().gen_range(0..n)
}

/// Indices into the alphabet that spell a pairing token.
pub open spec fn valid_indices(idx: Seq<usize>) -> bool {
    &&& idx.len() == TOKEN_LENGTH
    &&& forall|i: int| 0 <= i < idx.len() ==> #[trigger] idx[i] < TOKEN_ALPHABET@.len()
}

/// The token spelled by the alphabet indices `idx`.
pub open spec fn token_word(idx: Seq<usize>) -> Seq<char> {
    Seq::new(TOKEN_LENGTH as nat, |i: int| TOKEN_ALPHABET@[idx[i] as int])
}

/// Every token spelled by valid indices is well formed.
pub proof fn lemma_token_word_is_token(idx: Seq<usize>)
    requires
        valid_indices(idx),
    ensures
        is_token(token_word(idx)),
{
    let t = token_word(idx);
    assert forall|i: int| 0 <= i < t.len() implies TOKEN_ALPHABET@.contains(#[trigger] t[i]) by {
        assert(t[i] == TOKEN_ALPHABET@[idx[i] as int]);
    }
}

/// Spells the pairing token whose characters are the alphabet entries at `idx`.
pub fn token_from_indices(idx: &Vec<usize>) -> (r: String)
    requires
        valid_indices(idx@),
    ensures
        r@ == token_word(idx@),
{
    proof {
        reveal_strlit("abcdefghijlkmnopqrstuvwxyzABCDEFGHIJKLMNOPQRSTUVWXYZ0123456789");
    }
    let mut token = String::new();
    let mut i: usize = 0;
    while i < TOKEN_LENGTH
        invariant
            valid_indices(idx@),
            TOKEN_ALPHABET@.len() == 62,
            i <= TOKEN_LENGTH,
            token@ == token_word(idx@).subrange(0, i as int),
        decreases TOKEN_LENGTH - i,
    {
        let k = idx[i];
        let piece = TOKEN_ALPHABET.substring_char(k, k + 1);
        token.append(piece);
        proof {
            assert(token@ =~= token_word(idx@).subrange(0, i + 1));
        }
        i = i + 1;
    }
    proof {
        assert(token@ =~= token_word(idx@));
    }
    token
}

/// Draws the alphabet indices of a fresh token, each one uniformly.
pub fn draw_indices() -> (r: Vec<usize>)
    ensures
        valid_indices(r@),
{
    proof {
        reveal_strlit("abcdefghijlkmnopqrstuvwxyzABCDEFGHIJKLMNOPQRSTUVWXYZ0123456789");
    }
    let n = TOKEN_ALPHABET.unicode_len();
    let mut idx: Vec<usize> = Vec::new();
    while idx.len() < TOKEN_LENGTH
        invariant
            n == TOKEN_ALPHABET@.len(),
            n > 0,
            idx@.len() <= TOKEN_LENGTH,
            forall|i: int| 0 <= i < idx@.len() ==> #[trigger] idx@[i] < n,
        decreases TOKEN_LENGTH - idx@.len(),
    {
        idx.push(random_index(n));
    }
    idx
}

/// Draws a fresh pairing token.
pub fn generate_token() -> (r: String)
    ensures
        is_token(r@),
{
    let idx = draw_indices();
    proof {
        lemma_token_word_is_token(idx@);
    }
    token_from_indices(&idx)
}

/// Builds the provider authorization URL for `token`.
pub fn authorization_url(token: &String) -> (r: String)
    ensures
        r@ == authorize_url(token@),
{
    let mut url = String::from_str("https://accounts.spotify.com/authorize/?client_id=");
    url.append(SPOTIFY_CLIENT_ID);
    url.append("&response_type=code&redirect_uri=");
    url.append(SPOTIFY_REDIRECT_URI);
    url.append("&scope=");
    url.append(SCOPE_READ_PLAYBACK_STATE);
    url.append("%20");
    url.append(SCOPE_READ_CURRENTLY_PLAYING);
    url.append("%20");
    url.append(SCOPE_MODIFY_PLAYBACK_STATE);
    url.append("&state=");
    url.append(token.as_str());
    url.append("&show_dialog=false");
    url
}

/// What `create_user_at` leaves in a store that held `before`, at time `now`:
/// the pruned store, with a new pending record under the issued token if one was found.
pub open spec fn created(
    before: Map<Seq<char>, User>,
    after: Map<Seq<char>, User>,
    r: Option<Pairing>,
    now: i64,
) -> bool {
    match r {
        Some(p) => {
            &&& is_token(p.token@)
            &&& !before.contains_key(p.token@)
            &&& p.url@ == authorize_url(p.token@)
            &&& after.contains_key(p.token@)
            &&& pending_at(after[p.token@], now)
            &&& after == pruned(before, now).insert(p.token@, after[p.token@])
        },
        None => after == pruned(before, now),
    }
}

/// No key of `m` has the shape of a pairing token, so no drawn token can collide.
pub open spec fn no_token_keys(m: Map<Seq<char>, User>) -> bool {
    forall|k: Seq<char>| #[trigger] m.contains_key(k) ==> !is_token(k)
}

/// Issues `token` under a new pending record created at `now`, unless it is
/// already a key of the store.
pub fn try_issue(config: &mut Config, token: String, now: i64) -> (r: Option<Pairing>)
    requires
        old(config).wf(),
    ensures
        final(config).wf(),
        r is Some <==> !old(config)@.contains_key(token@),
        r is Some ==> {
            &&& r->0.token@ == token@
            &&& r->0.url@ == authorize_url(token@)
            &&& final(config)@.contains_key(token@)
            &&& pending_at(final(config)@[token@], now)
            &&& final(config)@ == old(config)@.insert(token@, final(config)@[token@])
        },
        r is None ==> final(config)@ == old(config)@,
{
    if config.contains_key(&token) {
        return None;
    }
    let url = authorization_url(&token);
    let user = User::new_at(now);
    let ghost u = user;
    config.insert_new(token.clone(), user);
    proof {
        assert(config@[token@] == u);
    }
    Some(Pairing { token, url })
}

/// Draw `j` spells the first token among `words` that is not a key of `m`.
pub open spec fn first_free(m: Map<Seq<char>, User>, words: Seq<Vec<usize>>, j: int) -> bool {
    &&& 0 <= j < words.len()
    &&& !m.contains_key(token_word(words[j]@))
    &&& forall|i: int| 0 <= i < j ==> m.contains_key(#[trigger] token_word(words[i]@))
}

/// Prunes timed-out pending records and issues the token spelled by the first
/// of the drawn index words `words` that was not a key of the store at call
/// time, under a new pending record created at `now`; the colliding words
/// before it are discarded.
pub fn issue_from_draws(config: &mut Config, words: &Vec<Vec<usize>>, now: i64) -> (r: Option<
    Pairing,
>)
    requires
        old(config).wf(),
        forall|i: int| 0 <= i < words@.len() ==> valid_indices(#[trigger] words@[i]@),
    ensures
        final(config).wf(),
        created(old(config)@, final(config)@, r, now),
        r is Some <==> exists|j: int| first_free(old(config)@, words@, j),
        r is Some ==> exists|j: int|
            first_free(old(config)@, words@, j) && r->0.token@ == token_word(words@[j]@),
{
    let mut i: usize = 0;
    while i < words.len()
        invariant
            config.wf(),
            config@ == old(config)@,
            i <= words@.len(),
            forall|k: int| 0 <= k < words@.len() ==> valid_indices(#[trigger] words@[k]@),
            forall|k: int| 0 <= k < i ==> config@.contains_key(#[trigger] token_word(words@[k]@)),
        decreases words@.len() - i,
    {
        let token = token_from_indices(&words[i]);
        if !config.contains_key(&token) {
            proof {
                lemma_token_word_is_token(words@[i as int]@);
                assert(first_free(old(config)@, words@, i as int));
            }
            config.prune_timed_out(now);
            return try_issue(config, token, now);
        }
        i = i + 1;
    }
    proof {
        assert forall|j: int| !first_free(old(config)@, words@, j) by {
            if 0 <= j < words@.len() {
                assert(old(config)@.contains_key(token_word(words@[j]@)));
            }
        }
    }
    config.prune_timed_out(now);
    None
}

/// Prunes timed-out pending records and issues a pairing token that was not
/// a key of the store at call time, under a new pending record created at
/// `now`. Up to `MAX_TOKEN_ATTEMPTS` tokens are drawn.
pub fn create_user_at(config: &mut Config, now: i64) -> (r: Option<Pairing>)
    requires
        old(config).wf(),
    ensures
        final(config).wf(),
        created(old(config)@, final(config)@, r, now),
        no_token_keys(old(config)@) ==> r is Some,
{
    let mut words: Vec<Vec<usize>> = Vec::new();
    while words.len() < MAX_TOKEN_ATTEMPTS
        invariant
            words@.len() <= MAX_TOKEN_ATTEMPTS,
            forall|k: int| 0 <= k < words@.len() ==> valid_indices(#[trigger] words@[k]@),
        decreases MAX_TOKEN_ATTEMPTS - words@.len(),
    {
        words.push(draw_indices());
    }
    proof {
        if no_token_keys(old(config)@) {
            lemma_token_word_is_token(words@[0]@);
            assert(first_free(old(config)@, words@, 0));
        }
    }
    issue_from_draws(config, &words, now)
}

/// `create_user_at` at the current time.
pub fn create_user(config: &mut Config) -> (r: Option<Pairing>)
    requires
        old(config).wf(),
    ensures
        final(config).wf(),
        exists|now: i64| created(old(config)@, final(config)@, r, now),
        no_token_keys(old(config)@) ==> r is Some,
{
    let now = crate::clock::now_millis();
    create_user_at(config, now)
}

} // verus!
