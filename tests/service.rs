use spotify_backend::pairing::{
    authorization_url, create_user, create_user_at, draw_indices, generate_token, issue_from_draws,
    token_from_indices, try_issue, TOKEN_ALPHABET, TOKEN_LENGTH,
};
use spotify_backend::service::{
    begin_registration, ensure_unique, lookup_token, refresh_user_token, register_failure,
    register_success,
};
use spotify_backend::store::Config;
use spotify_backend::user::{ApiError, TokenLookup, TokenResponse, User};

const SCOPES: &str =
    "user-read-playback-state user-read-currently-playing user-modify-playback-state";

fn grant(access: &str) -> TokenResponse {
    TokenResponse {
        scope: SCOPES.to_string(),
        access_token: access.to_string(),
        expires_in: 3600,
        refresh_token: Some(format!("refresh-{}", access)),
    }
}

fn s(x: &str) -> String {
    x.to_string()
}

#[test]
fn generated_tokens_are_well_formed() {
    for _ in 0..50 {
        let t = generate_token();
        assert_eq!(t.chars().count(), TOKEN_LENGTH);
        assert!(t.chars().all(|c| TOKEN_ALPHABET.contains(c)));
        assert!(t.chars().all(|c| c.is_ascii_alphanumeric()));
    }
}

#[test]
fn authorization_url_exact() {
    assert_eq!(
        authorization_url(&s("abc")),
        "https://accounts.spotify.com/authorize/?client_id=fa91072114d148eaa15f9b59dcf564f7&response_type=code&redirect_uri=https://espremote.cf/callback&scope=user-read-playback-state%20user-read-currently-playing%20user-modify-playback-state&state=abc&show_dialog=false"
    );
}

#[test]
fn create_user_adds_pending_entry() {
    let mut c = Config::new();
    let p = create_user_at(&mut c, 100).unwrap();
    assert_eq!(c.entries().len(), 1);
    let u = c.get(&p.token).unwrap();
    assert!(!u.is_registered());
    assert_eq!(u.token_expiry, 100);
    assert!(p.url.contains(&format!("state={}&", p.token)));
    let q = create_user(&mut c).unwrap();
    assert_ne!(p.token, q.token);
    assert!(c.contains_key(&q.token));
}

#[test]
fn create_user_prunes_timed_out_only() {
    let mut c = Config::new();
    assert!(c.add(s("old"), User::new_at(0)));
    assert!(c.add(s("young"), User::new_at(20_000)));
    let mut reg = User::new_at(0);
    reg.register(grant("a"), Ok(s("X")), 0).unwrap();
    assert!(c.add(s("reg"), reg));
    let p = create_user_at(&mut c, 30_001).unwrap();
    assert!(!c.contains_key(&s("old")));
    assert!(c.contains_key(&s("young")));
    assert!(c.contains_key(&s("reg")));
    assert!(c.contains_key(&p.token));
    assert_eq!(c.entries().len(), 3);
}

#[test]
fn create_user_keeps_entry_at_window_edge() {
    let mut c = Config::new();
    assert!(c.add(s("edge"), User::new_at(0)));
    create_user_at(&mut c, 30_000).unwrap();
    assert!(c.contains_key(&s("edge")));
}

#[test]
fn add_refuses_duplicate_key() {
    let mut c = Config::default();
    assert!(c.add(s("k"), User::new_at(1)));
    assert!(!c.add(s("k"), User::new_at(2)));
    assert_eq!(c.get(&s("k")).unwrap().token_expiry, 1);
    assert!(c.remove(&s("k")).is_some());
    assert!(c.remove(&s("k")).is_none());
}

#[test]
fn callback_guard() {
    let mut c = Config::new();
    assert_eq!(begin_registration(&c, &s("none")), Err(ApiError::NotFound));
    assert!(c.add(s("p"), User::new_at(0)));
    assert_eq!(begin_registration(&c, &s("p")), Ok(()));
    register_success(&mut c, s("p"), grant("a"), Ok(s("X")), 0).unwrap();
    assert_eq!(begin_registration(&c, &s("p")), Err(ApiError::AlreadyRegistered));
    assert_eq!(
        register_success(&mut c, s("p"), grant("b"), Ok(s("X")), 0),
        Err(ApiError::AlreadyRegistered)
    );
}

#[test]
fn register_success_without_duplicate() {
    let mut c = Config::new();
    assert!(c.add(s("p"), User::new_at(0)));
    assert_eq!(register_success(&mut c, s("p"), grant("a"), Ok(s("X")), 0), Ok(s("p")));
    assert!(c.get(&s("p")).unwrap().is_registered());
}

#[test]
fn register_success_scope_error_keeps_pending() {
    let mut c = Config::new();
    assert!(c.add(s("p"), User::new_at(0)));
    let mut bad = grant("a");
    bad.scope = s("user-read-playback-state");
    assert_eq!(register_success(&mut c, s("p"), bad, Ok(s("X")), 0), Err(ApiError::Scope));
    assert!(c.get(&s("p")).unwrap().refresh_token.is_none());
    assert_eq!(register_success(&mut c, s("q"), grant("a"), Ok(s("X")), 0), Err(ApiError::NotFound));
}

#[test]
fn dedup_moves_record_to_older_token() {
    let mut c = Config::new();
    assert!(c.add(s("A"), User::new_at(0)));
    assert_eq!(register_success(&mut c, s("A"), grant("first"), Ok(s("X")), 0), Ok(s("A")));
    assert!(c.add(s("B"), User::new_at(10)));
    assert_eq!(register_success(&mut c, s("B"), grant("second"), Ok(s("X")), 10), Ok(s("A")));
    assert!(!c.contains_key(&s("B")));
    assert_eq!(c.get(&s("A")).unwrap().current_token.as_deref(), Some("second"));
    assert_eq!(lookup_token(&c, &s("B"), 20), Err(ApiError::NotFound));
    assert_eq!(lookup_token(&c, &s("A"), 20), Ok(TokenLookup::Cached(s("second"))));
}

#[test]
fn ensure_unique_other_account_untouched() {
    let mut c = Config::new();
    let mut a = User::new_at(0);
    a.register(grant("a"), Ok(s("X")), 0).unwrap();
    let mut b = User::new_at(0);
    b.register(grant("b"), Ok(s("Y")), 0).unwrap();
    assert!(c.add(s("A"), a));
    assert!(c.add(s("B"), b));
    assert_eq!(ensure_unique(&mut c, s("B")), s("B"));
    assert_eq!(c.entries().len(), 2);
}

#[test]
fn declined_consent_removes_entry() {
    let mut c = Config::new();
    assert!(c.add(s("p"), User::new_at(0)));
    assert_eq!(register_failure(&mut c, &s("p"), &s("access_denied")), ApiError::ProviderDenied);
    assert!(!c.contains_key(&s("p")));
}

#[test]
fn other_provider_error_keeps_entry() {
    let mut c = Config::new();
    assert!(c.add(s("p"), User::new_at(0)));
    assert_eq!(
        register_failure(&mut c, &s("p"), &s("server_error")),
        ApiError::Provider(s("server_error"))
    );
    assert!(c.contains_key(&s("p")));
}

#[test]
fn lookup_errors() {
    let mut c = Config::new();
    assert!(c.add(s("p"), User::new_at(0)));
    assert_eq!(lookup_token(&c, &s("q"), 0), Err(ApiError::NotFound));
    assert_eq!(lookup_token(&c, &s("p"), 0), Err(ApiError::NotRegistered));
}

#[test]
fn lookup_refresh_after_expiry() {
    let mut c = Config::new();
    assert!(c.add(s("p"), User::new_at(0)));
    register_success(&mut c, s("p"), grant("a"), Ok(s("X")), 0).unwrap();
    assert_eq!(lookup_token(&c, &s("p"), 3_599_999), Ok(TokenLookup::Cached(s("a"))));
    assert_eq!(lookup_token(&c, &s("p"), 3_600_000), Ok(TokenLookup::Refresh(s("refresh-a"))));
    let mut fresh = grant("b");
    fresh.refresh_token = None;
    assert_eq!(refresh_user_token(&mut c, &s("p"), fresh, 3_600_000), Ok(s("b")));
    assert_eq!(lookup_token(&c, &s("p"), 3_600_001), Ok(TokenLookup::Cached(s("b"))));
    assert_eq!(refresh_user_token(&mut c, &s("q"), grant("c"), 0), Err(ApiError::NotFound));
}

#[test]
fn end_to_end_declined_pairing() {
    let mut c = Config::new();
    let p = create_user_at(&mut c, 1_000).unwrap();
    assert_eq!(c.entries().len(), 1);
    assert!(p.url.contains(&format!("state={}", p.token)));
    assert_eq!(register_failure(&mut c, &p.token, &s("access_denied")), ApiError::ProviderDenied);
    assert_eq!(c.entries().len(), 0);
    assert_eq!(lookup_token(&c, &p.token, 1_001), Err(ApiError::NotFound));
}

#[test]
fn token_from_indices_spells_alphabet_entries() {
    let idx: Vec<usize> = (0..16).collect();
    assert_eq!(token_from_indices(&idx), "abcdefghijlkmnop");
    let last = vec![61usize; 16];
    assert_eq!(token_from_indices(&last), "9999999999999999");
    let mixed = vec![26usize, 0, 52, 11, 10, 9, 1, 2, 3, 4, 5, 6, 7, 8, 60, 51];
    assert_eq!(token_from_indices(&mixed), "Aa0kljbcdefghi8Z");
}

#[test]
fn drawn_indices_are_in_range() {
    for _ in 0..20 {
        let idx = draw_indices();
        assert_eq!(idx.len(), TOKEN_LENGTH);
        assert!(idx.iter().all(|&i| i < 62));
    }
}

#[test]
fn try_issue_new_and_taken_token() {
    let mut c = Config::new();
    let p = try_issue(&mut c, s("tok"), 7).unwrap();
    assert_eq!(p.token, "tok");
    assert_eq!(p.url, authorization_url(&s("tok")));
    assert_eq!(c.get(&s("tok")).unwrap().token_expiry, 7);
    assert!(try_issue(&mut c, s("tok"), 9).is_none());
    assert_eq!(c.get(&s("tok")).unwrap().token_expiry, 7);
    assert_eq!(c.entries().len(), 1);
}

#[test]
fn dedup_ignores_pending_record_with_same_id() {
    let mut c = Config::new();
    let mut pending = User::new_at(0);
    pending.spotify_id = Some(s("X"));
    assert!(c.add(s("P"), pending));
    assert!(c.add(s("B"), User::new_at(0)));
    assert_eq!(register_success(&mut c, s("B"), grant("b"), Ok(s("X")), 0), Ok(s("B")));
    assert!(c.contains_key(&s("P")));
    assert!(c.contains_key(&s("B")));
}

#[test]
fn declined_consent_keeps_registered_entry() {
    let mut c = Config::new();
    assert!(c.add(s("p"), User::new_at(0)));
    register_success(&mut c, s("p"), grant("a"), Ok(s("X")), 0).unwrap();
    assert_eq!(register_failure(&mut c, &s("p"), &s("access_denied")), ApiError::ProviderDenied);
    assert!(c.contains_key(&s("p")));
    assert!(c.get(&s("p")).unwrap().is_registered());
    assert_eq!(lookup_token(&c, &s("p"), 1), Ok(TokenLookup::Cached(s("a"))));
}

#[test]
fn declined_consent_on_unknown_token() {
    let mut c = Config::new();
    assert!(c.add(s("p"), User::new_at(0)));
    assert_eq!(register_failure(&mut c, &s("q"), &s("access_denied")), ApiError::ProviderDenied);
    assert_eq!(c.entries().len(), 1);
}

#[test]
fn issue_from_draws_skips_colliding_words() {
    let mut c = Config::new();
    assert!(c.add(s("abcdefghijlkmnop"), User::new_at(0)));
    assert!(c.add(s("old"), User::new_at(0)));
    let words: Vec<Vec<usize>> = vec![(0..16).collect(), vec![61; 16], vec![0; 16]];
    let p = issue_from_draws(&mut c, &words, 40_000).unwrap();
    assert_eq!(p.token, "9999999999999999");
    assert!(!c.contains_key(&s("old")));
    assert!(!c.contains_key(&s("abcdefghijlkmnop")));
    assert_eq!(c.get(&s("9999999999999999")).unwrap().token_expiry, 40_000);
}

#[test]
fn issue_from_draws_all_colliding() {
    let mut c = Config::new();
    let mut reg = User::new_at(0);
    reg.register(grant("a"), Ok(s("X")), 0).unwrap();
    assert!(c.add(s("aaaaaaaaaaaaaaaa"), reg));
    let words: Vec<Vec<usize>> = vec![vec![0; 16], vec![0; 16]];
    assert!(issue_from_draws(&mut c, &words, 0).is_none());
    assert_eq!(c.entries().len(), 1);
}
