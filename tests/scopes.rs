use spotify_backend::scopes::check_scopes;

#[test]
fn scopes_exact_set_accepted() {
    assert!(check_scopes(
        "user-read-playback-state user-read-currently-playing user-modify-playback-state"
    ));
}

#[test]
fn scopes_in_other_order_accepted() {
    assert!(check_scopes(
        "user-modify-playback-state user-read-playback-state user-read-currently-playing"
    ));
}

#[test]
fn scopes_repeated_entry_accepted() {
    assert!(check_scopes(
        "user-read-playback-state user-read-currently-playing user-read-playback-state user-modify-playback-state"
    ));
}

#[test]
fn scopes_missing_one_rejected() {
    assert!(!check_scopes("user-read-playback-state user-read-currently-playing"));
}

#[test]
fn scopes_extra_one_rejected() {
    assert!(!check_scopes(
        "user-read-playback-state user-read-currently-playing user-modify-playback-state streaming"
    ));
}

#[test]
fn scopes_double_space_rejected() {
    assert!(!check_scopes(
        "user-read-playback-state  user-read-currently-playing user-modify-playback-state"
    ));
}

#[test]
fn scopes_empty_rejected() {
    assert!(!check_scopes(""));
}
