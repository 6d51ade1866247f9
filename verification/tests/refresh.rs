use telescope::error::TelescopeError;
use telescope::identity::{AuthenticatedIdentities, DiscordIdentity, GitHubIdentity, RootIdentity};
use telescope::refresh::{PendingRefresh, Refresh, RootRefresh};

fn gh(token: &str) -> GitHubIdentity {
    GitHubIdentity { access_token: token.to_string() }
}

fn dc(access: &str, expiration: i64, refresh: &str) -> DiscordIdentity {
    DiscordIdentity {
        access_token: access.to_string(),
        expiration,
        refresh_token: refresh.to_string(),
    }
}

fn rejected() -> TelescopeError {
    TelescopeError::ise("invalid_grant".to_string())
}

#[test]
fn github_root_is_never_exchanged() {
    let root = RootIdentity::GitHub(gh("t"));
    for now in [i64::MIN, 0, 1_700_000_000, i64::MAX] {
        assert_eq!(root.clone().refresh(now), RootRefresh::Done(root.clone()));
    }
}

#[test]
fn discord_root_is_exchanged_only_after_its_expiry() {
    let root = RootIdentity::Discord(dc("a", 100, "r"));
    assert_eq!(root.clone().refresh(99), RootRefresh::Done(root.clone()));
    assert_eq!(root.clone().refresh(100), RootRefresh::Done(root.clone()));
    assert_eq!(root.clone().refresh(101), RootRefresh::Exchange(dc("a", 100, "r")));
}

#[test]
fn refreshed_root_is_the_granted_credential() {
    assert_eq!(
        RootIdentity::refreshed(Ok(dc("new", 200, "next"))),
        Ok(RootIdentity::Discord(dc("new", 200, "next")))
    );
    assert_eq!(RootIdentity::refreshed(Err(rejected())), Err(rejected()));
}

#[test]
fn github_only_session_is_left_alone() {
    let session = RootIdentity::GitHub(gh("t")).make_authenticated_cookie();
    for now in [i64::MIN, 0, 1_700_000_000, i64::MAX] {
        assert_eq!(session.clone().refresh(now), Refresh::Done(session.clone()));
    }
}

#[test]
fn session_without_expired_credentials_is_left_alone() {
    let session = AuthenticatedIdentities {
        root: RootIdentity::GitHub(gh("t")),
        github: None,
        discord: Some(dc("a", 100, "r")),
    };
    assert_eq!(session.clone().refresh(100), Refresh::Done(session.clone()));
    let session = AuthenticatedIdentities {
        root: RootIdentity::Discord(dc("a", 100, "r")),
        github: Some(gh("t")),
        discord: None,
    };
    assert_eq!(session.clone().refresh(50), Refresh::Done(session));
}

#[test]
fn expired_root_is_exchanged_once_and_replaced_whole() {
    let session = AuthenticatedIdentities {
        root: RootIdentity::Discord(dc("old-access", 100, "old-refresh")),
        github: Some(gh("t")),
        discord: None,
    };
    let pending = match session.refresh(101) {
        Refresh::Exchange(pending) => pending,
        other => panic!("no exchange asked for: {:?}", other),
    };
    assert_eq!(pending.refresh_token(), "old-refresh");
    assert_eq!(
        pending,
        PendingRefresh::Root {
            expired: dc("old-access", 100, "old-refresh"),
            github: Some(gh("t")),
            discord: None,
        }
    );
    let refreshed = match pending.resume(Ok(dc("new-access", 700, "new-refresh")), 102) {
        Ok(Refresh::Done(refreshed)) => refreshed,
        other => panic!("the refresh is not over: {:?}", other),
    };
    assert_eq!(
        refreshed,
        AuthenticatedIdentities {
            root: RootIdentity::Discord(dc("new-access", 700, "new-refresh")),
            github: Some(gh("t")),
            discord: None,
        }
    );
    let slot = refreshed.get_discord().unwrap();
    assert!(slot.expiration > 100);
    assert_ne!(slot.access_token, "old-access");
    assert_ne!(slot.refresh_token, "old-refresh");
}

#[test]
fn rejected_root_exchange_fails_the_refresh() {
    let session = RootIdentity::Discord(dc("a", 100, "r")).make_authenticated_cookie();
    let pending = match session.refresh(101) {
        Refresh::Exchange(pending) => pending,
        other => panic!("no exchange asked for: {:?}", other),
    };
    assert_eq!(pending.resume(Err(rejected()), 101), Err(rejected()));
}

#[test]
fn expired_secondary_is_exchanged_after_a_good_root() {
    let session = AuthenticatedIdentities {
        root: RootIdentity::GitHub(gh("t")),
        github: None,
        discord: Some(dc("a", 100, "r")),
    };
    let pending = match session.refresh(101) {
        Refresh::Exchange(pending) => pending,
        other => panic!("no exchange asked for: {:?}", other),
    };
    assert_eq!(
        pending,
        PendingRefresh::Secondary {
            root: RootIdentity::GitHub(gh("t")),
            github: None,
            expired: dc("a", 100, "r"),
        }
    );
    assert_eq!(pending.refresh_token(), "r");
    assert_eq!(
        pending.resume(Ok(dc("b", 900, "s")), 101),
        Ok(Refresh::Done(AuthenticatedIdentities {
            root: RootIdentity::GitHub(gh("t")),
            github: None,
            discord: Some(dc("b", 900, "s")),
        }))
    );
}

#[test]
fn rejected_secondary_exchange_keeps_the_stale_credential() {
    let session = AuthenticatedIdentities {
        root: RootIdentity::GitHub(gh("t")),
        github: None,
        discord: Some(dc("a", 100, "r")),
    };
    let pending = match session.clone().refresh(101) {
        Refresh::Exchange(pending) => pending,
        other => panic!("no exchange asked for: {:?}", other),
    };
    assert_eq!(pending.resume(Err(rejected()), 101), Ok(Refresh::Done(session)));
}

#[test]
fn root_goes_first_and_the_secondary_after_it() {
    let session = AuthenticatedIdentities {
        root: RootIdentity::Discord(dc("root", 100, "root-refresh")),
        github: None,
        discord: Some(dc("second", 150, "second-refresh")),
    };
    let first = match session.refresh(200) {
        Refresh::Exchange(pending) => pending,
        other => panic!("no exchange asked for: {:?}", other),
    };
    assert_eq!(first.refresh_token(), "root-refresh");
    let second = match first.resume(Ok(dc("root2", 900, "root-refresh2")), 200) {
        Ok(Refresh::Exchange(pending)) => pending,
        other => panic!("no second exchange asked for: {:?}", other),
    };
    assert_eq!(second.refresh_token(), "second-refresh");
    assert_eq!(
        second.resume(Ok(dc("second2", 950, "second-refresh2")), 200),
        Ok(Refresh::Done(AuthenticatedIdentities {
            root: RootIdentity::Discord(dc("root2", 900, "root-refresh2")),
            github: None,
            discord: Some(dc("second2", 950, "second-refresh2")),
        }))
    );
}

#[test]
fn secondary_is_not_asked_for_when_the_root_is_rejected() {
    let session = AuthenticatedIdentities {
        root: RootIdentity::Discord(dc("root", 100, "root-refresh")),
        github: None,
        discord: Some(dc("second", 150, "second-refresh")),
    };
    let first = match session.refresh(200) {
        Refresh::Exchange(pending) => pending,
        other => panic!("no exchange asked for: {:?}", other),
    };
    assert_eq!(first.resume(Err(rejected()), 200), Err(rejected()));
}

#[test]
fn secondary_is_judged_at_the_time_the_root_came_back() {
    let session = AuthenticatedIdentities {
        root: RootIdentity::Discord(dc("root", 100, "root-refresh")),
        github: None,
        discord: Some(dc("second", 150, "second-refresh")),
    };
    let first = match session.refresh(120) {
        Refresh::Exchange(pending) => pending,
        other => panic!("no exchange asked for: {:?}", other),
    };
    // Still good when the answer arrives at 150.
    assert_eq!(
        first.clone().resume(Ok(dc("root2", 900, "x")), 150),
        Ok(Refresh::Done(AuthenticatedIdentities {
            root: RootIdentity::Discord(dc("root2", 900, "x")),
            github: None,
            discord: Some(dc("second", 150, "second-refresh")),
        }))
    );
    // Run out when the answer arrives at 151.
    assert!(matches!(
        first.resume(Ok(dc("root2", 900, "x")), 151),
        Ok(Refresh::Exchange(PendingRefresh::Secondary { .. }))
    ));
}

#[test]
fn granted_credential_is_not_judged_again() {
    let session = RootIdentity::Discord(dc("a", 100, "r")).make_authenticated_cookie();
    let pending = match session.refresh(500) {
        Refresh::Exchange(pending) => pending,
        other => panic!("no exchange asked for: {:?}", other),
    };
    // The endpoint grants a credential that has run out already: it is taken as it is.
    assert_eq!(
        pending.resume(Ok(dc("b", 200, "s")), 500),
        Ok(Refresh::Done(RootIdentity::Discord(dc("b", 200, "s")).make_authenticated_cookie()))
    );
}
