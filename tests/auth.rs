use spotify_automation::auth::{AuthAction, AuthEvent, AuthManager, Grant};
use spotify_automation::errors::Error;

fn grant(access: &str, refresh: Option<&str>) -> Grant {
    Grant { access_token: access.to_string(), refresh_token: refresh.map(|s| s.to_string()), expires_at: 3600 }
}

#[test]
fn restore_from_empty_store_fails_without_remote_call() {
    let mut m = AuthManager::new();
    match m.restore_from_store() {
        AuthAction::ReadStore { key } => assert_eq!(key, "spotify_automation_refresh_token"),
        _ => panic!("the store must be read first"),
    }
    match m.on_event(AuthEvent::StoreValue(None)) {
        AuthAction::Done(r) => assert_eq!(r, Err(Error::NoTokenStored)),
        _ => panic!("no remote call may follow an empty store"),
    }
    assert!(!m.is_authenticated());
}

#[test]
fn restore_from_store_renews_the_stored_credential() {
    let mut m = AuthManager::new();
    m.restore_from_store();
    match m.on_event(AuthEvent::StoreValue(Some("r1".to_string()))) {
        AuthAction::Renew { credential } => assert_eq!(credential, "r1"),
        _ => panic!("the stored credential must be renewed"),
    }
    match m.on_event(AuthEvent::Granted(grant("a2", None))) {
        AuthAction::Done(r) => assert_eq!(r, Ok(())),
        _ => panic!(),
    }
    assert!(m.is_authenticated());
    assert_eq!(m.refresh_credential(), Ok("r1".to_string()));
}

#[test]
fn refused_renewal_keeps_the_prior_session() {
    let mut m = AuthManager::new();
    m.exchange_code("code".to_string());
    m.on_event(AuthEvent::Granted(grant("a1", Some("r1"))));
    match m.renew() {
        AuthAction::Renew { credential } => assert_eq!(credential, "r1"),
        _ => panic!(),
    }
    match m.on_event(AuthEvent::Rejected("expired".to_string())) {
        AuthAction::Done(r) => assert_eq!(r, Err(Error::NoAuthToken)),
        _ => panic!(),
    }
    assert_eq!(m.refresh_credential(), Ok("r1".to_string()));
}

#[test]
fn renewal_with_new_credential_replaces_it() {
    let mut m = AuthManager::new();
    m.restore_from_credential("r1".to_string());
    m.on_event(AuthEvent::Granted(grant("a2", Some("r2"))));
    assert_eq!(m.refresh_credential(), Ok("r2".to_string()));
    match m.persist() {
        AuthAction::WriteStore { key, value } => {
            assert_eq!(key, "spotify_automation_refresh_token");
            assert_eq!(value, "r2");
        }
        _ => panic!(),
    }
}

#[test]
fn exchange_outcomes() {
    let mut m = AuthManager::new();
    match m.exchange_code("c".to_string()) {
        AuthAction::ExchangeCode { code } => assert_eq!(code, "c"),
        _ => panic!(),
    }
    match m.on_event(AuthEvent::Rejected("bad code".to_string())) {
        AuthAction::Done(r) => assert_eq!(r, Err(Error::AuthorizationFailed("bad code".to_string()))),
        _ => panic!(),
    }
    assert!(!m.is_authenticated());
    m.exchange_code("c".to_string());
    match m.on_event(AuthEvent::Granted(grant("a", None))) {
        AuthAction::Done(r) => assert_eq!(r, Err(Error::NoAuthToken)),
        _ => panic!(),
    }
    assert!(!m.is_authenticated());
}

#[test]
fn no_session_means_no_credential() {
    let m = AuthManager::new();
    assert_eq!(m.refresh_credential(), Err(Error::NoAuthToken));
    assert!(matches!(m.persist(), AuthAction::Done(Err(Error::NoAuthToken))));
    let mut m = AuthManager::new();
    assert!(matches!(m.renew(), AuthAction::Done(Err(Error::NoAuthToken))));
    assert!(matches!(m.on_event(AuthEvent::StoreValue(None)), AuthAction::Done(Err(Error::NoAuthToken))));
}
