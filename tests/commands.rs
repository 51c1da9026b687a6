use moodesky::auth::{AtProtoAuth, ProtocolSession, RenewedTokens};
use moodesky::commands::{
    get_active_handles, get_concurrent_session_state, get_session_statuses, greet, login_app_password,
    logout_account, refresh_session, verify_account_token, CommandError,
};
use moodesky::database::DatabaseManager;
use moodesky::error::AuthError;
use moodesky::models::LoginRequest;
use moodesky::registry::SessionManager;

fn request() -> LoginRequest {
    LoginRequest {
        handle_or_email: "alice.test".to_string(),
        password: "app-pw".to_string(),
        service_url: None,
    }
}

fn handshake(handle: &str, did: &str, access: &str) -> Result<ProtocolSession, AuthError> {
    Ok(ProtocolSession {
        handle: handle.to_string(),
        did: did.to_string(),
        access_jwt: access.to_string(),
        refresh_jwt: "r".to_string(),
    })
}

struct Deck {
    auth: AtProtoAuth,
    db: DatabaseManager,
    sessions: SessionManager<u32>,
}

fn deck() -> Deck {
    Deck { auth: AtProtoAuth::new().unwrap(), db: DatabaseManager::new(), sessions: SessionManager::new() }
}

#[test]
fn login_records_one_active_account() {
    let mut d = deck();
    let resp = login_app_password(
        &mut d.auth,
        &mut d.db,
        &mut d.sessions,
        &request(),
        handshake("alice.test", "did:plc:abc", "abc"),
        None,
        7,
        1000,
    )
    .unwrap();
    assert_eq!(resp.account.id, Some(1));
    assert_eq!(resp.session_token, "ba7816bf8f01cfea414140de5dae2223b00361a396177a9cb410ff61f20015ad");
    let session = d.db.get_oauth_session(1).unwrap().unwrap();
    assert_eq!(session.access_token_hash, resp.session_token);
    assert!(session.refresh_token_hash.is_some());
    assert_ne!(session.refresh_token_hash, Some("r".to_string()));
    let st = get_concurrent_session_state(&d.db, &d.sessions).unwrap();
    assert_eq!(st.total_accounts, 1);
    assert!(st.all_accounts_active);
    assert_eq!(get_active_handles(&d.sessions), vec!["alice.test".to_string()]);
    assert_eq!(verify_account_token(&d.auth, "alice.test", "https://bsky.social"), Ok(true));
}

#[test]
fn relogin_keeps_one_account_and_one_session() {
    let mut d = deck();
    for (handle, token, agent) in [("alice.test", "t1", 1u32), ("alice.test", "t2", 2), ("alice2.test", "t3", 3)] {
        login_app_password(
            &mut d.auth,
            &mut d.db,
            &mut d.sessions,
            &request(),
            handshake(handle, "did:plc:abc", token),
            None,
            agent,
            1000,
        )
        .unwrap();
    }
    let st = get_concurrent_session_state(&d.db, &d.sessions).unwrap();
    assert_eq!(st.total_accounts, 1);
    assert_eq!(st.active_accounts[0].handle, "alice2.test");
    login_app_password(
        &mut d.auth,
        &mut d.db,
        &mut d.sessions,
        &request(),
        handshake("alice2.test", "did:plc:abc", "t4"),
        None,
        4,
        1000,
    )
    .unwrap();
    assert_eq!(get_active_handles(&d.sessions), vec!["alice.test".to_string(), "alice2.test".to_string()]);
    assert_eq!(get_session_statuses(&d.sessions).len(), 2);
}

#[test]
fn failed_login_leaves_nothing_behind() {
    let mut d = deck();
    let r = login_app_password(
        &mut d.auth,
        &mut d.db,
        &mut d.sessions,
        &request(),
        Err(AuthError::ServiceUnreachable),
        None,
        1,
        1000,
    );
    assert_eq!(r.map(|r| r.success), Err(CommandError::Auth(AuthError::ServiceUnreachable)));
    let mut empty = request();
    empty.password = String::new();
    let r = login_app_password(
        &mut d.auth,
        &mut d.db,
        &mut d.sessions,
        &empty,
        handshake("alice.test", "did:plc:abc", "t"),
        None,
        1,
        1000,
    );
    assert_eq!(r.map(|r| r.success), Err(CommandError::Auth(AuthError::InvalidCredentials)));
    assert_eq!(get_concurrent_session_state(&d.db, &d.sessions).unwrap().total_accounts, 0);
    assert!(get_active_handles(&d.sessions).is_empty());
    assert_eq!(verify_account_token(&d.auth, "alice.test", ""), Ok(false));
}

#[test]
fn logout_twice_is_harmless() {
    let mut d = deck();
    login_app_password(
        &mut d.auth,
        &mut d.db,
        &mut d.sessions,
        &request(),
        handshake("alice.test", "did:plc:abc", "t"),
        None,
        1,
        1000,
    )
    .unwrap();
    login_app_password(
        &mut d.auth,
        &mut d.db,
        &mut d.sessions,
        &request(),
        handshake("bob.test", "did:plc:bob", "b"),
        None,
        2,
        1000,
    )
    .unwrap();
    assert_eq!(logout_account(&mut d.auth, &mut d.db, &mut d.sessions, "alice.test", 3000), Ok(()));
    assert_eq!(logout_account(&mut d.auth, &mut d.db, &mut d.sessions, "alice.test", 3000), Ok(()));
    let alice = d.db.get_account_by_handle("alice.test").unwrap().unwrap();
    assert!(!alice.is_active);
    assert_eq!(alice.updated_at, Some(3000));
    assert_eq!(get_concurrent_session_state(&d.db, &d.sessions).unwrap().total_accounts, 1);
    assert_eq!(get_active_handles(&d.sessions), vec!["bob.test".to_string()]);
    assert_eq!(verify_account_token(&d.auth, "bob.test", ""), Ok(true));
    assert_eq!(verify_account_token(&d.auth, "alice.test", ""), Ok(false));
}

#[test]
fn logout_of_unknown_handle_reports_not_found() {
    let mut d = deck();
    assert_eq!(
        logout_account(&mut d.auth, &mut d.db, &mut d.sessions, "ghost.test", 3000),
        Err(vec![CommandError::NotFound("ghost.test".to_string())])
    );
}

#[test]
fn verify_never_logged_in_is_false() {
    let d = deck();
    assert_eq!(verify_account_token(&d.auth, "nobody.test", "https://bsky.social"), Ok(false));
}

#[test]
fn greeting_names_the_caller() {
    assert_eq!(greet("Ada"), "Hello from moodeSky with atrium-rs! Ada");
}

#[test]
fn refresh_persists_the_new_fingerprint_and_expiry() {
    let mut d = deck();
    let renewed = || {
        Ok(RenewedTokens { access_jwt: "abc".to_string(), refresh_jwt: "r2".to_string(), expires_at: 9000 })
    };
    assert_eq!(
        refresh_session(&mut d.auth, &mut d.db, "alice.test", renewed(), 1500).map(|r| r.expires_at),
        Err(CommandError::NotFound("alice.test".to_string()))
    );
    login_app_password(
        &mut d.auth,
        &mut d.db,
        &mut d.sessions,
        &request(),
        handshake("alice.test", "did:plc:abc", "t1"),
        None,
        1,
        1000,
    )
    .unwrap();
    let before = d.db.get_oauth_session(1).unwrap().unwrap();
    assert_eq!(
        refresh_session(&mut d.auth, &mut d.db, "alice.test", Err(AuthError::NetworkFailure), 1500).map(|r| r.expires_at),
        Err(CommandError::Auth(AuthError::NetworkFailure))
    );
    assert_eq!(d.db.get_oauth_session(1).unwrap().unwrap().access_token_hash, before.access_token_hash);
    let resp = refresh_session(&mut d.auth, &mut d.db, "alice.test", renewed(), 1500).unwrap();
    assert_eq!(resp.session_token, "ba7816bf8f01cfea414140de5dae2223b00361a396177a9cb410ff61f20015ad");
    assert_eq!(resp.expires_at, 9000);
    let after = d.db.get_oauth_session(1).unwrap().unwrap();
    assert_eq!(after.access_token_hash, resp.session_token);
    assert_eq!(after.expires_at, Some(9000));
    assert_ne!(after.refresh_token_hash, before.refresh_token_hash);
    assert_eq!(d.auth.get_stored_refresh_token("alice.test"), Ok(Some("r2".to_string())));
}

#[test]
fn relogin_under_a_new_handle_keeps_the_row() {
    let mut d = deck();
    for (handle, agent) in [("alice.test", 1u32), ("alice-new.test", 2)] {
        let resp = login_app_password(
            &mut d.auth,
            &mut d.db,
            &mut d.sessions,
            &request(),
            handshake(handle, "did:plc:abc", "t"),
            None,
            agent,
            1000,
        )
        .unwrap();
        assert_eq!(resp.account.id, Some(1));
    }
    let a = d.db.get_account_by_handle("alice-new.test").unwrap().unwrap();
    assert_eq!(a.id, Some(1));
    assert!(a.is_active);
    assert!(d.db.get_account_by_handle("alice.test").unwrap().is_none());
    assert_eq!(get_concurrent_session_state(&d.db, &d.sessions).unwrap().total_accounts, 1);
}
