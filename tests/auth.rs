use moodesky::auth::{AtProtoAuth, ProfileInfo, ProtocolSession, RenewedTokens};
use moodesky::error::AuthError;
use moodesky::models::{AuthType, LoginRequest};

fn request(handle: &str, password: &str) -> LoginRequest {
    LoginRequest {
        handle_or_email: handle.to_string(),
        password: password.to_string(),
        service_url: None,
    }
}

fn renewed(access: &str, refresh: &str) -> RenewedTokens {
    RenewedTokens { access_jwt: access.to_string(), refresh_jwt: refresh.to_string(), expires_at: 500 }
}

fn session(access: &str) -> ProtocolSession {
    ProtocolSession {
        handle: "alice.test".to_string(),
        did: "did:plc:abc".to_string(),
        access_jwt: access.to_string(),
        refresh_jwt: "refresh-1".to_string(),
    }
}

#[test]
fn fingerprint_is_sha256_hex() {
    let auth = AtProtoAuth::new().unwrap();
    assert_eq!(
        auth.create_session_token("abc"),
        "ba7816bf8f01cfea414140de5dae2223b00361a396177a9cb410ff61f20015ad"
    );
}

#[test]
fn login_stores_tokens_and_fingerprints_the_access_token() {
    let mut auth = AtProtoAuth::new().unwrap();
    let resp = auth.login_with_app_password(&request("alice.test", "pw"), Ok(session("abc")), None).unwrap();
    assert!(resp.success);
    assert_eq!(resp.session_token, "ba7816bf8f01cfea414140de5dae2223b00361a396177a9cb410ff61f20015ad");
    assert_eq!(resp.account.did, "did:plc:abc");
    assert_eq!(resp.account.service_url, "https://bsky.social");
    assert_eq!(resp.account.auth_type, AuthType::AppPassword);
    assert!(resp.account.display_name.is_none());
    assert_eq!(auth.get_stored_access_token("alice.test"), Ok(Some("abc".to_string())));
    assert_eq!(auth.get_stored_refresh_token("alice.test"), Ok(Some("refresh-1".to_string())));
    assert_eq!(auth.verify_token("alice.test", "https://bsky.social"), Ok(true));
}

#[test]
fn login_keeps_profile_and_custom_service() {
    let mut auth = AtProtoAuth::new().unwrap();
    let mut req = request("alice.test", "pw");
    req.service_url = Some("https://pds.example".to_string());
    let profile = ProfileInfo { display_name: Some("Alice".to_string()), avatar_url: None };
    let resp = auth.login_with_app_password(&req, Ok(session("t")), Some(profile)).unwrap();
    assert_eq!(resp.account.service_url, "https://pds.example");
    assert_eq!(resp.account.display_name, Some("Alice".to_string()));
}

#[test]
fn empty_credentials_are_refused() {
    let mut auth = AtProtoAuth::new().unwrap();
    assert_eq!(
        auth.login_with_app_password(&request("", "pw"), Ok(session("t")), None).map(|r| r.success),
        Err(AuthError::InvalidCredentials)
    );
    assert_eq!(
        auth.login_with_app_password(&request("alice.test", ""), Ok(session("t")), None).map(|r| r.success),
        Err(AuthError::InvalidCredentials)
    );
    assert_eq!(auth.get_stored_access_token("alice.test"), Ok(None));
}

#[test]
fn failed_handshake_changes_nothing() {
    let mut auth = AtProtoAuth::new().unwrap();
    let r = auth.login_with_app_password(&request("alice.test", "pw"), Err(AuthError::NetworkFailure), None);
    assert_eq!(r.map(|r| r.success), Err(AuthError::NetworkFailure));
    assert_eq!(auth.verify_token("alice.test", ""), Ok(false));
}

#[test]
fn verify_unknown_handle_is_false() {
    let auth = AtProtoAuth::new().unwrap();
    assert_eq!(auth.verify_token("nobody.test", "https://bsky.social"), Ok(false));
    assert_eq!(auth.get_stored_refresh_token("nobody.test"), Ok(None));
}

#[test]
fn refresh_needs_a_stored_refresh_token() {
    let mut auth = AtProtoAuth::new().unwrap();
    assert_eq!(
        auth.refresh_access_token("alice.test", Ok(renewed("a2", "r2"))),
        Err(AuthError::NoRefreshToken)
    );
    auth.login_with_app_password(&request("alice.test", "pw"), Ok(session("a1")), None).unwrap();
    assert_eq!(
        auth.refresh_access_token("alice.test", Err(AuthError::ProtocolError("expired".to_string()))),
        Err(AuthError::ProtocolError("expired".to_string()))
    );
    assert_eq!(auth.get_stored_access_token("alice.test"), Ok(Some("a1".to_string())));
    let fp = auth.refresh_access_token("alice.test", Ok(renewed("abc", "r2"))).unwrap();
    assert_eq!(fp, "ba7816bf8f01cfea414140de5dae2223b00361a396177a9cb410ff61f20015ad");
    assert_eq!(auth.get_stored_refresh_token("alice.test"), Ok(Some("r2".to_string())));
}

#[test]
fn delete_tokens_and_restore_session() {
    let mut auth = AtProtoAuth::new().unwrap();
    assert_eq!(auth.authenticated_tokens("alice.test"), Err(AuthError::NoAccessToken));
    auth.login_with_app_password(&request("alice.test", "pw"), Ok(session("a1")), None).unwrap();
    assert_eq!(
        auth.authenticated_tokens("alice.test"),
        Ok(("a1".to_string(), Some("refresh-1".to_string())))
    );
    assert_eq!(auth.delete_stored_tokens("alice.test"), Ok(()));
    assert_eq!(auth.delete_stored_tokens("alice.test"), Ok(()));
    assert_eq!(auth.verify_token("alice.test", ""), Ok(false));
}
