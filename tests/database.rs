use moodesky::database::{account_from_row, preferences_from_row, AccountRow, DatabaseManager, PreferencesRow};
use moodesky::error::{ParseError, PersistenceError, ValueKind};
use moodesky::models::{AuthType, CreateAccountRequest, Language, OAuthSession, Theme, UserPreferences};
use moodesky::registry::{HealthEvent, SessionManager};

fn alice() -> CreateAccountRequest {
    CreateAccountRequest {
        handle: "alice.test".to_string(),
        did: "did:plc:abc".to_string(),
        service_url: "https://example.test".to_string(),
        auth_type: AuthType::AppPassword,
        display_name: None,
        avatar_url: None,
    }
}

fn bob() -> CreateAccountRequest {
    CreateAccountRequest {
        handle: "bob.test".to_string(),
        did: "did:plc:bob".to_string(),
        service_url: "https://example.test".to_string(),
        auth_type: AuthType::OAuth,
        display_name: Some("Bob".to_string()),
        avatar_url: None,
    }
}

fn prefs(account_id: i64, theme: Theme) -> UserPreferences {
    UserPreferences {
        account_id,
        theme,
        language: Language::default(),
        notifications_enabled: true,
        auto_refresh_interval: 60,
        preferences_json: None,
        created_at: None,
        updated_at: None,
    }
}

#[test]
fn created_account_is_found_by_handle() {
    let mut db = DatabaseManager::new();
    assert_eq!(db.create_account(&alice(), 1000), Ok(1));
    let a = db.get_account_by_handle("alice.test").unwrap().unwrap();
    assert!(a.is_active);
    assert_eq!(a.auth_type, AuthType::AppPassword);
    assert_eq!(a.id, Some(1));
    assert_eq!(a.did, "did:plc:abc");
    assert!(a.created_at.is_some());
    assert!(db.get_account_by_handle("nobody.test").unwrap().is_none());
}

#[test]
fn duplicate_identity_is_refused() {
    let mut db = DatabaseManager::new();
    assert_eq!(db.create_account(&alice(), 1000), Ok(1));
    let mut again = alice();
    again.handle = "alice2.test".to_string();
    assert_eq!(db.create_account(&again, 1000), Err(PersistenceError::DuplicateIdentity));
    assert_eq!(db.get_all_active_accounts().unwrap().len(), 1);
}

#[test]
fn upsert_account_matches_by_identity() {
    let mut db = DatabaseManager::new();
    assert_eq!(db.create_account(&alice(), 1000), Ok(1));
    db.deactivate_account(1, 2000).unwrap();
    let mut renamed = alice();
    renamed.handle = "alice-new.test".to_string();
    assert_eq!(db.upsert_account(&renamed, 1000), Ok(1));
    let a = db.get_account_by_handle("alice-new.test").unwrap().unwrap();
    assert!(a.is_active);
    assert_eq!(a.id, Some(1));
    assert!(db.get_account_by_handle("alice.test").unwrap().is_none());
    assert_eq!(db.upsert_account(&bob(), 1000), Ok(2));
}

#[test]
fn preferences_upsert_and_read() {
    let mut db = DatabaseManager::new();
    assert_eq!(db.upsert_user_preferences(&prefs(1, Theme::Dark), 1000), Ok(()));
    let p = db.get_user_preferences(1).unwrap().unwrap();
    assert_eq!(p.theme, Theme::Dark);
    assert_eq!(p.language, Language::Japanese);
    assert_eq!(p.preferences_json, Some("{}".to_string()));
    assert_eq!(db.upsert_user_preferences(&prefs(1, Theme::Light), 1000), Ok(()));
    assert_eq!(db.get_user_preferences(1).unwrap().unwrap().theme, Theme::Light);
    assert!(db.get_user_preferences(2).unwrap().is_none());
}

#[test]
fn oauth_session_upsert_overwrites() {
    let mut db = DatabaseManager::new();
    let s = OAuthSession {
        id: None,
        account_id: 1,
        access_token_hash: "h1".to_string(),
        refresh_token_hash: None,
        expires_at: Some(100),
        scope: None,
        created_at: None,
        updated_at: None,
    };
    assert_eq!(db.upsert_oauth_session(&s, 1000), Ok(1));
    let mut s2 = s.clone();
    s2.access_token_hash = "h2".to_string();
    s2.scope = Some("atproto".to_string());
    assert_eq!(db.upsert_oauth_session(&s2, 1000), Ok(1));
    let got = db.get_oauth_session(1).unwrap().unwrap();
    assert_eq!(got.access_token_hash, "h2");
    assert_eq!(got.scope, Some("atproto".to_string()));
    assert_eq!(got.expires_at, Some(100));
    assert!(db.get_oauth_session(2).unwrap().is_none());
}

#[test]
fn deactivation_is_soft() {
    let mut db = DatabaseManager::new();
    db.create_account(&alice(), 1000).unwrap();
    db.create_account(&bob(), 1000).unwrap();
    assert_eq!(db.deactivate_account(1, 2000), Ok(()));
    assert_eq!(db.deactivate_account(99, 2000), Ok(()));
    let a = db.get_account_by_handle("alice.test").unwrap().unwrap();
    assert!(!a.is_active);
    let active = db.get_all_active_accounts().unwrap();
    assert_eq!(active.len(), 1);
    assert_eq!(active[0].handle, "bob.test");
}

#[test]
fn session_state_counts_active_accounts_and_health() {
    let mut db = DatabaseManager::new();
    let mut reg: SessionManager<u8> = SessionManager::new();
    let empty = db.get_concurrent_session_state(&reg).unwrap();
    assert_eq!(empty.total_accounts, 0);
    assert!(!empty.all_accounts_active);
    db.create_account(&alice(), 1000).unwrap();
    db.create_account(&bob(), 1000).unwrap();
    reg.add_agent("alice.test".to_string(), 1, 0, 100);
    let st = db.get_concurrent_session_state(&reg).unwrap();
    assert_eq!(st.total_accounts, 2);
    assert!(!st.all_accounts_active);
    reg.add_agent("bob.test".to_string(), 2, 0, 100);
    reg.apply_health_event("bob.test", HealthEvent::SoftFailure);
    assert!(db.get_concurrent_session_state(&reg).unwrap().all_accounts_active);
    reg.apply_health_event("bob.test", HealthEvent::SoftFailure);
    assert!(!db.get_concurrent_session_state(&reg).unwrap().all_accounts_active);
    db.deactivate_account(2, 2000).unwrap();
    let st = db.get_concurrent_session_state(&reg).unwrap();
    assert_eq!(st.total_accounts, 1);
    assert!(st.all_accounts_active);
}

#[test]
fn account_rows_decode() {
    let row = AccountRow {
        id: 3,
        handle: "alice.test".to_string(),
        did: "did:plc:abc".to_string(),
        service_url: "https://example.test".to_string(),
        auth_type: "oauth".to_string(),
        display_name: None,
        avatar_url: None,
        is_active: true,
        created_at: Some(5),
        updated_at: None,
    };
    let a = account_from_row(row.clone()).unwrap();
    assert_eq!(a.id, Some(3));
    assert_eq!(a.auth_type, AuthType::OAuth);
    let mut bad = row;
    bad.auth_type = "token".to_string();
    assert_eq!(
        account_from_row(bad).map(|a| a.is_active),
        Err(PersistenceError::Decode(ParseError { kind: ValueKind::AuthType, value: "token".to_string() }))
    );
}

#[test]
fn preference_rows_decode() {
    let row = PreferencesRow {
        account_id: 1,
        theme: "dark".to_string(),
        language: "ko".to_string(),
        notifications_enabled: false,
        auto_refresh_interval: 30,
        preferences_json: Some("{}".to_string()),
        created_at: None,
        updated_at: None,
    };
    let p = preferences_from_row(row.clone()).unwrap();
    assert_eq!(p.theme, Theme::Dark);
    assert_eq!(p.language, Language::Korean);
    let mut bad = row.clone();
    bad.language = "fr".to_string();
    assert_eq!(
        preferences_from_row(bad).map(|p| p.account_id),
        Err(PersistenceError::Decode(ParseError { kind: ValueKind::Language, value: "fr".to_string() }))
    );
    let mut both = row;
    both.theme = "blue".to_string();
    both.language = "fr".to_string();
    assert_eq!(
        preferences_from_row(both).map(|p| p.account_id),
        Err(PersistenceError::Decode(ParseError { kind: ValueKind::Theme, value: "blue".to_string() }))
    );
}

#[test]
fn active_accounts_follow_creation_time() {
    let mut db = DatabaseManager::new();
    let mut carol = bob();
    carol.handle = "carol.test".to_string();
    carol.did = "did:plc:carol".to_string();
    db.create_account(&alice(), 300).unwrap();
    db.create_account(&bob(), 100).unwrap();
    db.create_account(&carol, 200).unwrap();
    let active = db.get_all_active_accounts().unwrap();
    let handles: Vec<&str> = active.iter().map(|a| a.handle.as_str()).collect();
    assert_eq!(handles, vec!["bob.test", "carol.test", "alice.test"]);
    assert_eq!(active[0].created_at, Some(100));
    let mut reg: SessionManager<u8> = SessionManager::new();
    reg.add_agent("carol.test".to_string(), 3, 0, 0);
    let st = db.get_concurrent_session_state(&reg).unwrap();
    assert_eq!(st.total_accounts, 3);
    assert_eq!(st.active_accounts[2].handle, "alice.test");
}

#[test]
fn timestamps_come_from_the_caller() {
    let mut db = DatabaseManager::new();
    db.create_account(&alice(), 42).unwrap();
    let a = db.get_account_by_handle("alice.test").unwrap().unwrap();
    assert_eq!((a.created_at, a.updated_at), (Some(42), Some(42)));
    db.deactivate_account(1, 43).unwrap();
    let a = db.get_account_by_handle("alice.test").unwrap().unwrap();
    assert_eq!((a.created_at, a.updated_at), (Some(42), Some(43)));
}
