//! The commands of the interface: each composes the authenticator, the
//! persistence layer and the session registry, and holds no state of its own.
//! Network work happens outside; its outcome is handed in.
use vstd::prelude::*;
use crate::auth::{
    credentials_present, fingerprint_shape, token_fingerprint, AtProtoAuth, ProfileInfo, ProtocolSession, RenewedTokens,
};
use crate::database::{active_rows, all_active_connected, sorted_by_created, DatabaseManager};
use crate::error::{AuthError, PersistenceError};
use crate::models::{Account, ConcurrentSessionState, CreateAccountRequest, LoginRequest, LoginResponse, OAuthSession};
use crate::registry::{connected_handles, status_of, texts, AccountSessionStatus, SessionHealth, SessionManager};

verus! {

/// The one error that a command reports.
#[derive(Debug, Clone, PartialEq, Eq)]
pub enum CommandError {
    Auth(AuthError),
    Persistence(PersistenceError),
    /// No account has the handle.
    NotFound(String),
}

/// `db1` is `db0` after the logout of `h` at time `now`: the latest account
/// with handle `h` is inactive, modified at `now`, and nothing else changed.
pub open spec fn logout_effect(db0: DatabaseManager, db1: DatabaseManager, h: Seq<char>, now: i64) -> bool {
    &&& db1.accounts().len() == db0.accounts().len()
    &&& db1.sessions() == db0.sessions()
    &&& db1.preferences() == db0.preferences()
    &&& exists|i: int|
        #![trigger db0.accounts()[i]]
        db0.latest_with_handle(i, h) && db1.accounts()[i] == (Account {
            is_active: false,
            updated_at: Some(now),
            ..db0.accounts()[i]
        }) && forall|j: int| 0 <= j < db0.accounts().len() && j != i ==> #[trigger] db1.accounts()[j] == db0.accounts()[j]
}

/// Logs in with an app password, from the outcome of the handshake with the
/// service: records the account (matched by decentralized identifier), the
/// fingerprints of its tokens and a healthy live session. Either all of it
/// is recorded, or nothing changes. `now` is the current time in Unix seconds.
pub fn login_app_password<C>(
    auth: &mut AtProtoAuth,
    db: &mut DatabaseManager,
    sessions: &mut SessionManager<C>,
    request: &LoginRequest,
    handshake: Result<ProtocolSession, AuthError>,
    profile: Option<ProfileInfo>,
    agent: C,
    now: i64,
) -> (r: Result<LoginResponse, CommandError>)
    requires
        old(auth).wf(),
        old(db).wf(),
        old(sessions).wf(),
    ensures
        final(auth).wf(),
        final(db).wf(),
        final(sessions).wf(),
        !credentials_present(*request) ==> r == Err::<LoginResponse, CommandError>(
            CommandError::Auth(AuthError::InvalidCredentials),
        ),
        credentials_present(*request) && handshake is Err ==> r == Err::<LoginResponse, CommandError>(
            CommandError::Auth(handshake->Err_0),
        ),
        credentials_present(*request) && handshake is Ok && !old(db).room() ==> r == Err::<
            LoginResponse,
            CommandError,
        >(CommandError::Persistence(PersistenceError::CapacityExhausted)),
        credentials_present(*request) && handshake is Ok && old(db).room() ==> r is Ok,
        r is Err ==> final(auth)@ == old(auth)@ && *final(db) == *old(db) && final(sessions)@ == old(sessions)@,
        r matches Ok(resp) ==> {
            let s = handshake->Ok_0;
            &&& handshake is Ok
            &&& resp.account.handle == s.handle
            &&& resp.account.did == s.did
            &&& resp.account.is_active
            &&& resp.session_token@ == token_fingerprint(s.access_jwt@)
            &&& fingerprint_shape(resp.session_token@)
            &&& final(db).single_active_with_did(s.did@)
            &&& resp.account.id matches Some(id) && 1 <= id <= final(db).accounts().len()
                && final(db).accounts()[id - 1].did@ == s.did@
                && final(db).accounts()[id - 1].handle == s.handle
                && final(db).accounts()[id - 1].is_active
                && final(db).single_session_with(id, resp.session_token@, token_fingerprint(s.refresh_jwt@), None)
                && if old(db).has_did(s.did@) {
                    &&& final(db).accounts().len() == old(db).accounts().len()
                    &&& old(db).accounts()[id - 1].did@ == s.did@
                    &&& final(db).accounts()[id - 1].id == old(db).accounts()[id - 1].id
                    &&& forall|j: int| 0 <= j < old(db).accounts().len() && j != id - 1 ==> #[trigger] final(db).accounts()[j]
                        == old(db).accounts()[j]
                } else {
                    &&& final(db).accounts().len() == old(db).accounts().len() + 1
                    &&& id == final(db).accounts().len()
                    &&& final(db).accounts().drop_last() == old(db).accounts()
                }
            &&& final(sessions).has(s.handle@)
            &&& forall|i: int|
                0 <= i < final(sessions)@.len() && #[trigger] final(sessions)@[i].handle@ == s.handle@ ==> {
                    &&& Some(final(sessions)@[i].account_id) == resp.account.id
                    &&& final(sessions)@[i].agent == agent
                    &&& final(sessions)@[i].health == SessionHealth::Healthy
                }
            &&& final(auth).tokens(s.handle@) matches Some(e) && e.access_token == s.access_jwt
        },
{
    if let Err(e) = AtProtoAuth::check_credentials(request) {
        return Err(CommandError::Auth(e));
    }
    let session = match handshake {
        Ok(s) => s,
        Err(e) => return Err(CommandError::Auth(e)),
    };
    if !db.has_room() {
        return Err(CommandError::Persistence(PersistenceError::CapacityExhausted));
    }
    let ghost s0 = session;
    let handle = session.handle.clone();
    let refresh_hash = auth.create_session_token(session.refresh_jwt.as_str());
    let resp = match auth.login_with_app_password(request, Ok(session), profile) {
        Ok(resp) => resp,
        Err(e) => return Err(CommandError::Auth(e)),
    };
    let row = CreateAccountRequest {
        handle: resp.account.handle.clone(),
        did: resp.account.did.clone(),
        service_url: resp.account.service_url.clone(),
        auth_type: resp.account.auth_type,
        display_name: crate::models::copy_text(&resp.account.display_name),
        avatar_url: crate::models::copy_text(&resp.account.avatar_url),
    };
    let ghost db_before = *db;
    let id = match db.upsert_account(&row, now) {
        Ok(id) => id,
        Err(e) => return Err(CommandError::Persistence(e)),
    };
    proof {
        let d = s0.did@;
        let i = id - 1;
        assert(row.did@ == d);
        if !db_before.has_did(d) {
            assert(db.accounts()[i] == db.accounts().last());
        }
        assert(db.accounts()[i].did@ == d);
        assert(db.accounts()[i].is_active);
        assert forall|j: int| 0 <= j < db.accounts().len() && #[trigger] db.accounts()[j].did@ == d implies j == i by {
            if j < i {
                assert(db.accounts()[j].did@ != db.accounts()[i].did@);
            } else if j > i {
                assert(db.accounts()[i].did@ != db.accounts()[j].did@);
            }
        }
        assert(db.single_active_with_did(d));
    }
    let token_row = OAuthSession {
        id: None,
        account_id: id,
        access_token_hash: resp.session_token.clone(),
        refresh_token_hash: Some(refresh_hash),
        expires_at: None,
        scope: None,
        created_at: None,
        updated_at: None,
    };
    let ghost db_mid = *db;
    let sid = match db.upsert_oauth_session(&token_row, now) {
        Ok(sid) => sid,
        Err(e) => return Err(CommandError::Persistence(e)),
    };
    proof {
        let k = sid - 1;
        assert(db.sessions()[k].account_id == id);
        assert forall|j: int| 0 <= j < db.sessions().len() && #[trigger] db.sessions()[j].account_id == id implies j == k by {
            if j < k {
                assert(db.sessions()[j].account_id != db.sessions()[k].account_id);
            } else if j > k {
                assert(db.sessions()[k].account_id != db.sessions()[j].account_id);
            }
        }
        assert(db.single_session_with(id, resp.session_token@, token_fingerprint(s0.refresh_jwt@), None));
    }
    assert(db.accounts() == db_mid.accounts());
    sessions.add_agent(handle, id, agent, now);
    Ok(LoginResponse { account: Account { id: Some(id), ..resp.account }, ..resp })
}

/// What a successful refresh hands back.
#[derive(Debug, Clone)]
pub struct RefreshResponse {
    /// Fingerprint of the new access token.
    pub session_token: String,
    /// When the new access token expires, in Unix seconds.
    pub expires_at: i64,
}

/// Refreshes the tokens of `handle` from the outcome of the refresh handshake
/// with the service: the new tokens replace the stored ones, and the token
/// session of the handle's latest account takes their fingerprints and the
/// new expiry. Either all of it is recorded, or nothing changes.
pub fn refresh_session(
    auth: &mut AtProtoAuth,
    db: &mut DatabaseManager,
    handle: &str,
    renewed: Result<RenewedTokens, AuthError>,
    now: i64,
) -> (r: Result<RefreshResponse, CommandError>)
    requires
        old(auth).wf(),
        old(db).wf(),
    ensures
        final(auth).wf(),
        final(db).wf(),
        r is Err ==> final(auth)@ == old(auth)@ && *final(db) == *old(db),
        !old(db).has_handle(handle@) ==> (r matches Err(CommandError::NotFound(h)) && h@ == handle@),
        old(db).has_handle(handle@) && !old(db).room() ==> r == Err::<RefreshResponse, CommandError>(
            CommandError::Persistence(PersistenceError::CapacityExhausted),
        ),
        old(db).has_handle(handle@) && old(db).room() && !(old(auth).tokens(handle@) matches Some(e)
            && e.refresh_token is Some) ==> r == Err::<RefreshResponse, CommandError>(
            CommandError::Auth(AuthError::NoRefreshToken),
        ),
        old(db).has_handle(handle@) && old(db).room() && (old(auth).tokens(handle@) matches Some(e)
            && e.refresh_token is Some) ==> match renewed {
            Err(e) => r == Err::<RefreshResponse, CommandError>(CommandError::Auth(e)),
            Ok(t) => r is Ok,
        },
        r matches Ok(resp) ==> {
            let t = renewed->Ok_0;
            &&& renewed is Ok
            &&& resp.session_token@ == token_fingerprint(t.access_jwt@)
            &&& fingerprint_shape(resp.session_token@)
            &&& resp.expires_at == t.expires_at
            &&& final(auth).tokens(handle@) matches Some(e) && e.access_token == t.access_jwt
                && e.refresh_token == Some(t.refresh_jwt)
            &&& forall|h: Seq<char>| h != handle@ ==> final(auth).tokens(h) == old(auth).tokens(h)
            &&& final(db).accounts() == old(db).accounts()
            &&& final(db).preferences() == old(db).preferences()
            &&& exists|i: int|
                old(db).latest_with_handle(i, handle@) && final(db).single_session_with(
                    (i + 1) as i64,
                    resp.session_token@,
                    token_fingerprint(t.refresh_jwt@),
                    Some(t.expires_at),
                )
        },
{
    let account = match db.get_account_by_handle(handle) {
        Ok(Some(a)) => a,
        Ok(None) => return Err(CommandError::NotFound(String::from_str(handle))),
        Err(e) => return Err(CommandError::Persistence(e)),
    };
    let ghost i = choose|i: int| db.latest_with_handle(i, handle@) && db.accounts()[i] == account;
    assert(db.accounts()[i].id == Some((i + 1) as i64));
    let id = match account.id {
        Some(id) => id,
        None => return Err(CommandError::NotFound(String::from_str(handle))),
    };
    if !db.has_room() {
        return Err(CommandError::Persistence(PersistenceError::CapacityExhausted));
    }
    let ghost t0 = renewed->Ok_0;
    let (expires_at, refresh_hash) = match &renewed {
        Ok(t) => (t.expires_at, auth.create_session_token(t.refresh_jwt.as_str())),
        Err(_) => (0, String::new()),
    };
    let fingerprint = match auth.refresh_access_token(handle, renewed) {
        Ok(fp) => fp,
        Err(e) => return Err(CommandError::Auth(e)),
    };
    let token_row = OAuthSession {
        id: None,
        account_id: id,
        access_token_hash: fingerprint.clone(),
        refresh_token_hash: Some(refresh_hash),
        expires_at: Some(expires_at),
        scope: None,
        created_at: None,
        updated_at: None,
    };
    let ghost db_before = *db;
    let sid = match db.upsert_oauth_session(&token_row, now) {
        Ok(sid) => sid,
        Err(e) => return Err(CommandError::Persistence(e)),
    };
    proof {
        let k = sid - 1;
        assert(db.sessions()[k].account_id == id);
        assert forall|j: int| 0 <= j < db.sessions().len() && #[trigger] db.sessions()[j].account_id == id implies j == k by {
            if j < k {
                assert(db.sessions()[j].account_id != db.sessions()[k].account_id);
            } else if j > k {
                assert(db.sessions()[k].account_id != db.sessions()[j].account_id);
            }
        }
        assert(db.single_session_with(id, fingerprint@, token_fingerprint(t0.refresh_jwt@), Some(t0.expires_at)));
        assert(db_before.latest_with_handle(i, handle@));
    }
    Ok(RefreshResponse { session_token: fingerprint, expires_at })
}

/// Logs out `handle`: drops its tokens, removes its live session and
/// deactivates its latest account. Each step runs whatever the others gave;
/// an absent account is reported, the rest is still done.
pub fn logout_account<C>(
    auth: &mut AtProtoAuth,
    db: &mut DatabaseManager,
    sessions: &mut SessionManager<C>,
    handle: &str,
    now: i64,
) -> (r: Result<(), Vec<CommandError>>)
    requires
        old(auth).wf(),
        old(db).wf(),
        old(sessions).wf(),
    ensures
        final(auth).wf(),
        final(db).wf(),
        final(sessions).wf(),
        final(auth).tokens(handle@) is None,
        forall|h: Seq<char>| h != handle@ ==> final(auth).tokens(h) == old(auth).tokens(h),
        !final(sessions).has(handle@),
        old(sessions).has(handle@) ==> exists|i: int|
            0 <= i < old(sessions)@.len() && old(sessions)@[i].handle@ == handle@ && final(sessions)@
                == old(sessions)@.remove(i),
        !old(sessions).has(handle@) ==> final(sessions)@ == old(sessions)@,
        r is Ok <==> old(db).has_handle(handle@),
        old(db).has_handle(handle@) ==> logout_effect(*old(db), *final(db), handle@, now),
        !old(db).has_handle(handle@) ==> *final(db) == *old(db),
        r matches Err(errs) ==> errs@.len() == 1 && (errs@[0] matches CommandError::NotFound(h) && h@ == handle@),
{
    let mut errors: Vec<CommandError> = Vec::new();
    match auth.delete_stored_tokens(handle) {
        Ok(()) => {},
        Err(e) => errors.push(CommandError::Auth(AuthError::ProtocolError(e))),
    }
    let _released = sessions.remove_agent(handle);
    match db.get_account_by_handle(handle) {
        Ok(Some(account)) => {
            let ghost i = choose|i: int| db.latest_with_handle(i, handle@) && db.accounts()[i] == account;
            assert(db.accounts()[i].id == Some((i + 1) as i64));
            if let Some(id) = account.id {
                let ghost before = *db;
                match db.deactivate_account(id, now) {
                    Ok(()) => {},
                    Err(e) => errors.push(CommandError::Persistence(e)),
                }
                assert(db.accounts()[i] == (Account {
                    is_active: false,
                    updated_at: Some(now),
                    ..before.accounts()[i]
                }));
                assert(logout_effect(before, *db, handle@, now));
            }
        },
        Ok(None) => errors.push(CommandError::NotFound(String::from_str(handle))),
        Err(e) => errors.push(CommandError::Persistence(e)),
    }
    if errors.len() == 0 {
        Ok(())
    } else {
        Err(errors)
    }
}

/// Logging out twice is harmless: the first logout leaves the account in
/// place, so the second finds it and reports no error, and the account is
/// inactive after both.
pub proof fn lemma_logout_idempotent(
    db0: DatabaseManager,
    db1: DatabaseManager,
    db2: DatabaseManager,
    h: Seq<char>,
    first: i64,
    second: i64,
)
    requires
        db0.wf(),
        db0.has_handle(h),
        logout_effect(db0, db1, h, first),
        logout_effect(db1, db2, h, second),
    ensures
        db1.has_handle(h),
        db1.handle_inactive(h),
        db2.handle_inactive(h),
{
    let i = choose|i: int|
        #![trigger db0.accounts()[i]]
        db0.latest_with_handle(i, h) && db1.accounts()[i] == (Account {
            is_active: false,
            updated_at: Some(first),
            ..db0.accounts()[i]
        }) && forall|j: int| 0 <= j < db0.accounts().len() && j != i ==> #[trigger] db1.accounts()[j] == db0.accounts()[j];
    assert(db1.accounts()[i].handle@ == h);
    assert forall|j: int| i < j < db1.accounts().len() implies #[trigger] db1.accounts()[j].handle@ != h by {
        assert(db1.accounts()[j] == db0.accounts()[j]);
    }
    assert(db1.latest_with_handle(i, h));
    let k = choose|k: int|
        #![trigger db1.accounts()[k]]
        db1.latest_with_handle(k, h) && db2.accounts()[k] == (Account {
            is_active: false,
            updated_at: Some(second),
            ..db1.accounts()[k]
        }) && forall|j: int| 0 <= j < db1.accounts().len() && j != k ==> #[trigger] db2.accounts()[j] == db1.accounts()[j];
    if k < i {
        assert(db1.accounts()[i].handle@ != h);
    } else if k > i {
        assert(db1.accounts()[k].handle@ != h);
    }
    assert forall|j: int| i < j < db2.accounts().len() implies #[trigger] db2.accounts()[j].handle@ != h by {
        assert(db2.accounts()[j] == db1.accounts()[j]);
    }
    assert(db2.latest_with_handle(i, h));
}

/// The accounts that run side by side, in order of creation, with the
/// health-aware flag: true when there is an active account and each active
/// account has a connected registered session.
pub fn get_concurrent_session_state<C>(db: &DatabaseManager, sessions: &SessionManager<C>) -> (r: Result<
    ConcurrentSessionState,
    CommandError,
>)
    requires
        sessions.wf(),
    ensures
        r matches Ok(st) && {
            &&& st.active_accounts@.to_multiset() == active_rows(db.accounts()).to_multiset()
            &&& sorted_by_created(st.active_accounts@)
            &&& st.total_accounts == active_rows(db.accounts()).len()
            &&& st.all_accounts_active == all_active_connected(st.active_accounts@, sessions@)
        },
{
    match db.get_concurrent_session_state(sessions) {
        Ok(st) => Ok(st),
        Err(e) => Err(CommandError::Persistence(e)),
    }
}

/// Whether `handle` holds a stored token: a handle that never logged in gives
/// `false`, not an error.
pub fn verify_account_token(auth: &AtProtoAuth, handle: &str, service_url: &str) -> (r: Result<bool, CommandError>)
    requires
        auth.wf(),
    ensures
        r == Ok::<bool, CommandError>(auth.has(handle@)),
        !auth.has(handle@) ==> r == Ok::<bool, CommandError>(false),
{
    match auth.verify_token(handle, service_url) {
        Ok(b) => Ok(b),
        Err(e) => Err(CommandError::Auth(AuthError::ProtocolError(e))),
    }
}

/// A greeting for `name`.
pub fn greet(name: &str) -> (r: String)
    ensures
        r@ == "Hello from moodeSky with atrium-rs! "@ + name@,
{
    String::from_str("Hello from moodeSky with atrium-rs! ").concat(name)
}

/// The status of every registered session.
pub fn get_session_statuses<C>(sessions: &SessionManager<C>) -> (r: Vec<AccountSessionStatus>)
    ensures
        r@.len() == sessions@.len(),
        forall|i: int| 0 <= i < r@.len() ==> r@[i] == status_of(sessions@[i]),
{
    sessions.get_session_statuses()
}

/// The handles of the connected sessions, each once.
pub fn get_active_handles<C>(sessions: &SessionManager<C>) -> (r: Vec<String>)
    requires
        sessions.wf(),
    ensures
        texts(r@) == connected_handles(sessions@),
        texts(r@).no_duplicates(),
{
    sessions.get_active_handles()
}

} // verus!
