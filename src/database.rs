//! The persistence contract: accounts, token sessions and preferences, with
//! soft deletion only. Row identifiers count from one in insertion order.
use vstd::prelude::*;
use crate::error::{PersistenceError, ValueKind};
use crate::models::{
    copy_text, Account, AuthType, ConcurrentSessionState, CreateAccountRequest, Language,
    OAuthSession, Theme, UserPreferences,
};
use crate::registry::{ManagedAgent, SessionManager};

verus! {

/// A session registered under `h` in `reg` is connected.
pub open spec fn registered_connected<C>(reg: Seq<ManagedAgent<C>>, h: Seq<char>) -> bool {
    exists|j: int| 0 <= j < reg.len() && #[trigger] reg[j].handle@ == h && reg[j].health.connected()
}

/// There is at least one active account, and every one has a connected
/// registered session.
pub open spec fn all_active_connected<C>(active: Seq<Account>, reg: Seq<ManagedAgent<C>>) -> bool {
    active.len() > 0 && forall|i: int| 0 <= i < active.len() ==> registered_connected(reg, #[trigger] active[i].handle@)
}

/// The active rows of `s`, in order.
pub open spec fn active_rows(s: Seq<Account>) -> Seq<Account>
    decreases s.len(),
{
    if s.len() == 0 {
        Seq::empty()
    } else {
        let rest = active_rows(s.drop_last());
        if s.last().is_active {
            rest.push(s.last())
        } else {
            rest
        }
    }
}

/// The creation time of a row as a sort key; a row without one sorts first.
pub open spec fn created_key(a: Account) -> int {
    match a.created_at {
        Some(t) => t as int,
        None => i64::MIN as int - 1,
    }
}

/// `s` is ordered by creation time.
pub open spec fn sorted_by_created(s: Seq<Account>) -> bool {
    forall|i: int, j: int| 0 <= i < j < s.len() ==> created_key(s[i]) <= created_key(s[j])
}

/// Whether `a` was created no later than `b`.
fn created_not_after(a: &Account, b: &Account) -> (r: bool)
    ensures
        r == (created_key(*a) <= created_key(*b)),
{
    match (a.created_at, b.created_at) {
        (None, _) => true,
        (Some(_), None) => false,
        (Some(x), Some(y)) => x <= y,
    }
}

/// Where `a` goes in the ordered `v`: after every row created no later, before
/// every row created later.
fn insertion_point(v: &Vec<Account>, a: &Account) -> (p: usize)
    requires
        sorted_by_created(v@),
    ensures
        p <= v@.len(),
        forall|k: int| 0 <= k < p ==> created_key(#[trigger] v@[k]) <= created_key(*a),
        forall|k: int| p <= k < v@.len() ==> created_key(#[trigger] v@[k]) > created_key(*a),
{
    let mut k: usize = 0;
    while k < v.len()
        invariant
            k <= v@.len(),
            sorted_by_created(v@),
            forall|j: int| 0 <= j < k ==> created_key(#[trigger] v@[j]) <= created_key(*a),
        decreases v@.len() - k,
    {
        if !created_not_after(&v[k], a) {
            assert forall|j: int| k <= j < v@.len() implies created_key(#[trigger] v@[j]) > created_key(*a) by {
                if j > k {
                    assert(created_key(v@[k as int]) <= created_key(v@[j]));
                }
            }
            return k;
        }
        k = k + 1;
    }
    k
}

/// `a` is the row that `req` creates under `id`.
pub open spec fn created_from(a: Account, req: CreateAccountRequest, id: i64, now: i64) -> bool {
    &&& a.id == Some(id)
    &&& a.handle == req.handle
    &&& a.did == req.did
    &&& a.service_url == req.service_url
    &&& a.auth_type == req.auth_type
    &&& a.display_name == req.display_name
    &&& a.avatar_url == req.avatar_url
    &&& a.is_active
    &&& a.created_at == Some(now)
    &&& a.updated_at == Some(now)
}

/// `a` is `old` brought up to date from `req` and made active again.
pub open spec fn refreshed_from(a: Account, old: Account, req: CreateAccountRequest, now: i64) -> bool {
    &&& a.id == old.id
    &&& a.handle == req.handle
    &&& a.did == old.did
    &&& a.service_url == req.service_url
    &&& a.auth_type == req.auth_type
    &&& a.display_name == req.display_name
    &&& a.avatar_url == req.avatar_url
    &&& a.is_active
    &&& a.created_at == old.created_at
    &&& a.updated_at == Some(now)
}

/// `s` is the stored form of `given`, under row identifier `id`.
pub open spec fn stored_session(s: OAuthSession, given: OAuthSession, id: i64, now: i64) -> bool {
    &&& s.id == Some(id)
    &&& s.account_id == given.account_id
    &&& s.access_token_hash == given.access_token_hash
    &&& s.refresh_token_hash == given.refresh_token_hash
    &&& s.expires_at == given.expires_at
    &&& s.scope == given.scope
    &&& s.updated_at == Some(now)
}

/// `p` is the stored form of `given`: an absent extension blob is stored as
/// the empty JSON object.
pub open spec fn stored_preferences(p: UserPreferences, given: UserPreferences, now: i64) -> bool {
    &&& p.account_id == given.account_id
    &&& p.theme == given.theme
    &&& p.language == given.language
    &&& p.notifications_enabled == given.notifications_enabled
    &&& p.auto_refresh_interval == given.auto_refresh_interval
    &&& p.preferences_json matches Some(j) && j@ == match given.preferences_json {
        Some(g) => g@,
        None => "{}"@,
    }
    &&& p.updated_at == Some(now)
}

/// The durable store.
#[derive(Clone)]
pub struct DatabaseManager {
    accounts: Vec<Account>,
    sessions: Vec<OAuthSession>,
    preferences: Vec<UserPreferences>,
}

impl DatabaseManager {
    pub closed spec fn accounts(&self) -> Seq<Account> {
        self.accounts@
    }

    pub closed spec fn sessions(&self) -> Seq<OAuthSession> {
        self.sessions@
    }

    pub closed spec fn preferences(&self) -> Seq<UserPreferences> {
        self.preferences@
    }

    /// Row identifiers count from one; no two accounts share a decentralized
    /// identifier; no account has two token sessions or two sets of
    /// preferences.
    pub open spec fn wf(&self) -> bool {
        &&& self.accounts().len() < i64::MAX
        &&& self.sessions().len() < i64::MAX
        &&& forall|i: int| 0 <= i < self.accounts().len() ==> #[trigger] self.accounts()[i].id == Some((i + 1) as i64)
        &&& forall|i: int, j: int|
            0 <= i < j < self.accounts().len() ==> #[trigger] self.accounts()[i].did@
                != #[trigger] self.accounts()[j].did@
        &&& forall|i: int, j: int|
            0 <= i < j < self.sessions().len() ==> #[trigger] self.sessions()[i].account_id
                != #[trigger] self.sessions()[j].account_id
        &&& forall|i: int| 0 <= i < self.sessions().len() ==> #[trigger] self.sessions()[i].id == Some((i + 1) as i64)
        &&& forall|i: int, j: int|
            0 <= i < j < self.preferences().len() ==> #[trigger] self.preferences()[i].account_id
                != #[trigger] self.preferences()[j].account_id
    }

    /// Some account has decentralized identifier `d`.
    pub open spec fn has_did(&self, d: Seq<char>) -> bool {
        exists|i: int| 0 <= i < self.accounts().len() && #[trigger] self.accounts()[i].did@ == d
    }

    /// Some account has handle `h`.
    pub open spec fn has_handle(&self, h: Seq<char>) -> bool {
        exists|i: int| 0 <= i < self.accounts().len() && #[trigger] self.accounts()[i].handle@ == h
    }

    /// `i` is the latest account row with handle `h`.
    pub open spec fn latest_with_handle(&self, i: int, h: Seq<char>) -> bool {
        &&& 0 <= i < self.accounts().len()
        &&& self.accounts()[i].handle@ == h
        &&& forall|j: int| i < j < self.accounts().len() ==> #[trigger] self.accounts()[j].handle@ != h
    }

    /// A new account row and a new token session both have an identifier left.
    pub open spec fn room(&self) -> bool {
        self.accounts().len() + 1 < i64::MAX && self.sessions().len() + 1 < i64::MAX
    }

    /// Exactly one account has decentralized identifier `d`, and it is active.
    pub open spec fn single_active_with_did(&self, d: Seq<char>) -> bool {
        exists|i: int|
            0 <= i < self.accounts().len() && #[trigger] self.accounts()[i].did@ == d && self.accounts()[i].is_active
                && forall|j: int| 0 <= j < self.accounts().len() && #[trigger] self.accounts()[j].did@ == d ==> j == i
    }

    /// Exactly one token session belongs to account `account_id`, and it holds
    /// the access-token fingerprint `hash`, the refresh-token fingerprint
    /// `refresh` and the expiry `expires_at`.
    pub open spec fn single_session_with(
        &self,
        account_id: i64,
        hash: Seq<char>,
        refresh: Seq<char>,
        expires_at: Option<i64>,
    ) -> bool {
        exists|i: int|
            0 <= i < self.sessions().len() && #[trigger] self.sessions()[i].account_id == account_id
                && self.sessions()[i].access_token_hash@ == hash
                && (self.sessions()[i].refresh_token_hash matches Some(f) && f@ == refresh)
                && self.sessions()[i].expires_at == expires_at
                && forall|j: int| 0 <= j < self.sessions().len() && #[trigger] self.sessions()[j].account_id == account_id ==> j == i
    }

    /// The latest account with handle `h` exists and is inactive.
    pub open spec fn handle_inactive(&self, h: Seq<char>) -> bool {
        exists|i: int| self.latest_with_handle(i, h) && !self.accounts()[i].is_active
    }

    pub fn has_room(&self) -> (r: bool)
        ensures
            r == self.room(),
    {
        (self.accounts.len() as u64) < 0x7fff_ffff_ffff_fffe && (self.sessions.len() as u64) < 0x7fff_ffff_ffff_fffe
    }

    pub fn new() -> (r: DatabaseManager)
        ensures
            r.wf(),
            r.accounts().len() == 0,
            r.sessions().len() == 0,
            r.preferences().len() == 0,
    {
        DatabaseManager { accounts: Vec::new(), sessions: Vec::new(), preferences: Vec::new() }
    }

    /// Where the account with decentralized identifier `did` stands.
    fn find_did(&self, did: &str) -> (r: Option<usize>)
        requires
            self.wf(),
        ensures
            r matches Some(i) ==> i < self.accounts().len() && self.accounts()[i as int].did@ == did@,
            r is None ==> !self.has_did(did@),
    {
        let key = String::from_str(did);
        let mut i: usize = 0;
        while i < self.accounts.len()
            invariant
                i <= self.accounts@.len(),
                key@ == did@,
                forall|k: int| 0 <= k < i ==> self.accounts@[k].did@ != did@,
            decreases self.accounts@.len() - i,
        {
            if self.accounts[i].did == key {
                return Some(i);
            }
            i = i + 1;
        }
        None
    }

    /// Adds an active account. Fails when an account with the same
    /// decentralized identifier exists, or when no identifier is left.
    pub fn create_account(&mut self, account: &CreateAccountRequest, now: i64) -> (r: Result<i64, PersistenceError>)
        requires
            old(self).wf(),
        ensures
            final(self).wf(),
            old(self).has_did(account.did@) ==> r == Err::<i64, PersistenceError>(
                PersistenceError::DuplicateIdentity,
            ),
            !old(self).has_did(account.did@) && old(self).accounts().len() + 1 >= i64::MAX ==> r
                == Err::<i64, PersistenceError>(PersistenceError::CapacityExhausted),
            r is Err ==> *final(self) == *old(self),
            !old(self).has_did(account.did@) && old(self).accounts().len() + 1 < i64::MAX ==> r is Ok,
            r matches Ok(id) ==> {
                &&& id == old(self).accounts().len() + 1
                &&& final(self).accounts().len() == id
                &&& final(self).accounts().drop_last() == old(self).accounts()
                &&& created_from(final(self).accounts().last(), *account, id, now)
                &&& final(self).sessions() == old(self).sessions()
                &&& final(self).preferences() == old(self).preferences()
            },
    {
        if self.find_did(account.did.as_str()).is_some() {
            return Err(PersistenceError::DuplicateIdentity);
        }
        let n = self.accounts.len() as u64;
        if n >= 0x7fff_ffff_ffff_fffe {
            return Err(PersistenceError::CapacityExhausted);
        }
        let id = (n + 1) as i64;
        self.accounts.push(Account {
            id: Some(id),
            handle: account.handle.clone(),
            did: account.did.clone(),
            service_url: account.service_url.clone(),
            auth_type: account.auth_type,
            display_name: copy_text(&account.display_name),
            avatar_url: copy_text(&account.avatar_url),
            is_active: true,
            created_at: Some(now),
            updated_at: Some(now),
        });
        assert(self.accounts@.drop_last() =~= old(self).accounts@);
        Ok(id)
    }

    /// Brings the account with the request's decentralized identifier up to
    /// date and makes it active again, or creates it when there is none: the
    /// identifier, not the handle, is what identifies an account.
    pub fn upsert_account(&mut self, account: &CreateAccountRequest, now: i64) -> (r: Result<i64, PersistenceError>)
        requires
            old(self).wf(),
        ensures
            final(self).wf(),
            final(self).sessions() == old(self).sessions(),
            final(self).preferences() == old(self).preferences(),
            r is Err ==> *final(self) == *old(self),
            r is Err <==> !old(self).has_did(account.did@) && old(self).accounts().len() + 1 >= i64::MAX,
            r matches Err(e) ==> e == PersistenceError::CapacityExhausted,
            r matches Ok(id) ==> old(self).has_did(account.did@) ==> {
                let i = id - 1;
                &&& 0 <= i < old(self).accounts().len()
                &&& old(self).accounts()[i].did@ == account.did@
                &&& final(self).accounts().len() == old(self).accounts().len()
                &&& refreshed_from(final(self).accounts()[i], old(self).accounts()[i], *account, now)
                &&& forall|j: int| 0 <= j < old(self).accounts().len() && j != i ==> #[trigger] final(self).accounts()[j]
                    == old(self).accounts()[j]
            },
            r matches Ok(id) ==> !old(self).has_did(account.did@) ==> {
                &&& id == old(self).accounts().len() + 1
                &&& final(self).accounts().len() == id
                &&& final(self).accounts().drop_last() == old(self).accounts()
                &&& created_from(final(self).accounts().last(), *account, id, now)
            },
    {
        match self.find_did(account.did.as_str()) {
            Some(i) => {
                let current = self.accounts[i].clone();
                let updated = Account {
                    id: current.id,
                    handle: account.handle.clone(),
                    did: current.did,
                    service_url: account.service_url.clone(),
                    auth_type: account.auth_type,
                    display_name: copy_text(&account.display_name),
                    avatar_url: copy_text(&account.avatar_url),
                    is_active: true,
                    created_at: current.created_at,
                    updated_at: Some(now),
                };
                self.accounts.set(i, updated);
                proof {
                    assert forall|a: int, b: int|
                        0 <= a < b < self.accounts().len() implies #[trigger] self.accounts()[a].did@
                        != #[trigger] self.accounts()[b].did@ by {
                        assert(old(self).accounts()[a].did@ != old(self).accounts()[b].did@);
                    }
                }
                Ok((i as u64 + 1) as i64)
            },
            None => self.create_account(account, now),
        }
    }

    /// The latest account with handle `handle`; absence is no error.
    pub fn get_account_by_handle(&self, handle: &str) -> (r: Result<Option<Account>, PersistenceError>)
        requires
            self.wf(),
        ensures
            r matches Ok(found) && match found {
                None => !self.has_handle(handle@),
                Some(a) => exists|i: int| self.latest_with_handle(i, handle@) && self.accounts()[i] == a,
            },
    {
        let key = String::from_str(handle);
        let mut found: Option<usize> = None;
        let mut i: usize = 0;
        while i < self.accounts.len()
            invariant
                i <= self.accounts@.len(),
                key@ == handle@,
                match found {
                    None => forall|k: int| 0 <= k < i ==> self.accounts@[k].handle@ != handle@,
                    Some(f) => f < i && self.accounts@[f as int].handle@ == handle@ && forall|k: int|
                        f < k < i ==> self.accounts@[k].handle@ != handle@,
                },
            decreases self.accounts@.len() - i,
        {
            if self.accounts[i].handle == key {
                found = Some(i);
            }
            i = i + 1;
        }
        match found {
            Some(f) => {
                assert(self.latest_with_handle(f as int, handle@));
                Ok(Some(self.accounts[f].clone()))
            },
            None => Ok(None),
        }
    }

    /// The active accounts, ordered by creation time; rows without one come
    /// first.
    pub fn get_all_active_accounts(&self) -> (r: Result<Vec<Account>, PersistenceError>)
        ensures
            r matches Ok(v) && v@.to_multiset() == active_rows(self.accounts()).to_multiset()
                && sorted_by_created(v@),
    {
        let mut out: Vec<Account> = Vec::new();
        let mut i: usize = 0;
        while i < self.accounts.len()
            invariant
                i <= self.accounts@.len(),
                out@.to_multiset() == active_rows(self.accounts@.subrange(0, i as int)).to_multiset(),
                sorted_by_created(out@),
            decreases self.accounts@.len() - i,
        {
            let ghost prev = active_rows(self.accounts@.subrange(0, i as int));
            assert(self.accounts@.subrange(0, i as int + 1).drop_last() =~= self.accounts@.subrange(0, i as int));
            if self.accounts[i].is_active {
                let row = self.accounts[i].clone();
                let p = insertion_point(&out, &row);
                let ghost before = out@;
                out.insert(p, row);
                proof {
                    vstd::seq_lib::to_multiset_insert(before, p as int, row);
                    vstd::seq_lib::to_multiset_build(prev, row);
                    assert forall|a: int, b: int| 0 <= a < b < out@.len() implies created_key(out@[a]) <= created_key(
                        out@[b],
                    ) by {
                        let pi = p as int;
                        if b < pi {
                            assert(out@[a] == before[a] && out@[b] == before[b]);
                        } else if b == pi {
                            assert(out@[a] == before[a]);
                        } else if a < pi {
                            assert(out@[a] == before[a] && out@[b] == before[b - 1]);
                        } else if a == pi {
                            assert(out@[b] == before[b - 1]);
                        } else {
                            assert(out@[a] == before[a - 1] && out@[b] == before[b - 1]);
                        }
                    }
                }
            }
            i = i + 1;
        }
        assert(self.accounts@.subrange(0, self.accounts@.len() as int) =~= self.accounts@);
        Ok(out)
    }

    /// Soft-deletes the account with identifier `account_id`: it stays, inactive.
    /// An identifier that names no account changes nothing.
    pub fn deactivate_account(&mut self, account_id: i64, now: i64) -> (r: Result<(), PersistenceError>)
        requires
            old(self).wf(),
        ensures
            r is Ok,
            final(self).wf(),
            final(self).sessions() == old(self).sessions(),
            final(self).preferences() == old(self).preferences(),
            final(self).accounts().len() == old(self).accounts().len(),
            forall|i: int| 0 <= i < old(self).accounts().len() ==> if i + 1 == account_id {
                &&& final(self).accounts()[i] == (Account {
                    is_active: false,
                    updated_at: final(self).accounts()[i].updated_at,
                    ..old(self).accounts()[i]
                })
                &&& final(self).accounts()[i].updated_at == Some(now)
            } else {
                #[trigger] final(self).accounts()[i] == old(self).accounts()[i]
            },
    {
        if 1 <= account_id && (account_id as u64) <= self.accounts.len() as u64 {
            let i = (account_id - 1) as usize;
            let current = self.accounts[i].clone();
            let updated = Account { is_active: false, updated_at: Some(now), ..current };
            self.accounts.set(i, updated);
            proof {
                assert forall|a: int, b: int|
                    0 <= a < b < self.accounts().len() implies #[trigger] self.accounts()[a].did@
                    != #[trigger] self.accounts()[b].did@ by {
                    assert(old(self).accounts()[a].did@ != old(self).accounts()[b].did@);
                }
            }
        }
        Ok(())
    }

    /// Where the token session of `account_id` stands.
    fn find_session(&self, account_id: i64) -> (r: Option<usize>)
        ensures
            r matches Some(i) ==> i < self.sessions().len() && self.sessions()[i as int].account_id == account_id,
            r is None ==> forall|k: int| 0 <= k < self.sessions().len() ==> #[trigger] self.sessions()[k].account_id != account_id,
    {
        let mut i: usize = 0;
        while i < self.sessions.len()
            invariant
                i <= self.sessions@.len(),
                forall|k: int| 0 <= k < i ==> self.sessions@[k].account_id != account_id,
            decreases self.sessions@.len() - i,
        {
            if self.sessions[i].account_id == account_id {
                return Some(i);
            }
            i = i + 1;
        }
        None
    }

    /// Inserts the token session of an account, or overwrites its
    /// fingerprints, expiry and scope; gives the row identifier.
    pub fn upsert_oauth_session(&mut self, session: &OAuthSession, now: i64) -> (r: Result<i64, PersistenceError>)
        requires
            old(self).wf(),
        ensures
            final(self).wf(),
            final(self).accounts() == old(self).accounts(),
            final(self).preferences() == old(self).preferences(),
            r is Err ==> *final(self) == *old(self),
            r matches Err(e) ==> e == PersistenceError::CapacityExhausted,
            r is Err <==> old(self).sessions().len() + 1 >= i64::MAX && forall|k: int|
                0 <= k < old(self).sessions().len() ==> #[trigger] old(self).sessions()[k].account_id
                    != session.account_id,
            r matches Ok(id) ==> {
                let i = id - 1;
                &&& 0 <= i < final(self).sessions().len()
                &&& stored_session(final(self).sessions()[i], *session, id, now)
                &&& final(self).sessions().len() == old(self).sessions().len() + if i < old(self).sessions().len() { 0int } else { 1int }
                &&& forall|j: int| 0 <= j < old(self).sessions().len() && j != i ==> #[trigger] final(self).sessions()[j]
                    == old(self).sessions()[j]
                &&& i < old(self).sessions().len() ==> old(self).sessions()[i].account_id == session.account_id
            },
    {
        match self.find_session(session.account_id) {
            Some(i) => {
                let current = self.sessions[i].clone();
                let id = (i as u64 + 1) as i64;
                self.sessions.set(i, OAuthSession {
                    id: Some(id),
                    account_id: session.account_id,
                    access_token_hash: session.access_token_hash.clone(),
                    refresh_token_hash: copy_text(&session.refresh_token_hash),
                    expires_at: session.expires_at,
                    scope: copy_text(&session.scope),
                    created_at: current.created_at,
                    updated_at: Some(now),
                });
                proof {
                    assert forall|a: int, b: int|
                        0 <= a < b < self.sessions().len() implies #[trigger] self.sessions()[a].account_id
                        != #[trigger] self.sessions()[b].account_id by {
                        assert(old(self).sessions()[a].account_id != old(self).sessions()[b].account_id);
                    }
                }
                Ok(id)
            },
            None => {
                let n = self.sessions.len() as u64;
                if n >= 0x7fff_ffff_ffff_fffe {
                    return Err(PersistenceError::CapacityExhausted);
                }
                let id = (n + 1) as i64;
                self.sessions.push(OAuthSession {
                    id: Some(id),
                    account_id: session.account_id,
                    access_token_hash: session.access_token_hash.clone(),
                    refresh_token_hash: copy_text(&session.refresh_token_hash),
                    expires_at: session.expires_at,
                    scope: copy_text(&session.scope),
                    created_at: Some(now),
                    updated_at: Some(now),
                });
                Ok(id)
            },
        }
    }

    /// The token session of `account_id`; absence is no error.
    pub fn get_oauth_session(&self, account_id: i64) -> (r: Result<Option<OAuthSession>, PersistenceError>)
        ensures
            r matches Ok(found) && match found {
                None => forall|k: int| 0 <= k < self.sessions().len() ==> #[trigger] self.sessions()[k].account_id != account_id,
                Some(s) => s.account_id == account_id && exists|i: int| 0 <= i < self.sessions().len() && self.sessions()[i] == s,
            },
    {
        match self.find_session(account_id) {
            Some(i) => Ok(Some(self.sessions[i].clone())),
            None => Ok(None),
        }
    }

    /// Where the preferences of `account_id` stand.
    fn find_preferences(&self, account_id: i64) -> (r: Option<usize>)
        ensures
            r matches Some(i) ==> i < self.preferences().len() && self.preferences()[i as int].account_id == account_id,
            r is None ==> forall|k: int| 0 <= k < self.preferences().len() ==> #[trigger] self.preferences()[k].account_id != account_id,
    {
        let mut i: usize = 0;
        while i < self.preferences.len()
            invariant
                i <= self.preferences@.len(),
                forall|k: int| 0 <= k < i ==> self.preferences@[k].account_id != account_id,
            decreases self.preferences@.len() - i,
        {
            if self.preferences[i].account_id == account_id {
                return Some(i);
            }
            i = i + 1;
        }
        None
    }

    /// Inserts or overwrites the preferences of an account.
    pub fn upsert_user_preferences(&mut self, prefs: &UserPreferences, now: i64) -> (r: Result<(), PersistenceError>)
        requires
            old(self).wf(),
        ensures
            r is Ok,
            final(self).wf(),
            final(self).accounts() == old(self).accounts(),
            final(self).sessions() == old(self).sessions(),
            exists|i: int| 0 <= i < final(self).preferences().len() && stored_preferences(final(self).preferences()[i], *prefs, now),
            forall|j: int| 0 <= j < old(self).preferences().len() && #[trigger] old(self).preferences()[j].account_id
                != prefs.account_id ==> final(self).preferences()[j] == old(self).preferences()[j],
            forall|j: int| old(self).preferences().len() <= j < final(self).preferences().len()
                ==> #[trigger] final(self).preferences()[j].account_id == prefs.account_id,
    {
        let blob = match &prefs.preferences_json {
            Some(j) => j.clone(),
            None => String::from_str("{}"),
        };
        match self.find_preferences(prefs.account_id) {
            Some(i) => {
                let current = self.preferences[i].clone();
                self.preferences.set(i, UserPreferences {
                    account_id: prefs.account_id,
                    theme: prefs.theme,
                    language: prefs.language,
                    notifications_enabled: prefs.notifications_enabled,
                    auto_refresh_interval: prefs.auto_refresh_interval,
                    preferences_json: Some(blob),
                    created_at: current.created_at,
                    updated_at: Some(now),
                });
                assert(stored_preferences(self.preferences()[i as int], *prefs, now));
                proof {
                    assert forall|a: int, b: int|
                        0 <= a < b < self.preferences().len() implies #[trigger] self.preferences()[a].account_id
                        != #[trigger] self.preferences()[b].account_id by {
                        assert(old(self).preferences()[a].account_id != old(self).preferences()[b].account_id);
                    }
                }
            },
            None => {
                self.preferences.push(UserPreferences {
                    account_id: prefs.account_id,
                    theme: prefs.theme,
                    language: prefs.language,
                    notifications_enabled: prefs.notifications_enabled,
                    auto_refresh_interval: prefs.auto_refresh_interval,
                    preferences_json: Some(blob),
                    created_at: Some(now),
                    updated_at: Some(now),
                });
                assert(stored_preferences(self.preferences()[old(self).preferences().len() as int], *prefs, now));
            },
        }
        Ok(())
    }

    /// The preferences of `account_id`; absence is no error.
    pub fn get_user_preferences(&self, account_id: i64) -> (r: Result<Option<UserPreferences>, PersistenceError>)
        requires
            self.wf(),
        ensures
            r matches Ok(found) && match found {
                None => forall|k: int| 0 <= k < self.preferences().len() ==> #[trigger] self.preferences()[k].account_id != account_id,
                Some(p) => p.account_id == account_id && exists|i: int| 0 <= i < self.preferences().len() && self.preferences()[i] == p,
            },
    {
        match self.find_preferences(account_id) {
            Some(i) => Ok(Some(self.preferences[i].clone())),
            None => Ok(None),
        }
    }

    /// The accounts that run side by side: the active ones in order of
    /// creation, their number, and whether each of them has a connected
    /// registered session.
    pub fn get_concurrent_session_state<C>(&self, sessions: &SessionManager<C>) -> (r: Result<
        ConcurrentSessionState,
        PersistenceError,
    >)
        requires
            sessions.wf(),
        ensures
            r matches Ok(st) && {
                &&& st.active_accounts@.to_multiset() == active_rows(self.accounts()).to_multiset()
                &&& sorted_by_created(st.active_accounts@)
                &&& st.total_accounts == active_rows(self.accounts()).len()
                &&& st.all_accounts_active == all_active_connected(st.active_accounts@, sessions@)
            },
    {
        let active = match self.get_all_active_accounts() {
            Ok(v) => v,
            Err(e) => return Err(e),
        };
        proof {
            vstd::seq_lib::to_multiset_len(active@);
            vstd::seq_lib::to_multiset_len(active_rows(self.accounts()));
        }
        Ok(session_state_of(active, sessions))
    }
}

/// The snapshot of the deck for the active accounts `active`: their number,
/// and whether each of them has a connected registered session.
pub fn session_state_of<C>(active: Vec<Account>, sessions: &SessionManager<C>) -> (r: ConcurrentSessionState)
    requires
        sessions.wf(),
    ensures
        r.active_accounts@ == active@,
        r.total_accounts == active@.len(),
        r.all_accounts_active == all_active_connected(active@, sessions@),
{
    let total_accounts = active.len();
    let mut all_connected = true;
    let mut i: usize = 0;
    while i < active.len()
        invariant
            i <= active@.len(),
            sessions.wf(),
            all_connected == forall|k: int| 0 <= k < i ==> registered_connected(sessions@, #[trigger] active@[k].handle@),
        decreases active@.len() - i,
    {
        let found = sessions.get_agent(active[i].handle.as_str());
        let ok = match found {
            Some(a) => a.health.is_connected(),
            None => false,
        };
        proof {
            let h = active@[i as int].handle@;
            match found {
                Some(a) => {
                    let j = choose|j: int| 0 <= j < sessions@.len() && sessions@[j] == *a;
                    assert(sessions@[j].handle@ == h);
                    if !ok {
                        assert forall|k: int| 0 <= k < sessions@.len() && #[trigger] sessions@[k].handle@ == h
                            implies !sessions@[k].health.connected() by {
                            if k < j {
                                assert(sessions@[k].handle@ != sessions@[j].handle@);
                            } else if k > j {
                                assert(sessions@[j].handle@ != sessions@[k].handle@);
                            }
                        }
                    }
                },
                None => {
                    assert forall|k: int| 0 <= k < sessions@.len() implies #[trigger] sessions@[k].handle@ != h by {
                        if sessions@[k].handle@ == h {
                            assert(sessions.has(h));
                        }
                    }
                },
            }
        }
        all_connected = all_connected && ok;
        i = i + 1;
    }
    let all_accounts_active = total_accounts > 0 && all_connected;
    ConcurrentSessionState { active_accounts: active, total_accounts, all_accounts_active }
}

/// An account row as the storage engine returns it, its tag as text.
#[derive(Debug, Clone)]
pub struct AccountRow {
    pub id: i64,
    pub handle: String,
    pub did: String,
    pub service_url: String,
    pub auth_type: String,
    pub display_name: Option<String>,
    pub avatar_url: Option<String>,
    pub is_active: bool,
    pub created_at: Option<i64>,
    pub updated_at: Option<i64>,
}

/// Decodes an account row; a tag that names no authentication type is a
/// decoding error, never a silent default.
pub fn account_from_row(row: AccountRow) -> (r: Result<Account, PersistenceError>)
    ensures
        r is Ok <==> exists|t: AuthType| t.tag() == row.auth_type@,
        r matches Err(e) ==> e matches PersistenceError::Decode(p) && p.kind == ValueKind::AuthType
            && p.value@ == row.auth_type@,
        r matches Ok(a) ==> {
            &&& a.id == Some(row.id)
            &&& a.handle == row.handle
            &&& a.did == row.did
            &&& a.service_url == row.service_url
            &&& a.auth_type.tag() == row.auth_type@
            &&& a.display_name == row.display_name
            &&& a.avatar_url == row.avatar_url
            &&& a.is_active == row.is_active
            &&& a.created_at == row.created_at
            &&& a.updated_at == row.updated_at
        },
{
    let auth_type = match AuthType::from_str(row.auth_type.as_str()) {
        Ok(t) => t,
        Err(e) => return Err(PersistenceError::Decode(e)),
    };
    Ok(Account {
        id: Some(row.id),
        handle: row.handle,
        did: row.did,
        service_url: row.service_url,
        auth_type,
        display_name: row.display_name,
        avatar_url: row.avatar_url,
        is_active: row.is_active,
        created_at: row.created_at,
        updated_at: row.updated_at,
    })
}

/// A preferences row as the storage engine returns it, its tags as text.
#[derive(Debug, Clone)]
pub struct PreferencesRow {
    pub account_id: i64,
    pub theme: String,
    pub language: String,
    pub notifications_enabled: bool,
    pub auto_refresh_interval: i32,
    pub preferences_json: Option<String>,
    pub created_at: Option<i64>,
    pub updated_at: Option<i64>,
}

/// Decodes a preferences row; the theme is checked before the language, and
/// a tag that names no variant is a decoding error.
pub fn preferences_from_row(row: PreferencesRow) -> (r: Result<UserPreferences, PersistenceError>)
    ensures
        r is Ok <==> (exists|t: Theme| t.tag() == row.theme@) && (exists|l: Language| l.tag() == row.language@),
        r matches Err(e) ==> e matches PersistenceError::Decode(p) && if exists|t: Theme| t.tag() == row.theme@ {
            p.kind == ValueKind::Language && p.value@ == row.language@
        } else {
            p.kind == ValueKind::Theme && p.value@ == row.theme@
        },
        r matches Ok(p) ==> {
            &&& p.account_id == row.account_id
            &&& p.theme.tag() == row.theme@
            &&& p.language.tag() == row.language@
            &&& p.notifications_enabled == row.notifications_enabled
            &&& p.auto_refresh_interval == row.auto_refresh_interval
            &&& p.preferences_json == row.preferences_json
            &&& p.created_at == row.created_at
            &&& p.updated_at == row.updated_at
        },
{
    let theme = match Theme::from_str(row.theme.as_str()) {
        Ok(t) => t,
        Err(e) => return Err(PersistenceError::Decode(e)),
    };
    let language = match Language::from_str(row.language.as_str()) {
        Ok(l) => l,
        Err(e) => return Err(PersistenceError::Decode(e)),
    };
    Ok(UserPreferences {
        account_id: row.account_id,
        theme,
        language,
        notifications_enabled: row.notifications_enabled,
        auto_refresh_interval: row.auto_refresh_interval,
        preferences_json: row.preferences_json,
        created_at: row.created_at,
        updated_at: row.updated_at,
    })
}

} // verus!
