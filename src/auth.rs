//! The authenticator: turns the outcome of a login handshake into an account
//! and a token fingerprint, and keeps the raw tokens of each handle in an
//! in-process vault that is never written to durable storage.
use vstd::prelude::*;
use sha2::{Digest, Sha256};
use crate::error::AuthError;
use crate::models::{copy_text, Account, AuthType, LoginRequest, LoginResponse};

verus! {

/// The lowercase hex SHA-256 digest of the UTF-8 bytes of a text.
pub uninterp spec fn token_fingerprint(text: Seq<char>) -> Seq<char>;

/// A lowercase hexadecimal digit.
pub open spec fn lower_hex_digit(c: char) -> bool {
    ('0' <= c && c <= '9') || ('a' <= c && c <= 'f')
}

/// `t` is a fingerprint as the wrapper prints it: 64 lowercase hex digits.
pub open spec fn fingerprint_shape(t: Seq<char>) -> bool {
    t.len() == 64 && forall|k: int| 0 <= k < t.len() ==> lower_hex_digit(#[trigger] t[k])
}

/// Relies on sha2's `Sha256` (`new`, `update`, `finalize`) and on
/// generic-array's `LowerHex` for the digest: two lowercase hex digits for each
/// of its 32 bytes.
#[verifier::external_body]
fn sha256_hex(text: &str) -> (r: String)
    ensures
        r@ == token_fingerprint(text@),
        r@.len() == 64,
        forall|k: int| 0 <= k < r@.len() ==> lower_hex_digit(#[trigger] r@[k]),
{
    let mut hasher = Sha256::new();
    hasher.update(text.as_bytes());
    format!("{:x}", hasher.finalize())
}

/// What a successful login handshake with the service hands back.
#[derive(Debug, Clone)]
pub struct ProtocolSession {
    pub handle: String,
    pub did: String,
    pub access_jwt: String,
    pub refresh_jwt: String,
}

/// What a successful refresh handshake hands back.
#[derive(Debug, Clone)]
pub struct RenewedTokens {
    pub access_jwt: String,
    pub refresh_jwt: String,
    /// When the new access token expires, in Unix seconds.
    pub expires_at: i64,
}

/// Display fields of a profile, fetched on a best-effort basis.
#[derive(Debug, Clone)]
pub struct ProfileInfo {
    pub display_name: Option<String>,
    pub avatar_url: Option<String>,
}

/// The raw tokens of one handle.
#[derive(Debug, Clone)]
pub struct StoredTokens {
    pub handle: String,
    pub access_token: String,
    pub refresh_token: Option<String>,
}

/// The service used when a login names none.
pub open spec fn default_service() -> Seq<char> {
    "https://bsky.social"@
}

/// The service that a login request names, or the default one.
pub open spec fn service_of(request: LoginRequest) -> Seq<char> {
    match request.service_url {
        Some(u) => u@,
        None => default_service(),
    }
}

/// `a` is the account that a successful login describes.
pub open spec fn describes_login(
    a: Account,
    request: LoginRequest,
    session: ProtocolSession,
    profile: Option<ProfileInfo>,
) -> bool {
    &&& a.id is None
    &&& a.handle == session.handle
    &&& a.did == session.did
    &&& a.service_url@ == service_of(request)
    &&& a.auth_type == AuthType::AppPassword
    &&& a.display_name == match profile {
        Some(p) => p.display_name,
        None => None,
    }
    &&& a.avatar_url == match profile {
        Some(p) => p.avatar_url,
        None => None,
    }
    &&& a.is_active
    &&& a.created_at is None
    &&& a.updated_at is None
}

/// Neither the handle nor the secret of the request is empty.
pub open spec fn credentials_present(request: LoginRequest) -> bool {
    request.handle_or_email@.len() > 0 && request.password@.len() > 0
}

/// The authenticator, with the raw tokens of each logged-in handle.
#[derive(Clone)]
pub struct AtProtoAuth {
    vault: Vec<StoredTokens>,
}

impl View for AtProtoAuth {
    type V = Seq<StoredTokens>;

    closed spec fn view(&self) -> Seq<StoredTokens> {
        self.vault@
    }
}

impl AtProtoAuth {
    /// No two entries of the vault share a handle.
    pub open spec fn wf(&self) -> bool {
        forall|i: int, j: int|
            0 <= i < j < self@.len() ==> #[trigger] self@[i].handle@ != #[trigger] self@[j].handle@
    }

    /// Tokens are stored for `h`.
    pub open spec fn has(&self, h: Seq<char>) -> bool {
        exists|i: int| 0 <= i < self@.len() && #[trigger] self@[i].handle@ == h
    }

    /// The tokens stored for `h`, if any.
    pub open spec fn tokens(&self, h: Seq<char>) -> Option<StoredTokens> {
        if self.has(h) {
            Some(self@[choose|i: int| 0 <= i < self@.len() && #[trigger] self@[i].handle@ == h])
        } else {
            None
        }
    }

    /// An authenticator with an empty vault.
    pub fn new() -> (r: Result<AtProtoAuth, String>)
        ensures
            r matches Ok(a) && a.wf() && a@.len() == 0,
    {
        Ok(AtProtoAuth { vault: Vec::new() })
    }

    /// Where the tokens of `handle` stand.
    fn position(&self, handle: &str) -> (r: Option<usize>)
        requires
            self.wf(),
        ensures
            r matches Some(i) ==> i < self@.len() && self@[i as int].handle@ == handle@
                && self.tokens(handle@) == Some(self@[i as int]),
            r is None ==> !self.has(handle@) && self.tokens(handle@) is None,
    {
        let key = String::from_str(handle);
        let mut i: usize = 0;
        while i < self.vault.len()
            invariant
                i <= self.vault@.len(),
                key@ == handle@,
                self.wf(),
                forall|k: int| 0 <= k < i ==> self.vault@[k].handle@ != handle@,
            decreases self.vault@.len() - i,
        {
            if self.vault[i].handle == key {
                proof {
                    assert(self@[i as int].handle@ == handle@);
                    assert(self.has(handle@));
                    let j = choose|j: int| 0 <= j < self@.len() && #[trigger] self@[j].handle@ == handle@;
                    if j < i {
                        assert(self@[j].handle@ != self@[i as int].handle@);
                    } else if j > i {
                        assert(self@[i as int].handle@ != self@[j].handle@);
                    }
                }
                return Some(i);
            }
            i = i + 1;
        }
        None
    }

    /// The stored access token of `handle`; absence is no error.
    pub fn get_stored_access_token(&self, handle: &str) -> (r: Result<Option<String>, String>)
        requires
            self.wf(),
        ensures
            r matches Ok(t) && t == match self.tokens(handle@) {
                Some(e) => Some(e.access_token),
                None => None,
            },
    {
        match self.position(handle) {
            Some(i) => Ok(Some(self.vault[i].access_token.clone())),
            None => Ok(None),
        }
    }

    /// The stored refresh token of `handle`; absence is no error.
    pub fn get_stored_refresh_token(&self, handle: &str) -> (r: Result<Option<String>, String>)
        requires
            self.wf(),
        ensures
            r matches Ok(t) && t == match self.tokens(handle@) {
                Some(e) => e.refresh_token,
                None => None,
            },
    {
        match self.position(handle) {
            Some(i) => Ok(copy_text(&self.vault[i].refresh_token)),
            None => Ok(None),
        }
    }

    /// Puts the tokens of `handle` in the vault, replacing any stored before.
    pub fn store_tokens(&mut self, handle: String, access_token: String, refresh_token: Option<String>)
        requires
            old(self).wf(),
        ensures
            final(self).wf(),
            final(self).tokens(handle@) matches Some(e) && e.handle == handle && e.access_token
                == access_token && e.refresh_token == refresh_token,
            forall|h: Seq<char>| h != handle@ ==> final(self).tokens(h) == old(self).tokens(h),
    {
        let ghost h0 = handle@;
        let pos = self.position(handle.as_str());
        let entry = StoredTokens { handle, access_token, refresh_token };
        match pos {
            Some(i) => {
                self.vault.set(i, entry);
                assert(self@[i as int].handle@ == h0);
                proof {
                    assert forall|h: Seq<char>| h != h0 implies self.tokens(h) == old(self).tokens(h) by {
                        if old(self).has(h) {
                            let k = choose|k: int| 0 <= k < old(self)@.len() && #[trigger] old(self)@[k].handle@ == h;
                            assert(self@[k].handle@ == h);
                        }
                        if self.has(h) {
                            let k = choose|k: int| 0 <= k < self@.len() && #[trigger] self@[k].handle@ == h;
                            assert(old(self)@[k].handle@ == h);
                        }
                    }
                }
            },
            None => {
                self.vault.push(entry);
                let ghost n = old(self)@.len() as int;
                assert(self@[n].handle@ == h0);
                proof {
                    assert forall|h: Seq<char>| h != h0 implies self.tokens(h) == old(self).tokens(h) by {
                        if old(self).has(h) {
                            let k = choose|k: int| 0 <= k < old(self)@.len() && #[trigger] old(self)@[k].handle@ == h;
                            assert(self@[k].handle@ == h);
                        }
                        if self.has(h) {
                            let k = choose|k: int| 0 <= k < self@.len() && #[trigger] self@[k].handle@ == h;
                            assert(old(self)@[k].handle@ == h);
                        }
                    }
                }
            },
        }
    }

    /// Removes the tokens of `handle` from the vault.
    pub fn delete_stored_tokens(&mut self, handle: &str) -> (r: Result<(), String>)
        requires
            old(self).wf(),
        ensures
            r is Ok,
            final(self).wf(),
            final(self).tokens(handle@) is None,
            forall|h: Seq<char>| h != handle@ ==> final(self).tokens(h) == old(self).tokens(h),
    {
        match self.position(handle) {
            Some(i) => {
                self.vault.remove(i);
                proof {
                    assert forall|k: int| 0 <= k < self@.len() implies #[trigger] self@[k]
                        == old(self)@[if k < i { k } else { k + 1 }] by {}
                    assert forall|h: Seq<char>| h != handle@ implies self.tokens(h) == old(self).tokens(h) by {
                        if old(self).has(h) {
                            let k = choose|k: int| 0 <= k < old(self)@.len() && #[trigger] old(self)@[k].handle@ == h;
                            assert(k != i);
                            let k2 = if k < i { k } else { k - 1 };
                            assert(self@[k2] == old(self)@[k]);
                        }
                        if self.has(h) {
                            let k = choose|k: int| 0 <= k < self@.len() && #[trigger] self@[k].handle@ == h;
                            assert(self@[k] == old(self)@[if k < i { k } else { k + 1 }]);
                        }
                    }
                    assert(!self.has(handle@)) by {
                        if self.has(handle@) {
                            let k = choose|k: int| 0 <= k < self@.len() && #[trigger] self@[k].handle@ == handle@;
                            assert(self@[k] == old(self)@[if k < i { k } else { k + 1 }]);
                        }
                    }
                }
                Ok(())
            },
            None => Ok(()),
        }
    }

    /// Refuses a login request whose handle or secret is empty, before any
    /// network traffic.
    pub fn check_credentials(request: &LoginRequest) -> (r: Result<(), AuthError>)
        ensures
            r is Ok <==> credentials_present(*request),
            r matches Err(e) ==> e == AuthError::InvalidCredentials,
    {
        if request.handle_or_email.as_str().is_empty() || request.password.as_str().is_empty() {
            Err(AuthError::InvalidCredentials)
        } else {
            Ok(())
        }
    }

    /// The fingerprint of an access token that durable storage keeps.
    pub fn create_session_token(&self, access_token: &str) -> (r: String)
        ensures
            r@ == token_fingerprint(access_token@),
            fingerprint_shape(r@),
    {
        sha256_hex(access_token)
    }

    /// Completes a login with an app password from the outcome of the
    /// handshake with the service and the best-effort profile fetch. On
    /// success the raw tokens go to the vault and the response carries the
    /// account and the fingerprint of the access token; on failure nothing
    /// changes.
    pub fn login_with_app_password(
        &mut self,
        request: &LoginRequest,
        handshake: Result<ProtocolSession, AuthError>,
        profile: Option<ProfileInfo>,
    ) -> (r: Result<LoginResponse, AuthError>)
        requires
            old(self).wf(),
        ensures
            final(self).wf(),
            !credentials_present(*request) ==> r == Err::<LoginResponse, AuthError>(
                AuthError::InvalidCredentials,
            ),
            credentials_present(*request) && handshake is Err ==> r == Err::<LoginResponse, AuthError>(
                handshake->Err_0,
            ),
            r is Err ==> final(self)@ == old(self)@,
            credentials_present(*request) && handshake is Ok ==> r is Ok,
            r matches Ok(resp) ==> {
                let s = handshake->Ok_0;
                &&& handshake is Ok
                &&& describes_login(resp.account, *request, s, profile)
                &&& resp.session_token@ == token_fingerprint(s.access_jwt@)
                &&& fingerprint_shape(resp.session_token@)
                &&& resp.success
                &&& final(self).tokens(s.handle@) matches Some(e) && e.access_token == s.access_jwt
                    && e.refresh_token == Some(s.refresh_jwt)
                &&& forall|h: Seq<char>| h != s.handle@ ==> final(self).tokens(h) == old(self).tokens(h)
            },
    {
        if let Err(e) = Self::check_credentials(request) {
            return Err(e);
        }
        let session = match handshake {
            Ok(s) => s,
            Err(e) => return Err(e),
        };
        let ghost s0 = session;
        let session_token = self.create_session_token(session.access_jwt.as_str());
        let service_url = match &request.service_url {
            Some(u) => u.clone(),
            None => String::from_str("https://bsky.social"),
        };
        let (display_name, avatar_url) = match profile {
            Some(p) => (p.display_name, p.avatar_url),
            None => (None, None),
        };
        self.store_tokens(session.handle.clone(), session.access_jwt, Some(session.refresh_jwt));
        let account = Account {
            id: None,
            handle: session.handle,
            did: session.did,
            service_url,
            auth_type: AuthType::AppPassword,
            display_name,
            avatar_url,
            is_active: true,
            created_at: None,
            updated_at: None,
        };
        Ok(LoginResponse {
            account,
            session_token,
            success: true,
            message: Some(String::from_str("Login successful")),
        })
    }

    /// Whether `handle` holds a stored access token. A handle that never
    /// logged in gives `false`, not an error; no network check is made.
    pub fn verify_token(&self, handle: &str, service_url: &str) -> (r: Result<bool, String>)
        requires
            self.wf(),
        ensures
            r == Ok::<bool, String>(self.has(handle@)),
    {
        match self.get_stored_access_token(handle) {
            Ok(Some(_)) => Ok(true),
            _ => Ok(false),
        }
    }

    /// The stored tokens with which to restore the session of `handle`.
    pub fn authenticated_tokens(&self, handle: &str) -> (r: Result<(String, Option<String>), AuthError>)
        requires
            self.wf(),
        ensures
            r is Err <==> !self.has(handle@),
            r matches Err(e) ==> e == AuthError::NoAccessToken,
            r matches Ok(t) ==> self.tokens(handle@) matches Some(e) && t.0 == e.access_token
                && t.1 == e.refresh_token,
    {
        match self.position(handle) {
            Some(i) => Ok((self.vault[i].access_token.clone(), copy_text(&self.vault[i].refresh_token))),
            None => Err(AuthError::NoAccessToken),
        }
    }

    /// Completes a token refresh for `handle` from the outcome of the refresh
    /// handshake. Without a stored refresh token it fails with
    /// `NoRefreshToken`, whatever the handshake gave; on success the new
    /// tokens replace the old ones and the fingerprint of the new access
    /// token comes back; on failure nothing changes.
    pub fn refresh_access_token(
        &mut self,
        handle: &str,
        renewed: Result<RenewedTokens, AuthError>,
    ) -> (r: Result<String, AuthError>)
        requires
            old(self).wf(),
        ensures
            final(self).wf(),
            r is Err ==> final(self)@ == old(self)@,
            !(old(self).tokens(handle@) matches Some(e) && e.refresh_token is Some) ==> r
                == Err::<String, AuthError>(AuthError::NoRefreshToken),
            (old(self).tokens(handle@) matches Some(e) && e.refresh_token is Some) ==> match renewed {
                Err(e) => r == Err::<String, AuthError>(e),
                Ok(t) => {
                    &&& r matches Ok(fp) && fp@ == token_fingerprint(t.access_jwt@) && fingerprint_shape(fp@)
                    &&& final(self).tokens(handle@) matches Some(e) && e.access_token == t.access_jwt
                        && e.refresh_token == Some(t.refresh_jwt)
                    &&& forall|h: Seq<char>| h != handle@ ==> final(self).tokens(h) == old(self).tokens(h)
                },
            },
    {
        let i = match self.position(handle) {
            Some(i) => i,
            None => return Err(AuthError::NoRefreshToken),
        };
        if self.vault[i].refresh_token.is_none() {
            return Err(AuthError::NoRefreshToken);
        }
        let (access, refresh) = match renewed {
            Ok(t) => (t.access_jwt, t.refresh_jwt),
            Err(e) => return Err(e),
        };
        let fingerprint = self.create_session_token(access.as_str());
        let key = self.vault[i].handle.clone();
        self.store_tokens(key, access, Some(refresh));
        Ok(fingerprint)
    }
}

} // verus!
