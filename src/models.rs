//! The data model: accounts, token sessions, preferences and the values that
//! cross the command surface.
use vstd::prelude::*;
use crate::error::{ParseError, ValueKind};

verus! {

/// How an account authenticates.
#[derive(Debug, Clone, Copy, PartialEq, Eq, Structural)]
pub enum AuthType {
    OAuth,
    AppPassword,
}

impl AuthType {
    /// The stored text of each variant.
    pub open spec fn tag(self) -> Seq<char> {
        match self {
            AuthType::OAuth => "oauth"@,
            AuthType::AppPassword => "app_password"@,
        }
    }

    pub fn to_string(&self) -> (r: String)
        ensures
            r@ == self.tag(),
    {
        match self {
            AuthType::OAuth => String::from_str("oauth"),
            AuthType::AppPassword => String::from_str("app_password"),
        }
    }

    /// Parses a stored text; any text that is no variant's tag is refused.
    pub fn from_str(s: &str) -> (r: Result<AuthType, ParseError>)
        ensures
            r matches Ok(t) ==> t.tag() == s@,
            r matches Err(e) ==> e.kind == ValueKind::AuthType && e.value@ == s@,
            r is Err <==> (forall|t: AuthType| t.tag() != s@),
    {
        let text = String::from_str(s);
        if text == String::from_str("oauth") {
            assert(AuthType::OAuth.tag() == s@);
            Ok(AuthType::OAuth)
        } else if text == String::from_str("app_password") {
            assert(AuthType::AppPassword.tag() == s@);
            Ok(AuthType::AppPassword)
        } else {
            proof {
                assert forall|t: AuthType| t.tag() != s@ by {
                    match t {
                        AuthType::OAuth => {},
                        AuthType::AppPassword => {},
                    }
                }
            }
            Err(ParseError { kind: ValueKind::AuthType, value: text })
        }
    }
}

/// Colour theme of the interface.
#[derive(Debug, Clone, Copy, PartialEq, Eq, Structural)]
pub enum Theme {
    Light,
    Dark,
    System,
}

impl Theme {
    /// The stored text of each variant.
    pub open spec fn tag(self) -> Seq<char> {
        match self {
            Theme::Light => "light"@,
            Theme::Dark => "dark"@,
            Theme::System => "system"@,
        }
    }

    pub fn to_string(&self) -> (r: String)
        ensures
            r@ == self.tag(),
    {
        match self {
            Theme::Light => String::from_str("light"),
            Theme::Dark => String::from_str("dark"),
            Theme::System => String::from_str("system"),
        }
    }

    /// Parses a stored text; any text that is no variant's tag is refused.
    pub fn from_str(s: &str) -> (r: Result<Theme, ParseError>)
        ensures
            r matches Ok(t) ==> t.tag() == s@,
            r matches Err(e) ==> e.kind == ValueKind::Theme && e.value@ == s@,
            r is Err <==> (forall|t: Theme| t.tag() != s@),
    {
        let text = String::from_str(s);
        if text == String::from_str("light") {
            assert(Theme::Light.tag() == s@);
            Ok(Theme::Light)
        } else if text == String::from_str("dark") {
            assert(Theme::Dark.tag() == s@);
            Ok(Theme::Dark)
        } else if text == String::from_str("system") {
            assert(Theme::System.tag() == s@);
            Ok(Theme::System)
        } else {
            proof {
                assert forall|t: Theme| t.tag() != s@ by {
                    match t {
                        Theme::Light => {},
                        Theme::Dark => {},
                        Theme::System => {},
                    }
                }
            }
            Err(ParseError { kind: ValueKind::Theme, value: text })
        }
    }
}

impl Default for Theme {
    /// Follows the operating system's choice.
    fn default() -> (r: Theme)
        ensures
            r == Theme::System,
    {
        Theme::System
    }
}

/// Interface language: a closed set of locale tags.
#[derive(Debug, Clone, Copy, PartialEq, Eq, Structural)]
pub enum Language {
    Japanese,
    English,
    PortugueseBrazil,
    Korean,
    German,
}

impl Language {
    /// The locale tag of each variant.
    pub open spec fn tag(self) -> Seq<char> {
        match self {
            Language::Japanese => "ja"@,
            Language::English => "en"@,
            Language::PortugueseBrazil => "pt-BR"@,
            Language::Korean => "ko"@,
            Language::German => "de"@,
        }
    }

    pub fn to_string(&self) -> (r: String)
        ensures
            r@ == self.tag(),
    {
        match self {
            Language::Japanese => String::from_str("ja"),
            Language::English => String::from_str("en"),
            Language::PortugueseBrazil => String::from_str("pt-BR"),
            Language::Korean => String::from_str("ko"),
            Language::German => String::from_str("de"),
        }
    }

    /// Parses a locale tag; any text that is no variant's tag is refused.
    pub fn from_str(s: &str) -> (r: Result<Language, ParseError>)
        ensures
            r matches Ok(t) ==> t.tag() == s@,
            r matches Err(e) ==> e.kind == ValueKind::Language && e.value@ == s@,
            r is Err <==> (forall|t: Language| t.tag() != s@),
    {
        let text = String::from_str(s);
        if text == String::from_str("ja") {
            assert(Language::Japanese.tag() == s@);
            Ok(Language::Japanese)
        } else if text == String::from_str("en") {
            assert(Language::English.tag() == s@);
            Ok(Language::English)
        } else if text == String::from_str("pt-BR") {
            assert(Language::PortugueseBrazil.tag() == s@);
            Ok(Language::PortugueseBrazil)
        } else if text == String::from_str("ko") {
            assert(Language::Korean.tag() == s@);
            Ok(Language::Korean)
        } else if text == String::from_str("de") {
            assert(Language::German.tag() == s@);
            Ok(Language::German)
        } else {
            proof {
                assert forall|t: Language| t.tag() != s@ by {
                    match t {
                        Language::Japanese => {},
                        Language::English => {},
                        Language::PortugueseBrazil => {},
                        Language::Korean => {},
                        Language::German => {},
                    }
                }
            }
            Err(ParseError { kind: ValueKind::Language, value: text })
        }
    }
}

impl Default for Language {
    /// The primary supported locale.
    fn default() -> (r: Language)
        ensures
            r == Language::Japanese,
    {
        Language::Japanese
    }
}

/// Distinct authentication types have distinct tags, so parsing the tag of
/// one gives it back.
pub proof fn lemma_auth_type_tags_distinct(a: AuthType, b: AuthType)
    ensures
        a.tag() == b.tag() ==> a == b,
{
    reveal_strlit("oauth");
    reveal_strlit("app_password");
    if a.tag() == b.tag() {
        assert(a.tag()[0] == b.tag()[0]);
    }
}

/// Distinct themes have distinct tags, so parsing the tag of one gives it back.
pub proof fn lemma_theme_tags_distinct(a: Theme, b: Theme)
    ensures
        a.tag() == b.tag() ==> a == b,
{
    reveal_strlit("light");
    reveal_strlit("dark");
    reveal_strlit("system");
    if a.tag() == b.tag() {
        assert(a.tag()[0] == b.tag()[0]);
    }
}

/// Distinct languages have distinct tags, so parsing the tag of one gives it
/// back.
pub proof fn lemma_language_tags_distinct(a: Language, b: Language)
    ensures
        a.tag() == b.tag() ==> a == b,
{
    reveal_strlit("ja");
    reveal_strlit("en");
    reveal_strlit("pt-BR");
    reveal_strlit("ko");
    reveal_strlit("de");
    if a.tag() == b.tag() {
        assert(a.tag()[0] == b.tag()[0] && a.tag()[1] == b.tag()[1]);
    }
}

/// Copies an optional text.
pub fn copy_text(o: &Option<String>) -> (r: Option<String>)
    ensures
        r == *o,
{
    match o {
        Some(s) => Some(s.clone()),
        None => None,
    }
}

/// An account of the network, as persisted. Timestamps are Unix seconds.
#[derive(Debug)]
pub struct Account {
    pub id: Option<i64>,
    pub handle: String,
    pub did: String,
    pub service_url: String,
    pub auth_type: AuthType,
    pub display_name: Option<String>,
    pub avatar_url: Option<String>,
    pub is_active: bool,
    pub created_at: Option<i64>,
    pub updated_at: Option<i64>,
}

impl Clone for Account {
    fn clone(&self) -> (r: Account)
        ensures
            r == *self,
    {
        Account {
            id: self.id,
            handle: self.handle.clone(),
            did: self.did.clone(),
            service_url: self.service_url.clone(),
            auth_type: self.auth_type,
            display_name: copy_text(&self.display_name),
            avatar_url: copy_text(&self.avatar_url),
            is_active: self.is_active,
            created_at: self.created_at,
            updated_at: self.updated_at,
        }
    }
}

/// The durable record of an account's tokens: fingerprints only, never the
/// tokens themselves. Timestamps are Unix seconds.
#[derive(Debug)]
pub struct OAuthSession {
    pub id: Option<i64>,
    pub account_id: i64,
    pub access_token_hash: String,
    pub refresh_token_hash: Option<String>,
    pub expires_at: Option<i64>,
    pub scope: Option<String>,
    pub created_at: Option<i64>,
    pub updated_at: Option<i64>,
}

impl Clone for OAuthSession {
    fn clone(&self) -> (r: OAuthSession)
        ensures
            r == *self,
    {
        OAuthSession {
            id: self.id,
            account_id: self.account_id,
            access_token_hash: self.access_token_hash.clone(),
            refresh_token_hash: copy_text(&self.refresh_token_hash),
            expires_at: self.expires_at,
            scope: copy_text(&self.scope),
            created_at: self.created_at,
            updated_at: self.updated_at,
        }
    }
}

/// Preferences of one account. Timestamps are Unix seconds.
#[derive(Debug)]
pub struct UserPreferences {
    pub account_id: i64,
    pub theme: Theme,
    pub language: Language,
    pub notifications_enabled: bool,
    /// Seconds between automatic refreshes.
    pub auto_refresh_interval: i32,
    /// Free-form extension settings, as JSON text.
    pub preferences_json: Option<String>,
    pub created_at: Option<i64>,
    pub updated_at: Option<i64>,
}

impl Clone for UserPreferences {
    fn clone(&self) -> (r: UserPreferences)
        ensures
            r == *self,
    {
        UserPreferences {
            account_id: self.account_id,
            theme: self.theme,
            language: self.language,
            notifications_enabled: self.notifications_enabled,
            auto_refresh_interval: self.auto_refresh_interval,
            preferences_json: copy_text(&self.preferences_json),
            created_at: self.created_at,
            updated_at: self.updated_at,
        }
    }
}

/// Credentials of a login with an app password.
#[derive(Debug, Clone)]
pub struct LoginRequest {
    pub handle_or_email: String,
    pub password: String,
    /// The personal data server to use; the main public service when absent.
    pub service_url: Option<String>,
}

/// What a successful login hands back.
#[derive(Debug, Clone)]
pub struct LoginResponse {
    pub account: Account,
    /// Fingerprint of the access token.
    pub session_token: String,
    pub success: bool,
    pub message: Option<String>,
}

/// The fields of a new account row.
#[derive(Debug)]
pub struct CreateAccountRequest {
    pub handle: String,
    pub did: String,
    pub service_url: String,
    pub auth_type: AuthType,
    pub display_name: Option<String>,
    pub avatar_url: Option<String>,
}

impl Clone for CreateAccountRequest {
    fn clone(&self) -> (r: CreateAccountRequest)
        ensures
            r == *self,
    {
        CreateAccountRequest {
            handle: self.handle.clone(),
            did: self.did.clone(),
            service_url: self.service_url.clone(),
            auth_type: self.auth_type,
            display_name: copy_text(&self.display_name),
            avatar_url: copy_text(&self.avatar_url),
        }
    }
}

/// Snapshot of the accounts that run side by side in the deck.
#[derive(Debug, Clone)]
pub struct ConcurrentSessionState {
    pub active_accounts: Vec<Account>,
    pub total_accounts: usize,
    /// True when there is at least one active account and every active
    /// account has a registered session that is healthy or in warning.
    pub all_accounts_active: bool,
}

} // verus!
