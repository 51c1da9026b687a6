use moodesky::error::{ParseError, ValueKind};
use moodesky::models::{AuthType, Language, Theme};

#[test]
fn auth_type_tags_round_trip() {
    assert_eq!(AuthType::OAuth.to_string(), "oauth");
    assert_eq!(AuthType::AppPassword.to_string(), "app_password");
    assert_eq!(AuthType::from_str("oauth"), Ok(AuthType::OAuth));
    assert_eq!(AuthType::from_str("app_password"), Ok(AuthType::AppPassword));
}

#[test]
fn auth_type_unknown_tag_is_an_error() {
    assert_eq!(
        AuthType::from_str("password"),
        Err(ParseError { kind: ValueKind::AuthType, value: "password".to_string() })
    );
}

#[test]
fn theme_tags_and_default() {
    assert_eq!(Theme::Light.to_string(), "light");
    assert_eq!(Theme::Dark.to_string(), "dark");
    assert_eq!(Theme::System.to_string(), "system");
    assert_eq!(Theme::from_str("dark"), Ok(Theme::Dark));
    assert_eq!(Theme::default(), Theme::System);
    assert!(matches!(Theme::from_str("Dark"), Err(ParseError { kind: ValueKind::Theme, .. })));
}

#[test]
fn language_tags_and_default() {
    assert_eq!(Language::Japanese.to_string(), "ja");
    assert_eq!(Language::English.to_string(), "en");
    assert_eq!(Language::PortugueseBrazil.to_string(), "pt-BR");
    assert_eq!(Language::Korean.to_string(), "ko");
    assert_eq!(Language::German.to_string(), "de");
    assert_eq!(Language::from_str("pt-BR"), Ok(Language::PortugueseBrazil));
    assert_eq!(Language::default(), Language::Japanese);
    assert!(matches!(Language::from_str("pt-br"), Err(ParseError { kind: ValueKind::Language, .. })));
}
