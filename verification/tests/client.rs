use baofzf::client::{choose_token, resolve_address, resolve_namespace, token_from_file, TokenSource};
use baofzf::errors::AppError;
use baofzf::text::trim_white_space;

fn some(s: &str) -> Option<String> {
    Some(s.to_string())
}

#[test]
fn openbao_address_takes_precedence() {
    assert_eq!(
        resolve_address(some("http://bao:8200"), some("http://vault:8200")).ok(),
        some("http://bao:8200")
    );
    assert_eq!(resolve_address(None, some("http://vault:8200")).ok(), some("http://vault:8200"));
    assert!(matches!(resolve_address(None, None), Err(AppError::AddressNotSet)));
}

#[test]
fn openbao_token_takes_precedence() {
    assert!(matches!(
        choose_token(some("bao"), some("vault"), some("/home/u")),
        TokenSource::Given(t) if t == "bao"
    ));
    assert!(matches!(
        choose_token(None, some("vault"), some("/home/u")),
        TokenSource::Given(t) if t == "vault"
    ));
}

#[test]
fn missing_or_empty_token_falls_back_to_the_file() {
    assert!(matches!(
        choose_token(None, None, some("/home/u")),
        TokenSource::File(p) if p == "/home/u/.vault-token"
    ));
    assert!(matches!(
        choose_token(some(""), some("vault"), None),
        TokenSource::File(p) if p == "~/.vault-token"
    ));
}

#[test]
fn token_file_is_trimmed() {
    assert_eq!(token_from_file(some("  s.abc123\n")).ok(), some("s.abc123"));
    assert_eq!(token_from_file(some("\t\u{3000}tok en\r\n")).ok(), some("tok en"));
    assert_eq!(token_from_file(some(" \n ")).ok(), some(""));
    assert!(matches!(token_from_file(None), Err(AppError::TokenNotFound)));
}

#[test]
fn namespace_defaults_to_root() {
    assert_eq!(resolve_namespace(None, None), "root");
    assert_eq!(resolve_namespace(some("team"), some("other")), "team");
    assert_eq!(resolve_namespace(None, some("other")), "other");
}

#[test]
fn trimming_matches_std() {
    for s in ["", " ", "a", " a ", "\u{a0}x\u{85}", "x\u{200b}", "\u{2028}y z\u{205f}", "é "] {
        assert_eq!(trim_white_space(s), s.trim());
    }
}
