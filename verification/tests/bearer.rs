use chat_hub::token::bearer_token;

#[test]
fn bearer_scheme_is_stripped() {
    assert_eq!(bearer_token("Bearer abc.def.ghi"), Some("abc.def.ghi".to_string()));
}

#[test]
fn empty_token_after_scheme() {
    assert_eq!(bearer_token("Bearer "), Some("".to_string()));
}

#[test]
fn wrong_scheme_is_refused() {
    assert_eq!(bearer_token("bearer abc"), None);
    assert_eq!(bearer_token("Basic abc"), None);
    assert_eq!(bearer_token("Bearerabc"), None);
}

#[test]
fn short_values_are_refused() {
    assert_eq!(bearer_token(""), None);
    assert_eq!(bearer_token("Bearer"), None);
}
