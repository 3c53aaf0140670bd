use asky::env_placeholders::{expand_env_placeholders, EnvPlaceholderError};
use asky::login_disconnect::LoginDisconnectPacket;
use asky::nbt_options::NbtOptions;

fn env() -> Vec<(String, String)> {
    vec![
        ("HOME".to_string(), "/root".to_string()),
        ("PORT".to_string(), "25565".to_string()),
        ("HOME".to_string(), "/other".to_string()),
    ]
}

#[test]
fn placeholders_take_variable_values() {
    assert_eq!(
        expand_env_placeholders("bind = \"0.0.0.0:${PORT}\" # ${HOME}", &env()).unwrap(),
        "bind = \"0.0.0.0:25565\" # /root"
    );
}

#[test]
fn escaped_placeholders_lose_the_backslash() {
    assert_eq!(expand_env_placeholders("a \\${HOME} b", &env()).unwrap(), "a ${HOME} b");
    assert_eq!(expand_env_placeholders("\\${NOPE}", &env()).unwrap(), "${NOPE}");
}

#[test]
fn missing_variable_is_an_error() {
    assert_eq!(
        expand_env_placeholders("${HOME} ${NOPE} ${ALSO_NOPE}", &env()).unwrap_err(),
        EnvPlaceholderError::MissingEnvVar("NOPE".to_string())
    );
}

#[test]
fn text_without_placeholders_is_unchanged() {
    for s in ["", "plain", "$HOME", "${1X}", "${}", "${A-B}", "${HOME", "é\\$ü"] {
        assert_eq!(expand_env_placeholders(s, &env()).unwrap(), s);
    }
}

#[test]
fn placeholders_next_to_non_ascii() {
    assert_eq!(expand_env_placeholders("é${PORT}ü", &env()).unwrap(), "é25565ü");
}

#[test]
fn login_disconnect_default_reason() {
    assert_eq!(LoginDisconnectPacket::default().reason, r#"{"text":"Disconnected"}"#);
}

#[test]
fn login_disconnect_with_text() {
    assert_eq!(LoginDisconnectPacket::text("Bye \"you\"").reason, r#"{"text":"Bye \"you\""}"#);
}

#[test]
fn nbt_options_flags() {
    let o = NbtOptions::new();
    assert!(!o.is_nameless_root() && !o.is_dynamic_lists());
    let o = o.nameless_root(true);
    assert!(o.is_nameless_root() && !o.is_dynamic_lists());
    let o = o.dynamic_lists(true);
    assert!(o.is_nameless_root() && o.is_dynamic_lists());
    let o = o.nameless_root(false);
    assert!(!o.is_nameless_root() && o.is_dynamic_lists());
    let o = o.dynamic_lists(false).dynamic_lists(false);
    assert!(!o.is_nameless_root() && !o.is_dynamic_lists());
    let d = NbtOptions::default();
    assert!(!d.is_nameless_root() && !d.is_dynamic_lists());
}
