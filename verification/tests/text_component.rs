use asky::nbt_value::NbtValue;
use asky::text_component::{is_false, Component};

fn plain(text: &str) -> Component {
    Component::new(text)
}

#[test]
fn new_holds_only_the_text() {
    let c = Component::new("hello");
    assert_eq!(c.text, "hello");
    assert_eq!(c.color, None);
    assert!(!c.bold && !c.italic && !c.underlined && !c.strikethrough && !c.obfuscated);
    assert!(c.extra.is_empty());
}

#[test]
fn json_of_plain_text() {
    assert_eq!(plain("hi").to_json(), r#"{"text":"hi"}"#);
}

#[test]
fn json_of_styled_component_with_extra() {
    let mut c = plain("x");
    c.color = Some("gold".to_string());
    c.bold = true;
    c.obfuscated = true;
    c.extra = vec![plain("a"), plain("b")];
    assert_eq!(
        c.to_json(),
        r#"{"text":"x","color":"gold","bold":true,"obfuscated":true,"extra":[{"text":"a"},{"text":"b"}]}"#
    );
}

#[test]
fn json_escapes_quotes_backslashes_and_controls() {
    assert_eq!(plain("a\"b\\c\nd\te\u{1}").to_json(), "{\"text\":\"a\\\"b\\\\c\\nd\\te\\u0001\"}");
}

#[test]
fn json_keeps_non_ascii() {
    assert_eq!(plain("§é").to_json(), "{\"text\":\"§é\"}");
}

#[test]
fn legacy_of_plain_text() {
    assert_eq!(plain("Hello").to_legacy(), r#"{"text":"Hello"}"#);
}

#[test]
fn legacy_codes_for_color_styles_and_extra() {
    let mut child = plain("World");
    child.color = Some("red".to_string());
    child.italic = true;
    let mut c = plain("Hello");
    c.color = Some("gold".to_string());
    c.bold = true;
    c.underlined = true;
    c.strikethrough = true;
    c.extra = vec![child, plain("!")];
    assert_eq!(c.to_legacy_impl(true), "§6§l§n§mHello§r§c§oWorld§r!");
    assert_eq!(c.to_legacy(), "{\"text\":\"§6§l§n§mHello§r§c§oWorld§r!\"}");
}

#[test]
fn legacy_of_non_root_starts_with_reset() {
    let mut c = plain("x");
    c.obfuscated = true;
    assert_eq!(c.to_legacy_impl(false), "§r§kx");
}

#[test]
fn legacy_color_letters() {
    let names = [
        ("black", '0'), ("dark_blue", '1'), ("dark_green", '2'), ("dark_aqua", '3'),
        ("dark_red", '4'), ("dark_purple", '5'), ("gold", '6'), ("gray", '7'),
        ("dark_gray", '8'), ("blue", '9'), ("green", 'a'), ("aqua", 'b'), ("red", 'c'),
        ("light_purple", 'd'), ("yellow", 'e'), ("white", 'f'), ("pink", 'f'),
    ];
    for (name, letter) in names {
        let mut c = plain("");
        c.color = Some(name.to_string());
        assert_eq!(c.to_legacy_impl(true), format!("§{letter}"));
    }
}

#[test]
fn nbt_of_plain_text() {
    assert_eq!(
        plain("hi").to_nbt(),
        NbtValue::Compound(vec![("text".to_string(), NbtValue::Str("hi".to_string()))])
    );
}

#[test]
fn nbt_of_styled_component_with_extra() {
    let mut c = plain("x");
    c.color = Some("aqua".to_string());
    c.italic = true;
    c.extra = vec![plain("y")];
    assert_eq!(
        c.to_nbt(),
        NbtValue::Compound(vec![
            ("text".to_string(), NbtValue::Str("x".to_string())),
            ("color".to_string(), NbtValue::Str("aqua".to_string())),
            ("italic".to_string(), NbtValue::Byte(1)),
            (
                "extra".to_string(),
                NbtValue::List(vec![NbtValue::Compound(vec![(
                    "text".to_string(),
                    NbtValue::Str("y".to_string())
                )])])
            ),
        ])
    );
}

#[test]
fn is_false_is_negation() {
    assert!(is_false(&false));
    assert!(!is_false(&true));
}
