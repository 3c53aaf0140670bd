use asky::mini_message::{components_from_events, is_styling_tag, parse_mini_message, root_markup, XmlEvent};
use asky::text_component::Component;

fn styled(text: &str, color: Option<&str>, bold: bool) -> Component {
    let mut c = Component::new(text);
    c.color = color.map(|s| s.to_string());
    c.bold = bold;
    c
}

fn root(extra: Vec<Component>) -> Component {
    let mut c = Component::new("");
    c.extra = extra;
    c
}

#[test]
fn styling_tags() {
    for t in ["black", "white", "gold", "bold", "b", "italic", "i", "em", "underlined", "u",
        "strikethrough", "st", "obfuscated", "obf"] {
        assert!(is_styling_tag(t), "{t}");
    }
    for t in ["newline", "root", "", "Bold", "pink"] {
        assert!(!is_styling_tag(t), "{t}");
    }
}

#[test]
fn plain_text_is_one_component() {
    assert_eq!(parse_mini_message("Hello").unwrap(), root(vec![Component::new("Hello")]));
}

#[test]
fn empty_input_is_the_default_component() {
    assert_eq!(parse_mini_message("").unwrap(), Component::new(""));
}

#[test]
fn color_applies_until_closed() {
    assert_eq!(
        parse_mini_message("<gold>Hi</gold> there").unwrap(),
        root(vec![styled("Hi", Some("gold"), false), Component::new(" there")])
    );
}

#[test]
fn styles_nest() {
    assert_eq!(
        parse_mini_message("<b><red>A</red>B</b>C").unwrap(),
        root(vec![styled("A", Some("red"), true), styled("B", None, true), Component::new("C")])
    );
}

#[test]
fn newline_tags_become_line_breaks() {
    assert_eq!(
        parse_mini_message("<gold>a<newline/>b</gold><newline>").unwrap(),
        root(vec![
            styled("a", Some("gold"), false),
            styled("\n", Some("gold"), false),
            styled("b", Some("gold"), false),
            Component::new("\n"),
        ])
    );
}

#[test]
fn unknown_tags_are_ignored() {
    assert_eq!(parse_mini_message("<foo>x</foo>").unwrap(), root(vec![Component::new("x")]));
}

#[test]
fn closing_more_tags_than_opened_is_an_error() {
    assert!(parse_mini_message("</b>x").is_err());
}

#[test]
fn entity_references_are_dropped() {
    assert_eq!(
        parse_mini_message("Tom &amp; Jerry").unwrap(),
        root(vec![Component::new("Tom "), Component::new(" Jerry")])
    );
}

#[test]
fn unclosed_comment_is_an_error() {
    assert!(parse_mini_message("<!-- never closed").is_err());
}

#[test]
fn events_are_folded_in_order() {
    let events = vec![
        XmlEvent::Start("italic".to_string()),
        XmlEvent::Text("a".to_string()),
        XmlEvent::End("italic".to_string()),
        XmlEvent::Text("".to_string()),
        XmlEvent::Other,
        XmlEvent::Empty("newline".to_string()),
    ];
    let mut a = Component::new("a");
    a.italic = true;
    assert_eq!(components_from_events(&events), root(vec![a, Component::new("\n")]));
}

#[test]
fn markup_is_wrapped_in_a_root_element() {
    assert_eq!(root_markup("<b>x</b>"), "<root><b>x</b></root>");
    assert_eq!(root_markup(""), "<root></root>");
}

#[test]
fn short_tag_names_read_like_long_ones() {
    let short = vec![
        XmlEvent::Start("b".to_string()),
        XmlEvent::Start("em".to_string()),
        XmlEvent::Start("u".to_string()),
        XmlEvent::Start("st".to_string()),
        XmlEvent::Start("obf".to_string()),
        XmlEvent::Text("x".to_string()),
        XmlEvent::End("obf".to_string()),
        XmlEvent::End("st".to_string()),
        XmlEvent::Text("y".to_string()),
    ];
    let long = vec![
        XmlEvent::Start("bold".to_string()),
        XmlEvent::Start("italic".to_string()),
        XmlEvent::Start("underlined".to_string()),
        XmlEvent::Start("strikethrough".to_string()),
        XmlEvent::Start("obfuscated".to_string()),
        XmlEvent::Text("x".to_string()),
        XmlEvent::End("obfuscated".to_string()),
        XmlEvent::End("strikethrough".to_string()),
        XmlEvent::Text("y".to_string()),
    ];
    assert_eq!(components_from_events(&short), components_from_events(&long));
    assert_eq!(
        parse_mini_message("<b><i>x</i></b>").unwrap(),
        parse_mini_message("<bold><italic>x</italic></bold>").unwrap()
    );
    let mut x = Component::new("x");
    x.bold = true;
    x.italic = true;
    assert_eq!(parse_mini_message("<b><em>x</em></b>").unwrap(), root(vec![x]));
}
