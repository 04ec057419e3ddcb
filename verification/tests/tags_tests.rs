use oxide_explorer::tags::{
    add_tag, color_class, color_css, color_from_attr, colors, tags_attr_value, tags_from_attr, tags_label, trim,
};

fn strings(v: &[&str]) -> Vec<String> {
    v.iter().map(|s| s.to_string()).collect()
}

#[test]
fn tags_are_the_nonempty_comma_pieces() {
    let data = b"work,,urgent,".to_vec();
    assert_eq!(tags_from_attr(Some(&data)), strings(&["work", "urgent"]));
    assert_eq!(tags_from_attr(None), Vec::<String>::new());
    assert_eq!(tags_from_attr(Some(&Vec::new())), Vec::<String>::new());
}

#[test]
fn invalid_bytes_become_replacement_characters() {
    let data = vec![0xff, b',', b'x'];
    assert_eq!(tags_from_attr(Some(&data)), strings(&["\u{FFFD}", "x"]));
}

#[test]
fn tags_written_read_back() {
    let tags = strings(&["a", "b c", "ünï"]);
    let value = tags_attr_value(&tags);
    assert_eq!(value, "a,b c,ünï");
    let bytes = value.as_bytes().to_vec();
    assert_eq!(tags_from_attr(Some(&bytes)), tags);
}

#[test]
fn color_is_the_attribute_text() {
    assert_eq!(color_from_attr(Some(&b"red".to_vec())).as_deref(), Some("red"));
    assert_eq!(color_from_attr(Some(&Vec::new())), None);
    assert_eq!(color_from_attr(None), None);
}

#[test]
fn trim_follows_str_trim() {
    for s in ["  x y \t", "\u{3000}a\u{a0}", "", "   ", "no-space", "\n\r\u{85}mid dle\u{2029}", "\u{200b}z"] {
        assert_eq!(trim(s), s.trim(), "input {s:?}");
    }
}

#[test]
fn adding_tags() {
    assert_eq!(add_tag(&strings(&["a"]), " b "), Some(strings(&["a", "b"])));
    assert_eq!(add_tag(&strings(&["a"]), "a "), None);
    assert_eq!(add_tag(&strings(&["a"]), "   "), None);
    let added = add_tag(&Vec::new(), "new").unwrap();
    assert_eq!(added, strings(&["new"]));
    assert_eq!(add_tag(&added, "new"), None);
}

#[test]
fn tag_label() {
    assert_eq!(tags_label(&Vec::new()), "No tags");
    assert_eq!(tags_label(&strings(&["a", "b"])), "a, b");
}

#[test]
fn color_choices() {
    let c = colors();
    assert_eq!(c.len(), 7);
    assert_eq!(c[0], ("red", "#e74c3c"));
    assert_eq!(c[6], ("gray", "#95a5a6"));
    assert_eq!(
        color_css("red", "#e74c3c"),
        ".color-dot-red { background-color: #e74c3c; border-radius: 50%; min-width: 24px; min-height: 24px; }"
    );
    assert_eq!(color_class("blue"), "color-dot-blue");
}

#[test]
fn written_tags_read_back_without_empty_ones() {
    let tags: Vec<String> = vec!["a".into(), "".into(), "grün".into(), "".into()];
    let value = tags_attr_value(&tags);
    let bytes = value.into_bytes();
    assert_eq!(tags_from_attr(Some(&bytes)), vec!["a".to_string(), "grün".to_string()]);
    let none: Vec<String> = Vec::new();
    let empty = tags_attr_value(&none).into_bytes();
    assert!(tags_from_attr(Some(&empty)).is_empty());
}
