use html_token::Attribute;
use html_token::AttributeSet;

#[test]
fn set_appends_when_name_is_absent() {
    let mut c = Attribute::none();
    c.set_attr(String::from("class"), String::from("wide"));
    assert_eq!(c.0.len(), 1);
    let found = c.get_attr("class").unwrap();
    assert_eq!(found.name, "class");
    assert_eq!(found.value, "wide");

    c.set_attr(String::from("id"), String::from("main"));
    assert_eq!(c.0.len(), 2);
    let found = c.get_attr("id").unwrap();
    assert_eq!(found.name, "id");
    assert_eq!(found.value, "main");
}

#[test]
fn set_replaces_when_name_is_present() {
    let mut c = Attribute::none();
    c.set_attr(String::from("class"), String::from("wide"));
    c.set_attr(String::from("id"), String::from("main"));
    c.set_attr(String::from("class"), String::from("narrow"));
    assert_eq!(c.0.len(), 2);
    let found = c.get_attr("class").unwrap();
    assert_eq!(found.value, "narrow");
    // the replaced entry keeps its position
    assert_eq!(c.0[0].name, "class");
    assert_eq!(c.0[1].name, "id");
}

#[test]
fn get_attr_returns_none_when_absent() {
    let c = Attribute::none();
    assert!(c.get_attr("missing").is_none());
    let mut c = Attribute::none();
    c.set_attr(String::from("a"), String::from("1"));
    assert!(c.get_attr("b").is_none());
}

#[test]
fn get_attr_returns_first_match_among_duplicates() {
    let c = AttributeSet(vec![
        Attribute::new(String::from("k"), String::from("first")),
        Attribute::new(String::from("k"), String::from("second")),
    ]);
    assert_eq!(c.get_attr("k").unwrap().value, "first");
}

#[test]
fn get_attr_mut_edits_in_place() {
    let mut c = Attribute::none();
    c.set_attr(String::from("k"), String::from("old"));
    let a = c.get_attr_mut("k").unwrap();
    a.value = String::from("new");
    assert_eq!(c.get_attr("k").unwrap().value, "new");
    assert_eq!(c.0.len(), 1);
}

#[test]
fn get_attr_mut_returns_none_when_absent() {
    let mut c = Attribute::none();
    c.set_attr(String::from("k"), String::from("v"));
    assert!(c.get_attr_mut("missing").is_none());
    assert_eq!(c.0.len(), 1);
    assert_eq!(c.get_attr("k").unwrap().value, "v");
}

#[test]
fn get_attr_mut_targets_first_match_among_duplicates() {
    let mut c = AttributeSet(vec![
        Attribute::new(String::from("k"), String::from("first")),
        Attribute::new(String::from("k"), String::from("second")),
    ]);
    let a = c.get_attr_mut("k").unwrap();
    a.value = String::from("edited");
    assert_eq!(c.0[0].value, "edited");
    assert_eq!(c.0[1].value, "second");
}

#[test]
fn attribute_new_sets_fields() {
    let a = Attribute::new(String::from("n"), String::from("v"));
    assert_eq!(a.name, "n");
    assert_eq!(a.value, "v");
}

#[test]
fn attribute_renders_with_escaped_value() {
    let a = Attribute::new(String::from("title"), String::from("say \"hi\" & go"));
    assert_eq!(a.to_html(), "title=\"say &quot;hi&quot; &amp; go\"");
}

#[test]
fn attribute_name_is_not_escaped() {
    let a = Attribute::new(String::from("a&b"), String::from("v"));
    assert_eq!(a.to_html(), "a&b=\"v\"");
}

#[test]
fn empty_attribute_set_renders_empty() {
    let c = Attribute::none();
    assert_eq!(c.to_html(), "");
}

#[test]
fn utf8_len_counts_bytes() {
    let a = Attribute::new(String::from("name"), String::from("value"));
    assert_eq!(a.utf8_len(), 4 + 5 + 3);
    let b = Attribute::new(String::from("\u{fc}"), String::from(""));
    // 'ü' takes two bytes in UTF-8
    assert_eq!(b.utf8_len(), 2 + 0 + 3);
}
