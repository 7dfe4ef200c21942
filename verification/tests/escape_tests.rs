use html_token::escape_str;

#[test]
fn plain_text_is_unchanged() {
    assert_eq!(escape_str("hello world 123"), "hello world 123");
    assert_eq!(escape_str(""), "");
    // non-ASCII text passes through untouched
    assert_eq!(escape_str("caf\u{e9} \u{4e2d}\u{6587}"), "caf\u{e9} \u{4e2d}\u{6587}");
}

#[test]
fn bomb_is_escaped() {
    assert_eq!(escape_str("<bomb>"), "&lt;bomb&gt;");
}

#[test]
fn all_five_special_characters_are_escaped() {
    assert_eq!(escape_str("&<>\"'"), "&amp;&lt;&gt;&quot;&#39;");
}

#[test]
fn ampersands_are_not_double_escaped_elsewhere() {
    assert_eq!(escape_str("a&lt;b"), "a&amp;lt;b");
}
