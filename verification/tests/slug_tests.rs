use helpdesk_core::slug::to_slug;

#[test]
fn slugs_match_the_slug_crate() {
    for title in [
        "My Test String!!!1!1",
        "test\nit   now!",
        "  --test_-_cool",
        "\u{c6}\u{fa}\u{171}--cool?",
        "You & Me",
        "user@example.com",
        "Getting Started",
        "",
        "----",
        "north \u{5317} star",
        "caf\u{e9} menu",
    ] {
        assert_eq!(to_slug(title), slug::slugify(title), "differs on: {:?}", title);
    }
}

#[test]
fn slugs_have_the_documented_shape() {
    assert_eq!(to_slug("My Test String!!!1!1"), "my-test-string-1-1");
    assert_eq!(to_slug("test\nit   now!"), "test-it-now");
    assert_eq!(to_slug("  --test_-_cool"), "test-cool");
    assert_eq!(to_slug("\u{c6}\u{fa}\u{171}--cool?"), "aeuu-cool");
    assert_eq!(to_slug("You & Me"), "you-me");
    assert_eq!(to_slug("user@example.com"), "user-example-com");
}
