use webhook_relay::text::{collapse_blank_lines, silent_embed_links};

#[test]
fn collapse_removes_blank_lines() {
    assert_eq!(collapse_blank_lines("a\n  \n\t\nb\n"), "a\nb\n");
}

#[test]
fn collapse_keeps_content_lines_whole() {
    assert_eq!(collapse_blank_lines("  indented\nplain\n"), "  indented\nplain\n");
}

#[test]
fn collapse_all_blank_yields_empty() {
    assert_eq!(collapse_blank_lines(" \n\t\n\n"), "");
}

#[test]
fn collapse_drops_unterminated_trailing_whitespace() {
    assert_eq!(collapse_blank_lines("x\n  "), "x\n");
    assert_eq!(collapse_blank_lines("  "), "");
}

#[test]
fn embed_wraps_a_link() {
    assert_eq!(
        silent_embed_links("[see](http://example.com/issue)"),
        "[see](<http://example.com/issue>)"
    );
}

#[test]
fn embed_wraps_every_link() {
    assert_eq!(
        silent_embed_links("a [x](https://a.io) b [y](http://b.io) c"),
        "a [x](<https://a.io>) b [y](<http://b.io>) c"
    );
}

#[test]
fn embed_requires_http_scheme() {
    assert_eq!(silent_embed_links("[x](ftp://a.io)"), "[x](ftp://a.io)");
}

#[test]
fn embed_matches_text_non_greedily() {
    // the text stops at the first closing bracket
    assert_eq!(
        silent_embed_links("[a][b](http://x)"),
        "[a][b](<http://x>)"
    );
}

#[test]
fn embed_is_idempotent_on_its_output() {
    let once = silent_embed_links("see [x](https://a.io) and [y](http://b.io)");
    let twice = silent_embed_links(&once);
    assert_eq!(twice, once);
}

#[test]
fn embed_can_rewrap_when_a_url_holds_a_bracket() {
    // Known, accepted limitation: the no-double-wrap guarantee holds for
    // URLs free of square brackets.  A bracket inside a URL can line up
    // with later text to form a fresh match on the second pass.
    let once = silent_embed_links("[a](http://x/[b)](http://evil)");
    assert_eq!(once, "[a](<http://x/[b>)](http://evil)");
    let twice = silent_embed_links(&once);
    assert_ne!(twice, once);
}

#[test]
fn embed_leaves_wrapped_links_alone() {
    assert_eq!(
        silent_embed_links("[x](<http://a.io>)"),
        "[x](<http://a.io>)"
    );
}
