use pagina::inline_parser::{parse_inline, render_inline_html, render_inline_md, InlineElement};

#[test]
fn test_parse_bold() {
    let result = parse_inline("**bold**");
    assert_eq!(result.len(), 1);
    assert!(matches!(result[0], InlineElement::Bold(_)));
}

#[test]
fn test_parse_italic() {
    let result = parse_inline("*italic*");
    assert_eq!(result.len(), 1);
    assert!(matches!(result[0], InlineElement::Italic(_)));
}

#[test]
fn test_parse_code() {
    let result = parse_inline("`code`");
    assert_eq!(result.len(), 1);
    assert!(matches!(result[0], InlineElement::Code(_)));
}

#[test]
fn test_parse_link() {
    let result = parse_inline("[link](url)");
    assert_eq!(result.len(), 1);
    assert!(matches!(result[0], InlineElement::Link { .. }));
}

#[test]
fn test_nested() {
    let result = parse_inline("**bold *italic* bold**");
    assert_eq!(result.len(), 1);
    if let InlineElement::Bold(children) = &result[0] {
        assert_eq!(children.len(), 3);
        assert!(matches!(children[0], InlineElement::Text(_)));
        assert!(matches!(children[1], InlineElement::Italic(_)));
        assert!(matches!(children[2], InlineElement::Text(_)));
    }
}

#[test]
fn test_render_html() {
    let elements = parse_inline("**bold** and *italic*");
    let html = render_inline_html(&elements);
    assert!(html.contains("<strong>bold</strong>"));
    assert!(html.contains("<em>italic</em>"));
}

#[test]
fn test_render_md() {
    let elements = parse_inline("**bold** and *italic*");
    let md = render_inline_md(&elements);
    assert_eq!(md, "**bold** and *italic*");
}

#[test]
fn test_link_roundtrip() {
    let original = "[link](https://example.com)";
    let parsed = parse_inline(original);
    let rendered = render_inline_md(&parsed);
    assert_eq!(original, rendered);
}

#[test]
fn test_intraword_underscore() {
    // Intraword _ must not emphasize.
    let html = render_inline_html(&parse_inline("foo_bar_baz"));
    assert_eq!(html, "foo_bar_baz");
}

#[test]
fn test_rule_of_three() {
    let html = render_inline_html(&parse_inline("***foo**"));
    assert!(html.contains("<strong>foo</strong>"));
}

#[test]
fn test_autolink() {
    let html = render_inline_html(&parse_inline("<http://example.com>"));
    assert!(html.contains("<a href=\"http://example.com\">"));
}

#[test]
fn test_hard_break() {
    let html = render_inline_html(&parse_inline("foo  \nbar"));
    assert!(html.contains("<br />"));
}

#[test]
fn tag_extent_ignores_what_follows() {
    for s in ["<a href=\"x\">", "</em >", "<br/>", "<img src='y' alt=z>"] {
        let n = pagina::inline_parser::tag_end_len(s).unwrap();
        assert_eq!(n, s.len());
        for t in ["", "tail", ">>", " x=\"1\">"] {
            assert_eq!(pagina::inline_parser::tag_end_len(&format!("{}{}", s, t)), Some(n));
        }
    }
}

#[test]
fn collapse_label_ws_joins_words_with_single_spaces() {
    let v: Vec<char> = "  a \n\t b  \u{DF}x ".chars().collect();
    let r: String = pagina::inline_parser::collapse_label_ws(&v).into_iter().collect();
    assert_eq!(r, "a b ssx");
    assert_eq!(pagina::inline_parser::normalize_label("  FOO\n Bar "), "foo bar");
}

#[test]
fn plain_text_round_trips_as_one_text_element() {
    let f = "hello world, 42 times! (ok)";
    let els = parse_inline(f);
    assert_eq!(els, vec![InlineElement::Text(f.to_string())]);
    assert_eq!(render_inline_md(&els), f);
}

#[test]
fn canonical_fragments_round_trip() {
    for f in [
        "**bold** and *italic*",
        "[link](https://example.com)",
        "use `code` here",
        "**a *b* c**",
    ] {
        assert_eq!(render_inline_md(&parse_inline(f)), f, "{f:?}");
    }
}
