use pagina::markdown_to_html::convert;

#[test]
fn markdown_to_html_test_heading() {
    let html = convert("# Heading 1").unwrap();
    assert_eq!(html, "<h1>Heading 1</h1>\n");

    let html = convert("## Heading 2").unwrap();
    assert_eq!(html, "<h2>Heading 2</h2>\n");
}

#[test]
fn markdown_to_html_test_paragraph() {
    let html = convert("Hello world").unwrap();
    assert_eq!(html, "<p>Hello world</p>\n");
}

#[test]
fn markdown_to_html_test_bold_italic() {
    let html = convert("**bold** *italic*").unwrap();
    assert!(html.contains("<strong>bold</strong>"));
    assert!(html.contains("<em>italic</em>"));
}

#[test]
fn test_code_span() {
    let html = convert("`code`").unwrap();
    assert_eq!(html, "<p><code>code</code></p>\n");
}

#[test]
fn markdown_to_html_test_link() {
    let html = convert("[link](url)").unwrap();
    assert!(html.contains("<a href=\"url\">link</a>"));
}

#[test]
fn markdown_to_html_test_unordered_list() {
    let html = convert("- item 1\n- item 2").unwrap();
    assert_eq!(html, "<ul>\n<li>item 1</li>\n<li>item 2</li>\n</ul>\n");
}

#[test]
fn markdown_to_html_test_ordered_list() {
    let html = convert("1. item 1\n2. item 2").unwrap();
    assert_eq!(html, "<ol>\n<li>item 1</li>\n<li>item 2</li>\n</ol>\n");
}

#[test]
fn markdown_to_html_test_blockquote() {
    let html = convert("> quote").unwrap();
    assert_eq!(html, "<blockquote>\n<p>quote</p>\n</blockquote>\n");
}

#[test]
fn test_code_fence() {
    let html = convert("```\ncode\n```").unwrap();
    assert_eq!(html, "<pre><code>code\n</code></pre>\n");
}

#[test]
fn test_html_passthrough() {
    // Per CommonMark, raw HTML blocks pass through verbatim (not escaped).
    // Escaping still applies to normal text. XSS filtering is the
    // consumer's responsibility.
    let html = convert("<div>\nfoo\n</div>").unwrap();
    assert!(html.contains("<div>"));
    let html = convert("a <b>bold</b> c").unwrap();
    assert!(html.contains("<b>bold</b>"));
    // Normal text is still escaped.
    let html = convert("a < b").unwrap();
    assert!(html.contains("&lt;"));
}

#[test]
fn test_multiple_paragraphs() {
    let html = convert("para 1\n\npara 2").unwrap();
    assert_eq!(html, "<p>para 1</p>\n<p>para 2</p>\n");
}

#[test]
fn test_setext() {
    assert_eq!(convert("Foo\n===").unwrap(), "<h1>Foo</h1>\n");
    assert_eq!(convert("Foo\n---").unwrap(), "<h2>Foo</h2>\n");
}

#[test]
fn test_refdef() {
    let html = convert("[foo]: /url \"title\"\n\n[foo]").unwrap();
    assert!(html.contains("<a href=\"/url\" title=\"title\">foo</a>"));
}

#[test]
fn fence_class_uses_language_before_comma() {
    let html = convert("```rust,ignore\nlet x = 1;\n```\n").unwrap();
    assert_eq!(html, "<pre><code class=\"language-rust\">let x = 1;\n</code></pre>\n");
    let html = convert("```;\nx\n```\n").unwrap();
    assert_eq!(html, "<pre><code class=\"language-;\">x\n</code></pre>\n");
}

#[test]
fn line_endings_do_not_change_the_html() {
    let lf = "# A\n\n- b\n- c\n\n> q\nlazy\n";
    let want = convert(lf).unwrap();
    assert_eq!(convert(&lf.replace('\n', "\r\n")).unwrap(), want);
    assert_eq!(convert(&lf.replace('\n', "\r")).unwrap(), want);
}

#[test]
fn final_line_feed_does_not_change_the_html() {
    for s in ["# A", "- a\n- b", "> q\nlazy", "", "para\n\n    code"] {
        assert_eq!(convert(&format!("{}\n", s)).unwrap(), convert(s).unwrap(), "{s:?}");
    }
}

#[test]
fn line_endings_and_final_feed_with_metadata() {
    let s = "---\ntitle: x\n---\n# H\n\n- a";
    let want = convert(s).unwrap();
    assert_eq!(want, "<h1>H</h1>\n<ul>\n<li>a</li>\n</ul>\n");
    assert_eq!(convert(&s.replace('\n', "\r\n")).unwrap(), want);
    assert_eq!(convert(&format!("{}\n", s)).unwrap(), want);
    let t = "---\ntitle: x\n---";
    assert_eq!(convert(&format!("{}\n", t)).unwrap(), convert(t).unwrap());
    assert_eq!(convert(&t.replace('\n', "\r\n")).unwrap(), convert(t).unwrap());
}
