use pagina::frontmatter::{
    markdown_to_html_with_frontmatter, parse_with_frontmatter, prepend_frontmatter,
    strip_frontmatter_body,
};
use pagina::{html_to_markdown, markdown_to_html};

fn convert(input: &str) -> String {
    markdown_to_html::convert(input).expect("md->html failed")
}

#[test]
fn dash_block_stripped_before_convert() {
    let fenced = "---\ntitle: Hello\n---\n# Hello\n";
    assert_eq!(convert(fenced), convert("# Hello\n"));
    assert_eq!(convert(fenced), "<h1>Hello</h1>\n");
}

#[test]
fn plus_block_stripped_before_convert() {
    let fenced = "+++\ntitle: Hello\n+++\n# Hello\n";
    assert_eq!(convert(fenced), "<h1>Hello</h1>\n");
}

#[test]
fn spec_setext_documents_are_never_frontmatter() {
    assert_eq!(
        convert("---\nFoo\n---\nBar\n---\nBaz"),
        "<hr />\n<h2>Foo</h2>\n<h2>Bar</h2>\n<p>Baz</p>\n"
    );
    assert_eq!(convert("---\n---"), "<hr />\n<hr />\n");
}

#[test]
fn lone_leading_dashes_stay_a_thematic_break() {
    assert_eq!(convert("---\n"), "<hr />\n");
    assert_eq!(convert("---\n\n# Hi\n"), "<hr />\n<h1>Hi</h1>\n");
}

#[test]
fn strip_keeps_body_after_closing_fence() {
    assert_eq!(strip_frontmatter_body("---\ntitle: x\n---\nbody\n"), "body\n");
    assert_eq!(strip_frontmatter_body("\u{FEFF}+++\na = 1\n+++  \r\nrest"), "rest");
    assert_eq!(strip_frontmatter_body("---\nno mapping\n---\nx"), "---\nno mapping\n---\nx");
    assert_eq!(strip_frontmatter_body("  ---\nk: v\n---\n"), "  ---\nk: v\n---\n");
    assert_eq!(strip_frontmatter_body("---\nk: v\n"), "---\nk: v\n");
}

#[test]
fn unclosed_block_is_not_frontmatter() {
    let input = "---\ntitle: x\n# Hi\n";
    let (fm, body) = parse_with_frontmatter(input);
    assert!(fm.is_none());
    assert_eq!(body, input);
}

#[test]
fn mismatched_closing_delimiter_is_not_frontmatter() {
    let input = "---\ntitle: x\n+++\n# Hi\n";
    let (fm, body) = parse_with_frontmatter(input);
    assert!(fm.is_none());
    assert_eq!(body, input);
}

#[test]
fn block_must_start_on_first_line() {
    let input = "\n---\ntitle: x\n---\n# Hi\n";
    let (fm, _) = parse_with_frontmatter(input);
    assert!(fm.is_none());
    // Not stripped: the `---` lines render as normal Markdown content.
    let html = convert(input);
    assert!(html.contains("<hr />"), "expected content rendering, got {html:?}");
    assert!(html.contains("<h1>Hi</h1>"));
}

#[test]
fn indented_opening_fence_is_content_not_metadata() {
    let input = "  ---\n  title: x\n  ---\n";
    let (fm, _) = parse_with_frontmatter(input);
    assert!(fm.is_none());
}

#[test]
fn empty_dash_block_is_content_not_metadata() {
    // `---\n---` is two CommonMark `<hr />`s (spec example 98): the mapping
    // guard keeps setext/hr documents untouched.
    let (fm, body) = parse_with_frontmatter("---\n---\n# Hi\n");
    assert!(fm.is_none());
    assert_eq!(body, "---\n---\n# Hi\n");
    assert_eq!(convert("---\n---"), "<hr />\n<hr />\n");
}

#[test]
fn empty_plus_block_is_still_frontmatter() {
    // `+++` has no CommonMark meaning, so no content guard applies.
    let (fm, body) = parse_with_frontmatter("+++\n+++\n# Hi\n");
    let fm = fm.expect("empty plus block is frontmatter");
    assert_eq!(fm.original, "+++\n+++");
    assert_eq!(body, "# Hi\n");
    assert_eq!(convert("+++\n+++\n# Hi\n"), "<h1>Hi</h1>\n");
}

#[test]
fn trailing_spaces_on_fences_tolerated() {
    let (fm, body) = parse_with_frontmatter("---  \ntitle: x\n---\t\n# Hi\n");
    let fm = fm.expect("fences with trailing blanks");
    assert_eq!(body, "# Hi\n");
    assert!(fm.original.starts_with("---"));
    assert!(fm.original.ends_with("---"));
}

#[test]
fn crlf_document_round_trips_verbatim() {
    let input = "---\r\ntitle: x\r\n---\r\n# Hi\r\n";
    let (fm, body) = parse_with_frontmatter(input);
    let fm = fm.expect("CRLF frontmatter");
    assert_eq!(body, "# Hi\r\n");
    assert_eq!(convert(input), "<h1>Hi</h1>\n");
    assert_eq!(prepend_frontmatter(&fm, &body), input);
}

#[test]
fn parse_preserves_original_verbatim() {
    let input = "---\ntitle: \"Hello: world\" # comment\ncount: 3\n---\n# Hello\n";
    let (fm, body) = parse_with_frontmatter(input);
    let fm = fm.expect("frontmatter present");
    assert_eq!(fm.original, "---\ntitle: \"Hello: world\" # comment\ncount: 3\n---");
    assert_eq!(body, "# Hello\n");
}

#[test]
fn parse_absent_returns_input_untouched() {
    let input = "# Just a heading\n";
    let (fm, body) = parse_with_frontmatter(input);
    assert!(fm.is_none());
    assert_eq!(body, input);
}

#[test]
fn with_frontmatter_returns_metadata_plus_body_html() {
    let (fm, html) =
        markdown_to_html_with_frontmatter("---\ntitle: Hi\n---\n# Hi\n").unwrap();
    let fm = fm.expect("metadata kept aside");
    assert_eq!(fm.original, "---\ntitle: Hi\n---");
    assert_eq!(html, "<h1>Hi</h1>\n");
}

#[test]
fn with_frontmatter_absent_returns_none_and_full_html() {
    let (fm, html) = markdown_to_html_with_frontmatter("# Hi\n").unwrap();
    assert!(fm.is_none());
    assert_eq!(html, "<h1>Hi</h1>\n");
}

#[test]
fn html_round_trip_needs_prepend() {
    let md = "---\ntitle: Hi\n---\n# Hi\n";
    let (fm, body) = parse_with_frontmatter(md);
    let fm = fm.expect("frontmatter present");
    let html = convert(&body);
    let back = html_to_markdown::convert(&html).expect("html->md failed");
    // HTML carries no frontmatter: the body-only round-trip loses it …
    assert!(!back.starts_with("---\n"));
    // … until re-attached verbatim.
    assert_eq!(prepend_frontmatter(&fm, &back), md);
}

#[test]
fn prepend_is_byte_for_byte_identity() {
    for md in [
        "---\ntitle: Hi\n---\n# Hi\n",
        "+++\ntitle: Hi\n+++\n",
        "+++\n+++\n",
        "---\ntitle: Hi\n---\n",
    ] {
        let (fm, body) = parse_with_frontmatter(md);
        let rebuilt = prepend_frontmatter(&fm.expect("frontmatter present"), &body);
        assert_eq!(rebuilt, md, "round-trip failed for {md:?}");
    }
}

#[test]
fn subset_data_without_feature() {
    let (fm, _) = parse_with_frontmatter(
        "---\ntitle: Hello\ndraft: true\n# a comment\n  nested: skipped\n---\n# H\n",
    );
    let data = fm.expect("frontmatter present");
    assert_eq!(data.get("title"), Some("Hello".to_string()));
    assert_eq!(data.get("draft"), Some("true".to_string()));
    assert!(data.get("nested").is_none());
}

#[test]
fn subset_strips_surrounding_quotes() {
    let (fm, _) =
        parse_with_frontmatter("---\na: \"quoted\"\nb: 'single'\n---\n# H\n");
    let data = fm.expect("frontmatter present");
    assert_eq!(data.get("a"), Some("quoted".to_string()));
    assert_eq!(data.get("b"), Some("single".to_string()));
}


#[test]
fn plus_block_data_is_a_toml_subset() {
    let (fm, body) =
        parse_with_frontmatter("+++\ntitle = \"Hello\"\ndraft = true\n# note\n+++\n# H\n");
    let data = fm.expect("frontmatter present");
    assert_eq!(data.get("title"), Some("Hello".to_string()));
    assert_eq!(data.get("draft"), Some("true".to_string()));
    assert!(data.get("# note").is_none());
    assert_eq!(body, "# H\n");
}

#[test]
fn plus_block_ignores_colon_lines_in_data() {
    let (fm, _) = parse_with_frontmatter("+++\ntitle: Hello\n+++\n# H\n");
    let data = fm.expect("frontmatter present");
    assert!(data.get("title").is_none());
}

fn yaml_of(input: &str) -> Vec<(pagina::frontmatter::YamlValue, pagina::frontmatter::YamlValue)> {
    match pagina::frontmatter::frontmatter_yaml(input).expect("frontmatter present") {
        pagina::frontmatter::YamlValue::Pairs(ps) => ps,
        other => panic!("not a mapping: {other:?}"),
    }
}

fn yaml_key(
    ps: &[(pagina::frontmatter::YamlValue, pagina::frontmatter::YamlValue)],
    k: &str,
) -> Option<pagina::frontmatter::YamlValue> {
    for (key, v) in ps {
        if *key == pagina::frontmatter::YamlValue::Str(k.to_string()) {
            return Some(match v {
                pagina::frontmatter::YamlValue::Str(s) => pagina::frontmatter::YamlValue::Str(s.clone()),
                pagina::frontmatter::YamlValue::Bool(b) => pagina::frontmatter::YamlValue::Bool(*b),
                pagina::frontmatter::YamlValue::Int(i) => pagina::frontmatter::YamlValue::Int(*i),
                pagina::frontmatter::YamlValue::List(l) => pagina::frontmatter::YamlValue::List(
                    l.iter()
                        .map(|x| match x {
                            pagina::frontmatter::YamlValue::Str(s) => pagina::frontmatter::YamlValue::Str(s.clone()),
                            _ => pagina::frontmatter::YamlValue::Bad,
                        })
                        .collect(),
                ),
                _ => pagina::frontmatter::YamlValue::Bad,
            });
        }
    }
    None
}

#[test]
fn yaml_data_parsed_with_feature() {
    let data = yaml_of("---\ntitle: Hello\ndraft: true\ncount: 3\n---\n# H\n");
    assert_eq!(yaml_key(&data, "title"), Some(pagina::frontmatter::YamlValue::Str("Hello".to_string())));
    assert_eq!(yaml_key(&data, "draft"), Some(pagina::frontmatter::YamlValue::Bool(true)));
    assert_eq!(yaml_key(&data, "count"), Some(pagina::frontmatter::YamlValue::Int(3)));
}

#[test]
fn yaml_lists_parse_with_feature() {
    let data = yaml_of("---\ntags: [rust, docs]\n---\n# H\n");
    let tags = match yaml_key(&data, "tags").expect("sequence") {
        pagina::frontmatter::YamlValue::List(l) => l,
        other => panic!("not a sequence: {other:?}"),
    };
    assert_eq!(tags.len(), 2);
    assert_eq!(tags[0], pagina::frontmatter::YamlValue::Str("rust".to_string()));
}

#[test]
fn invalid_yaml_still_detects_with_bad_value() {
    let input = "---\ntitle: [unclosed flow\n---\n# H\n";
    let (fm, body) = parse_with_frontmatter(input);
    let fm = fm.expect("detection never depends on parsing");
    assert_eq!(body, "# H\n");
    assert!(fm.original.starts_with("---\n"));
    assert_eq!(pagina::frontmatter::frontmatter_yaml(input), Some(pagina::frontmatter::YamlValue::Bad));
    // Conversion still strips the block and renders the body.
    assert_eq!(convert(input), "<h1>H</h1>\n");
}

#[test]
fn plus_blocks_carry_no_yaml() {
    assert_eq!(pagina::frontmatter::frontmatter_yaml("+++\ntitle = 'x'\n+++\n"), None);
    assert_eq!(pagina::frontmatter::frontmatter_yaml("# no block\n"), None);
    assert_eq!(pagina::frontmatter::frontmatter_yaml("---\n---\n"), None);
}
