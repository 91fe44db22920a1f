use pagina::highlight::{join_code_text, language_from_info, push_escaped_code};

#[test]
fn highlight_info_split_takes_comma_prefix() {
    assert_eq!(language_from_info("rust,ignore"), "rust");
    assert_eq!(language_from_info("rust,no_run foo"), "rust");
    assert_eq!(language_from_info("python"), "python");
    assert_eq!(language_from_info(""), "");
    // `;` does not split (spec `language-;` stays identical).
    assert_eq!(language_from_info(";"), ";");
}

#[test]
fn info_split_takes_comma_prefix() {
    assert_eq!(language_from_info("rust,ignore"), "rust");
    assert_eq!(language_from_info("rust,no_run extra"), "rust");
    assert_eq!(language_from_info("python"), "python");
    assert_eq!(language_from_info(""), "");
    assert_eq!(language_from_info(";"), ";");
}

#[test]
fn info_word_resolves_escapes_and_entities() {
    assert_eq!(language_from_info("  foo\\+bar baz"), "foo+bar");
    assert_eq!(language_from_info("a&amp;b"), "a&b");
}

#[test]
fn code_text_joins_with_trailing_newline() {
    assert_eq!(join_code_text(&[]), "");
    assert_eq!(join_code_text(&["a".to_string(), "b".to_string()]), "a\nb\n");
}

#[test]
fn escaped_code_fallback() {
    let mut out = String::from("<pre>");
    push_escaped_code(&["x < y".to_string(), "&".to_string()], &mut out);
    assert_eq!(out, "<pre>x &lt; y\n&amp;\n");
    let mut empty = String::new();
    push_escaped_code(&[], &mut empty);
    assert_eq!(empty, "");
}

struct Mock {
    seen: std::sync::Mutex<Vec<(String, String)>>,
}

impl Mock {
    fn new() -> Self {
        Mock {
            seen: std::sync::Mutex::new(Vec::new()),
        }
    }
}

impl pagina::highlight::SyntaxHighlighter for Mock {
    fn write_highlighted(&self, out: &mut String, lang: &str, code: &str) {
        self.seen
            .lock()
            .unwrap()
            .push((lang.to_string(), code.to_string()));
        out.push_str(&format!("<hl lang=\"{lang}\">{code}</hl>"));
    }
}

#[test]
fn mock_highlighter_ast_and_stream_paths() {
    let mock = Mock::new();
    let doc = pagina::ast::parse("```py\nx = 1\n```\n", pagina::Options::default());
    let html = pagina::ast::render_html_with_highlighter(&doc, Some(&mock));
    assert!(html.contains("class=\"language-py\""));
    assert!(html.contains("<hl lang=\"py\">"));

    let mock2 = Mock::new();
    let events = pagina::stream::collect_events("```py\nx = 1\n```\n", pagina::Options::default());
    let html2 = pagina::stream::render_events_to_html_with_highlighter(&events, Some(&mock2));
    assert!(html2.contains("class=\"language-py\""));
    assert!(html2.contains("<hl lang=\"py\">"));
}

#[test]
fn highlighter_sees_fence_language_and_joined_text_once() {
    let evs = pagina::stream::collect_events("```py\nx = 1\n```\n", pagina::Options::default());
    let h = Mock::new();
    let html = pagina::stream::render_events_to_html_with_highlighter(&evs, Some(&h));
    assert_eq!(
        html,
        "<pre><code class=\"language-py\"><hl lang=\"py\">x = 1\n</hl></code></pre>\n"
    );
    assert_eq!(*h.seen.lock().unwrap(), vec![("py".to_string(), "x = 1\n".to_string())]);
    let doc = pagina::ast::parse("    a & b\n", pagina::Options::default());
    let k = Mock::new();
    assert_eq!(
        pagina::ast::render_html_with_highlighter(&doc, Some(&k)),
        "<pre><code><hl lang=\"\">a & b\n</hl></code></pre>\n"
    );
    assert_eq!(
        pagina::ast::render_html_with_highlighter(&doc, None),
        pagina::ast::render_html(&doc)
    );
}

#[derive(Default)]
struct WalkLog {
    seen: Vec<String>,
}

impl pagina::visitor::Visitor for WalkLog {
    fn visit_block(&mut self, b: &pagina::ast::Block) {
        self.seen.push(match b {
            pagina::ast::Block::Paragraph(_) => "p".to_string(),
            pagina::ast::Block::BlockQuote(_) => "quote".to_string(),
            pagina::ast::Block::List(_) => "list".to_string(),
            pagina::ast::Block::Heading(_) => "h".to_string(),
            _ => "other".to_string(),
        });
    }
    fn visit_inline(&mut self, i: &pagina::ast::Inline) {
        self.seen.push(format!("{:?}", i));
    }
}

#[test]
fn walk_document_is_pre_order() {
    let doc = pagina::ast::parse("# T\n\n> a\n\n- b\n", pagina::Options::default());
    let mut v = WalkLog::default();
    pagina::visitor::walk_document(&doc, &mut v);
    assert_eq!(
        v.seen,
        vec![
            "h".to_string(),
            format!("{:?}", pagina::ast::Inline::Text("T".to_string())),
            "quote".to_string(),
            "p".to_string(),
            format!("{:?}", pagina::ast::Inline::Text("a".to_string())),
            "list".to_string(),
            "p".to_string(),
            format!("{:?}", pagina::ast::Inline::Text("b".to_string())),
        ]
    );
}

#[test]
fn default_off_is_byte_identical() {
    let inputs = [
        "```rust\nlet x = 1;\n```\n",
        "```rust,ignore\nlet x = 1;\n```\n",
        "```\nplain & <code>\n```\n",
        "    indented & <code>\n",
    ];
    for md in inputs {
        let a = pagina::markdown_to_html::convert_with(md, pagina::Options::default()).unwrap();
        let b = pagina::markdown_to_html::convert_with_highlighter(md, pagina::Options::default(), None)
            .unwrap();
        assert_eq!(a, b, "highlighter=None must match convert_with for {md:?}");

        let doc = pagina::ast::parse(md, pagina::Options::default());
        assert_eq!(
            pagina::ast::render_html(&doc),
            pagina::ast::render_html_with_highlighter(&doc, None),
            "AST None must match render_html for {md:?}"
        );

        let events = pagina::stream::collect_events(md, pagina::Options::default());
        assert_eq!(
            pagina::stream::render_events_to_html(&events),
            pagina::stream::render_events_to_html_with_highlighter(&events, None),
            "stream None must match for {md:?}"
        );
    }
}

#[test]
fn mock_highlighter_receives_split_lang_and_code() {
    let mock = Mock::new();
    let html = pagina::markdown_to_html::convert_with_highlighter(
        "```rust,ignore\nlet x = 1;\n```\n",
        pagina::Options::default(),
        Some(&mock),
    )
    .unwrap();
    // Wrapper unchanged, content from the hook.
    assert!(html.contains("<pre><code class=\"language-rust\">"));
    assert!(html.contains("<hl lang=\"rust\">"));
    assert!(!html.contains("rust,ignore"));
    let seen = mock.seen.lock().unwrap();
    assert_eq!(seen.len(), 1);
    assert_eq!(seen[0].0, "rust");
    assert_eq!(seen[0].1, "let x = 1;\n");
}

#[test]
fn syntect_adapter_class_spans_and_fallback() {
    let ss = syntect::parsing::SyntaxSet::load_defaults_newlines();
    let adapter = pagina::highlight::SyntectAdapter::new(&ss);
    // Known language: class-based spans.
    let html = pagina::markdown_to_html::convert_with_highlighter(
        "```rust\nfn main() {}\n```\n",
        pagina::Options::default(),
        Some(&adapter),
    )
    .unwrap();
    assert!(html.contains("class=\"language-rust\""));
    assert!(html.contains("<span class=\""));
    // Unknown language: escaped fallback, wrapper intact.
    let html = pagina::markdown_to_html::convert_with_highlighter(
        "```nosuchlang_xyz\n<a>&\n```\n",
        pagina::Options::default(),
        Some(&adapter),
    )
    .unwrap();
    assert!(html.contains("class=\"language-nosuchlang_xyz\""));
    assert!(html.contains("&lt;a&gt;&amp;"));
}

#[test]
fn syntect_output_from_outcomes() {
    let failed = vec!["<x>\n".to_string()];
    assert_eq!(pagina::highlight::syntect_output("", true, &failed, "y"), "");
    assert_eq!(pagina::highlight::syntect_output("a<b", false, &failed, "y"), "a&lt;b");
    assert_eq!(pagina::highlight::syntect_output("a", true, &failed, "<span>y</span>"), "&lt;x&gt;\n<span>y</span>\n");
    assert_eq!(pagina::highlight::syntect_output("a", true, &Vec::new(), "z\n"), "z\n");
    let lines: Vec<String> = pagina::highlight::lines_with_endings(&"a\nb\n\nc".chars().collect())
        .into_iter()
        .map(|l| l.into_iter().collect())
        .collect();
    assert_eq!(lines, vec!["a\n", "b\n", "\n", "c"]);
}

