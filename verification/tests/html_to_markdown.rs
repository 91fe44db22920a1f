use pagina::html_to_markdown::convert;

#[test]
fn html_to_markdown_test_heading() {
    let md = convert("<h1>Heading</h1>").unwrap();
    assert_eq!(md, "# Heading\n");
}

#[test]
fn html_to_markdown_test_paragraph() {
    let md = convert("<p>Hello world</p>").unwrap();
    assert_eq!(md, "Hello world\n");
}

#[test]
fn html_to_markdown_test_bold_italic() {
    let md = convert("<p><strong>bold</strong> <em>italic</em></p>").unwrap();
    assert!(md.contains("**bold**"));
    assert!(md.contains("*italic*"));
}

#[test]
fn test_code() {
    let md = convert("<p><code>code</code></p>").unwrap();
    assert_eq!(md, "`code`\n");
}

#[test]
fn test_pre_code() {
    let md = convert("<pre><code>code block\nline 2</code></pre>").unwrap();
    assert!(md.contains("```"));
    assert!(md.contains("code block"));
}

#[test]
fn html_to_markdown_test_link() {
    let md = convert("<p><a href=\"url\">link</a></p>").unwrap();
    assert_eq!(md, "[link](url)\n");
}

#[test]
fn html_to_markdown_test_unordered_list() {
    let md = convert("<ul><li>item 1</li><li>item 2</li></ul>").unwrap();
    assert!(md.contains("- item 1"));
    assert!(md.contains("- item 2"));
}

#[test]
fn html_to_markdown_test_ordered_list() {
    let md = convert("<ol><li>item 1</li><li>item 2</li></ol>").unwrap();
    assert!(md.contains("1. item 1"));
    assert!(md.contains("2. item 2"));
}

#[test]
fn test_ordered_list_start() {
    let md = convert("<ol start=\"5\"><li>item 1</li><li>item 2</li></ol>").unwrap();
    assert!(md.contains("5. item 1"));
    assert!(md.contains("6. item 2"));
}

#[test]
fn html_to_markdown_test_blockquote() {
    let md = convert("<blockquote>quote line 1\nquote line 2</blockquote>").unwrap();
    // Newlines within a single text node are collapsed by whitespace normalization
    assert!(md.contains("> quote line 1 quote line 2"));
}

#[test]
fn test_html_entities() {
    let md = convert("<p>&lt;script&gt; &amp; &quot;test&quot;</p>").unwrap();
    // Entities are properly unescaped to their literal characters
    assert!(md.contains("<script>"));
    assert!(md.contains("&"));
    assert!(md.contains("\"test\""));
}

#[test]
fn test_self_closing() {
    let md = convert("<p>line 1<br/>line 2</p>").unwrap();
    assert!(md.contains("line 1"));
    assert!(md.contains("line 2"));
}

#[test]
fn test_nested_inline() {
    let md = convert("<p><strong>bold <em>italic</em> bold</strong></p>").unwrap();
    // Whitespace between inline elements is normalized by the tokenizer
    assert!(md.contains("**bold*italic*bold**"));
}
