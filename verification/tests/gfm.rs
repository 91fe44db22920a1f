//! GFM entry points: task lists, pipe tables in both modes, and CommonMark
//! literals that stay literal without GFM.

use pagina::html_to_markdown;
use pagina::markdown_to_html;

fn md(html_mode: bool, input: &str) -> String {
    if html_mode {
        markdown_to_html::convert_gfm(input).expect("gfm md->html failed")
    } else {
        markdown_to_html::convert(input).expect("commonmark md->html failed")
    }
}

fn rev(gfm: bool, input: &str) -> String {
    if gfm {
        html_to_markdown::convert_gfm(input).expect("gfm html->md failed")
    } else {
        html_to_markdown::convert(input).expect("commonmark html->md failed")
    }
}

// ---------------------------------------------------------------------------
// Task lists: Markdown -> HTML
// ---------------------------------------------------------------------------

#[test]
fn gfm_task_list_unchecked_and_checked() {
    let html = md(true, "- [ ] todo\n- [x] done\n- [X] upper\n- plain\n");
    assert!(html.contains("<li><input type=\"checkbox\" disabled=\"\" /> todo</li>"));
    assert!(html.contains("<li><input type=\"checkbox\" checked=\"\" disabled=\"\" /> done</li>"));
    assert!(html.contains("<li><input type=\"checkbox\" checked=\"\" disabled=\"\" /> upper</li>"));
    assert!(html.contains("<li>plain</li>"));
}

#[test]
fn commonmark_task_brackets_stay_literal() {
    let html = md(false, "- [ ] todo\n- [x] done\n");
    assert!(html.contains("<li>[ ] todo</li>"));
    assert!(html.contains("<li>[x] done</li>"));
    assert!(!html.contains("checkbox"));
}

#[test]
fn gfm_task_requires_space_after_bracket() {
    // No whitespace after `]` (or a non-space marker) is not a task.
    let html = md(true, "- [ ]todo\n- [y] x\n");
    assert!(html.contains("<li>[ ]todo</li>"));
    assert!(html.contains("<li>[y] x</li>"));
    assert!(!html.contains("checkbox"));
}

#[test]
fn gfm_task_loose_list_checkbox_inside_paragraph() {
    let html = md(true, "- [ ] a\n\n- [x] b\n");
    assert!(html.contains("<p><input type=\"checkbox\" disabled=\"\" /> a</p>"));
    assert!(html.contains("<p><input type=\"checkbox\" checked=\"\" disabled=\"\" /> b</p>"));
}

// ---------------------------------------------------------------------------
// Strikethrough: Markdown -> HTML
// ---------------------------------------------------------------------------


#[test]
fn commonmark_double_tilde_stays_literal() {
    let html = md(false, "~~strike~~");
    assert_eq!(html, "<p>~~strike~~</p>\n");
}

#[test]
fn gfm_single_tilde_stays_literal() {
    let html = md(true, "~x~ and a ~ b");
    assert!(html.contains("~x~"), "lone tildes must not form <del>");
    assert!(!html.contains("<del>"));
}


// ---------------------------------------------------------------------------
// Bare autolinks: Markdown -> HTML
// ---------------------------------------------------------------------------




#[test]
fn commonmark_bare_url_and_email_stay_plain() {
    // Spec example 612 boundary: without GFM a bare email is plain text.
    let html = md(false, "Visit http://example.com and a@b.com");
    assert!(
        !html.contains("<a href"),
        "CommonMark mode must not linkify"
    );
    assert!(html.contains("http://example.com"));
    assert!(html.contains("a@b.com"));
}

#[test]
fn gfm_no_link_inside_code_or_explicit_links() {
    let html = md(true, "`http://example.com` and [t](http://example.com)");
    assert!(html.contains("<code>http://example.com</code>"));
    assert_eq!(html.matches("<a href=\"http://example.com\">").count(), 1);
}

// ---------------------------------------------------------------------------
// HTML -> Markdown (GFM reverse)
// ---------------------------------------------------------------------------








// ---------------------------------------------------------------------------
// Options / entry-point shape + tables exception
// ---------------------------------------------------------------------------

#[test]
fn options_entry_points_agree() {
    let via_opts =
        markdown_to_html::convert_with("~~x~~", markdown_to_html::Options::gfm()).unwrap();
    assert_eq!(via_opts, md(true, "~~x~~"));
    let via_opts =
        html_to_markdown::convert_with("<del>x</del>", html_to_markdown::Options::gfm()).unwrap();
    assert_eq!(via_opts, rev(true, "<del>x</del>"));
    assert_eq!(markdown_to_html::Options::default().gfm, false);
    assert_eq!(html_to_markdown::Options::default().gfm, false);
}

#[test]
fn tables_render_with_and_without_gfm() {
    // Documented always-on exception: tables are spec-neutral GFM that
    // render even in pure-CommonMark mode.
    let table = "| a |\n| - |\n| b |\n";
    assert!(md(false, table).contains("<table>"));
    assert!(md(true, table).contains("<table>"));
}

fn html_cm(input: &str) -> String {
    markdown_to_html::convert(input).expect("commonmark md->html failed")
}

#[test]
fn commonmark_deflist_markers_stay_literal() {
    let html = html_cm("Term\n: Definition\n");
    assert!(!html.contains("<dl>"), "no list:\n{}", html);
    assert!(html.contains(": Definition"), "literal:\n{}", html);
}

#[test]
fn commonmark_markers_stay_literal() {
    // No definition around: the marker is plain text.
    let html = html_cm("See[^a] here.\n");
    assert!(html.contains("[^a]"), "ref literal:\n{}", html);
    assert!(!html.contains("footnote"), "no footnote markup:\n{}", html);
    // Historical CommonMark nuance (unchanged): `[^a]: /url` still parses
    // as a link reference definition with label `^a`, so `[^a]` resolves
    // as a shortcut link — never as a footnote.
    let html = html_cm("See[^a] here.\n\n[^a]: /url\n");
    assert!(
        html.contains("<a href=\"/url\">^a</a>"),
        "shortcut link, not footnote:\n{}",
        html
    );
    assert!(!html.contains("footnote-ref"), "no footnote:\n{}", html);
    assert!(!html.contains("data-footnotes"), "no footer:\n{}", html);
}
