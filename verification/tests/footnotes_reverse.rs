use pagina::html_to_markdown;

fn rev_gfm(input: &str) -> String {
    html_to_markdown::convert_gfm(input).expect("gfm html->md failed")
}

#[test]
fn reverse_github_style_footer() {
    // Tolerate the GitHub `<div>` + `<hr>` footer flavor.
    let html = "<p>Hi<sup id=\"fnref-a\"><a href=\"#fn-a\">1</a></sup></p>\
        <div class=\"footnotes\" data-footnotes><hr><ol>\
        <li id=\"fn-a\"><p>Alpha <a href=\"#fnref-a\" class=\"footnote-backref\">&#8617;</a></p></li>\
        </ol></div>";
    let md = rev_gfm(html);
    assert!(md.contains("[^a]"), "ref:\n{}", md);
    assert!(md.contains("[^a]: Alpha"), "def:\n{}", md);
}
