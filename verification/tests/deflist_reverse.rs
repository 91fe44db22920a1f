use pagina::html_to_markdown;

fn rev_cm(input: &str) -> String {
    html_to_markdown::convert(input).expect("commonmark html->md failed")
}

#[test]
fn reverse_off_mode_has_no_definition_markers() {
    let md = rev_cm("<dl><dt>Term</dt><dd>Definition</dd></dl>");
    assert!(!md.contains("\n: "), "no markers:\n{}", md);
    assert!(!md.contains("<dl>"), "no tags:\n{}", md);
    assert!(md.contains("Term"), "term kept:\n{}", md);
    assert!(md.contains("Definition"), "desc kept:\n{}", md);
}
