use pagina::html_to_markdown;

fn rev(gfm: bool, input: &str) -> String {
    if gfm {
        html_to_markdown::convert_gfm(input).expect("gfm html->md failed")
    } else {
        html_to_markdown::convert(input).expect("commonmark html->md failed")
    }
}

#[test]
fn gfm_checkbox_to_bracket_prefix() {
    let md = rev(
        true,
        "<ul><li><input type=\"checkbox\" checked=\"\" disabled=\"\" /> done</li>\
         <li><input type=\"checkbox\" disabled=\"\" /> todo</li>\
         <li>plain</li></ul>",
    );
    assert!(md.contains("- [x] done"));
    assert!(md.contains("- [ ] todo"));
    assert!(md.contains("- plain"));
}
#[test]
fn commonmark_checkbox_input_vanishes() {
    let md = rev(
        false,
        "<ul><li><input type=\"checkbox\" checked=\"\" /> done</li></ul>",
    );
    assert!(!md.contains("[x]"));
    assert!(md.contains("- done"));
}
#[test]
fn gfm_del_s_strike_to_double_tilde() {
    assert_eq!(rev(true, "<p><del>hi</del></p>"), "~~hi~~\n");
    assert_eq!(rev(true, "<p><s>hi</s></p>"), "~~hi~~\n");
    assert_eq!(rev(true, "<p><strike>hi</strike></p>"), "~~hi~~\n");
}
#[test]
fn commonmark_del_unwraps_to_plain() {
    assert_eq!(rev(false, "<p><del>hi</del></p>"), "hi\n");
}
#[test]
fn gfm_bare_anchors_collapse_to_text() {
    assert_eq!(
        rev(
            true,
            "<p><a href=\"http://example.com\">http://example.com</a></p>"
        ),
        "http://example.com\n"
    );
    assert_eq!(
        rev(true, "<p><a href=\"mailto:a@b.com\">a@b.com</a></p>"),
        "a@b.com\n"
    );
    assert_eq!(
        rev(
            true,
            "<p><a href=\"http://www.example.com\">www.example.com</a></p>"
        ),
        "www.example.com\n"
    );
}
#[test]
fn gfm_non_bare_anchor_keeps_link_form() {
    assert_eq!(
        rev(true, "<p><a href=\"http://example.com\">click</a></p>"),
        "[click](http://example.com)\n"
    );
}
#[test]
fn commonmark_anchors_always_keep_link_form() {
    assert_eq!(
        rev(
            false,
            "<p><a href=\"http://example.com\">http://example.com</a></p>"
        ),
        "[http://example.com](http://example.com)\n"
    );
}
