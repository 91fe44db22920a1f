
#[test]
fn reverse_off_mode_unwraps() {
    let md =
        pagina::html_to_markdown::convert("<p><span class=\"math-inline\">x</span></p>").unwrap();
    assert!(!md.contains('$'), "got {md:?}");
    assert!(md.contains('x'));
}

#[test]
fn reverse_spans_back_to_dollars() {
    let md =
        pagina::html_to_markdown::convert_gfm("<p>A <span class=\"math-inline\">x</span>.</p>")
            .unwrap();
    assert!(md.contains("$x$"), "got {md:?}");

    let md =
        pagina::html_to_markdown::convert_gfm("<div class=\"math-display\">x^2</div>").unwrap();
    assert!(md.contains("$$x^2$$"), "got {md:?}");
}
