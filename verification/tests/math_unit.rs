use pagina::math::{split_math_text, MathSegment};

#[test]
fn currency_stays_literal() {
    assert_eq!(
        split_math_text("$5"),
        vec![MathSegment::Text("$5".to_string())]
    );
    assert_eq!(
        split_math_text("$5 and $10"),
        vec![MathSegment::Text("$5 and $10".to_string())]
    );
}

#[test]
fn inline_parses_with_heuristics() {
    assert_eq!(
        split_math_text("$a$"),
        vec![MathSegment::Inline("a".to_string())]
    );
    // Space after opener / before closer stays literal.
    assert!(split_math_text("$ a$")
        .iter()
        .all(|s| matches!(s, MathSegment::Text(_))));
    assert!(split_math_text("$a $")
        .iter()
        .all(|s| matches!(s, MathSegment::Text(_))));
    // Digit after closer stays literal.
    assert!(split_math_text("$a$5")
        .iter()
        .all(|s| matches!(s, MathSegment::Text(_))));
}

#[test]
fn display_block_form_allows_newlines() {
    assert_eq!(
        split_math_text("$$x^2$$"),
        vec![MathSegment::Display("x^2".to_string())]
    );
    assert_eq!(
        split_math_text("$$\nx^2\n$$"),
        vec![MathSegment::Display("\nx^2\n".to_string())]
    );
}

#[test]
fn mixed_inline_and_display_segments() {
    assert_eq!(
        split_math_text("$a$ and $$b$$"),
        vec![
            MathSegment::Inline("a".to_string()),
            MathSegment::Text(" and ".to_string()),
            MathSegment::Display("b".to_string()),
        ]
    );
    assert_eq!(split_math_text("$$$"), vec![MathSegment::Text("$$$".to_string())]);
    assert_eq!(split_math_text("$a$$"), vec![MathSegment::Text("$a$$".to_string())]);
}

#[test]
fn off_mode_stays_literal() {
    // Pure CommonMark: dollars never parse without GFM.
    let html = pagina::markdown_to_html::convert("$E=mc^2$ and $$x^2$$\n").unwrap();
    assert!(!html.contains("math-inline") && !html.contains("math-display"));
    assert!(html.contains("$E=mc^2$"));
}
