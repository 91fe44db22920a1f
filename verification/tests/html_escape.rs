use pagina::html_escape::{escape_html, unescape_html};

#[test]
fn test_escape_html() {
    assert_eq!(escape_html("<script>"), "&lt;script&gt;");
    assert_eq!(escape_html("a & b"), "a &amp; b");
    assert_eq!(escape_html("\"quoted\""), "&quot;quoted&quot;");
    // Single quotes pass through (CommonMark reference behavior).
    assert_eq!(escape_html("'single'"), "'single'");
    assert_eq!(escape_html("normal"), "normal");
}

#[test]
fn test_unescape_html() {
    assert_eq!(unescape_html("&lt;script&gt;"), "<script>");
    assert_eq!(unescape_html("a &amp; b"), "a & b");
    assert_eq!(unescape_html("&quot;quoted&quot;"), "\"quoted\"");
    assert_eq!(unescape_html("&#39;single&#39;"), "'single'");
    assert_eq!(unescape_html("&apos;apos'"), "'apos'");
    assert_eq!(unescape_html("&#65;"), "A");
    assert_eq!(unescape_html("&#x41;"), "A");
    assert_eq!(unescape_html("normal"), "normal");
}

#[test]
fn test_full_entity_table() {
    assert_eq!(unescape_html("&nbsp;"), "\u{a0}");
    assert_eq!(unescape_html("&copy;"), "©");
    assert_eq!(unescape_html("&AElig;"), "Æ");
    assert_eq!(unescape_html("&Dcaron;"), "Ď");
    assert_eq!(unescape_html("&frac34;"), "¾");
    assert_eq!(unescape_html("&HilbertSpace;"), "ℋ");
    assert_eq!(unescape_html("&DifferentialD;"), "ⅆ");
    assert_eq!(unescape_html("&ClockwiseContourIntegral;"), "∲");
    assert_eq!(unescape_html("&MadeUpEntity;"), "&MadeUpEntity;");
    assert_eq!(unescape_html("&oelig;"), "œ");
    assert_eq!(unescape_html("&euro;&trade;"), "€™");
}

#[test]
fn test_roundtrip() {
    let original = "<hello> & 'world' \"test\"";
    let escaped = escape_html(original);
    let unescaped = unescape_html(&escaped);
    assert_eq!(original, unescaped);
}

#[test]
fn clean_url_twice_is_once_and_printable() {
    for u in ["https://ex.com/a b?q=ü&x=%20", "<>\"\\ \t\n", "日本/語", ""] {
        let once = pagina::html_escape::clean_url(u);
        assert_eq!(pagina::html_escape::clean_url(&once), once);
        assert!(once.bytes().all(|b| b.is_ascii_graphic()), "{once}");
    }
    assert_eq!(pagina::html_escape::clean_url("a b"), "a%20b");
}
