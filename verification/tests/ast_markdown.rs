//! Markdown rendering of the AST: exact output for each construct.

use pagina::ast::{
    self, Alignment, Block, CodeBlock, CodeBlockKind, Document, Heading, HeadingKind, Inline,
    Link, LinkStyle, List, ListItem, Table, TableCell, ThematicBreak,
};
use pagina::frontmatter::Frontmatter;
use pagina::inline_parser::{RefDef, RefDefs};
use pagina::Options;

fn text(s: &str) -> Inline {
    Inline::Text(s.to_string())
}

fn para(s: &str) -> Block {
    Block::Paragraph(vec![text(s)])
}

fn chars(s: &str) -> Vec<char> {
    s.chars().collect()
}

fn body(blocks: Vec<Block>) -> Document {
    Document { blocks, references: RefDefs { defs: Vec::new() }, frontmatter: None }
}

fn md(input: &str) -> String {
    ast::render_markdown(&ast::parse(input, Options::default()))
}

#[test]
fn empty_document_renders_empty() {
    assert_eq!(ast::render_markdown(&body(Vec::new())), "");
}

#[test]
fn headings_render_in_atx_form() {
    assert_eq!(md("Title\n===\n"), "# Title\n");
    assert_eq!(md("## Closed ##\n"), "## Closed\n");
    let d = body(vec![Block::Heading(Heading {
        level: 3,
        content: vec![text("x")],
        kind: HeadingKind::Atx { closing: false },
    })]);
    assert_eq!(ast::render_markdown(&d), "### x\n");
}

#[test]
fn blocks_are_separated_by_blank_lines() {
    let d = body(vec![
        para("a"),
        Block::ThematicBreak(ThematicBreak { marker: '_' }),
        para("b"),
    ]);
    assert_eq!(ast::render_markdown(&d), "a\n\n___\n\nb\n");
}

#[test]
fn inline_forms_render() {
    let d = body(vec![Block::Paragraph(vec![
        Inline::Emphasis { delimiter: '_', content: vec![text("e")] },
        text(" "),
        Inline::Strong { delimiter: '*', content: vec![text("s")] },
        text(" "),
        Inline::Strikethrough(vec![text("k")]),
        Inline::HardBreak,
        Inline::Code("a`b".to_string()),
        Inline::SoftBreak,
        Inline::Code("`x".to_string()),
        text(" "),
        Inline::Link(Box::new(Link {
            text: vec![text("t")],
            url: "/u".to_string(),
            title: Some("ti".to_string()),
            style: LinkStyle::Inline,
        })),
        Inline::Link(Box::new(Link {
            text: vec![text("r")],
            url: "/u".to_string(),
            title: None,
            style: LinkStyle::Reference("lab".to_string()),
        })),
    ])]);
    assert_eq!(
        ast::render_markdown(&d),
        "_e_ **s** ~~k~~  \n``a`b``\n`` `x `` [t](/u \"ti\")[r][lab]\n"
    );
}

#[test]
fn fenced_code_widens_past_backtick_runs() {
    let d = body(vec![Block::CodeBlock(CodeBlock {
        kind: CodeBlockKind::Fenced { fence_char: '`', fence_len: 3 },
        info: "rust".to_string(),
        lines: vec!["a ````".to_string(), "b".to_string()],
    })]);
    assert_eq!(ast::render_markdown(&d), "`````rust\na ````\nb\n`````\n");
    let t = body(vec![Block::CodeBlock(CodeBlock {
        kind: CodeBlockKind::Fenced { fence_char: '~', fence_len: 2 },
        info: String::new(),
        lines: vec!["````".to_string()],
    })]);
    assert_eq!(ast::render_markdown(&t), "~~~\n````\n~~~\n");
}

#[test]
fn indented_code_blanks_whitespace_lines() {
    let d = body(vec![Block::CodeBlock(CodeBlock {
        kind: CodeBlockKind::Indented,
        info: String::new(),
        lines: vec!["a".to_string(), "  ".to_string(), "b".to_string()],
    })]);
    assert_eq!(ast::render_markdown(&d), "    a\n\n    b\n");
}

#[test]
fn quotes_prefix_each_line() {
    assert_eq!(md("> a\n>\n> b\n"), "> a\n>\n> b\n");
    assert_eq!(ast::render_markdown(&body(vec![Block::BlockQuote(Vec::new())])), ">\n");
}

#[test]
fn list_markers_and_nesting() {
    let list = List {
        ordered: true,
        bullet: '\0',
        delimiter: '\0',
        start: 9,
        tight: false,
        items: vec![
            ListItem { task: None, blocks: vec![para("a\nb"), para("c")] },
            ListItem { task: Some(true), blocks: vec![para("d")] },
            ListItem { task: Some(false), blocks: vec![Block::Paragraph(Vec::new())] },
            ListItem { task: None, blocks: Vec::new() },
        ],
    };
    assert_eq!(
        ast::render_markdown(&body(vec![Block::List(list)])),
        "9. a\n   b\n\n   c\n\n10. [x] d\n\n11. [ ]\n\n12.\n"
    );
    assert_eq!(md("- parent\n  - child\n"), "- parent\n  - child\n");
}

#[test]
fn item_starting_with_a_block_puts_the_marker_alone() {
    let list = List {
        ordered: false,
        bullet: '*',
        delimiter: '\0',
        start: 1,
        tight: true,
        items: vec![ListItem {
            task: None,
            blocks: vec![Block::ThematicBreak(ThematicBreak { marker: '-' }), para("x")],
        }],
    };
    assert_eq!(ast::render_markdown(&body(vec![Block::List(list)])), "*\n  ---\n  x\n");
}

#[test]
fn list_numbers_wrap_at_the_limit() {
    let list = List {
        ordered: true,
        bullet: '\0',
        delimiter: ')',
        start: u32::MAX,
        tight: true,
        items: vec![
            ListItem { task: None, blocks: vec![para("a")] },
            ListItem { task: None, blocks: vec![para("b")] },
        ],
    };
    assert_eq!(ast::render_markdown(&body(vec![Block::List(list)])), "4294967295) a\n0) b\n");
}

#[test]
fn tables_escape_and_pad_cells() {
    let cell = |s: &str| TableCell { content: vec![text(s)] };
    let t = Table {
        header: vec![cell("a|b"), cell("c")],
        alignments: vec![Alignment::Right],
        rows: vec![vec![cell("1\n2")], vec![cell("3"), cell("4"), cell("5")]],
    };
    assert_eq!(
        ast::render_markdown(&body(vec![Block::Table(Box::new(t))])),
        "| a\\|b | c |\n| --: | --- |\n| 1 2 |  |\n| 3 | 4 |\n"
    );
    let empty = Table { header: Vec::new(), alignments: Vec::new(), rows: Vec::new() };
    assert_eq!(ast::render_markdown(&body(vec![Block::Table(Box::new(empty))])), "\n");
}

#[test]
fn references_follow_the_body_sorted_by_label() {
    let defs = vec![
        RefDef { key: chars("zeta"), dest: chars("/z (1)"), title: None },
        RefDef { key: chars("alpha"), dest: chars("/a"), title: Some(chars("T")) },
        RefDef { key: chars("al"), dest: chars("/al"), title: Some(Vec::new()) },
    ];
    let d = Document {
        blocks: vec![para("x")],
        references: RefDefs { defs },
        frontmatter: None,
    };
    assert_eq!(
        ast::render_markdown(&d),
        "x\n\n[al]: /al\n[alpha]: /a \"T\"\n[zeta]: </z (1)>\n"
    );
}

#[test]
fn frontmatter_leads_with_its_own_line_ending() {
    let d = Document {
        blocks: vec![para("x")],
        references: RefDefs { defs: Vec::new() },
        frontmatter: Some(Frontmatter {
            original: "---\r\na: 1\r\n---".to_string(),
            data: Vec::new(),
        }),
    };
    assert_eq!(ast::render_markdown(&d), "---\r\na: 1\r\n---\r\nx\n");
    assert_eq!(md("---\ntitle: Hi\n---\n# Hi\n"), "---\ntitle: Hi\n---\n# Hi\n");
}
