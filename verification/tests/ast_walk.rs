use pagina::ast::{
    plain_text, Autolink, Block, Heading, HeadingKind, Image, Inline, Link, LinkStyle, List,
    ListItem,
};
use pagina::visitor::{walk_block, walk_inline, walk_inlines, Visitor};

fn text(s: &str) -> Inline {
    Inline::Text(s.to_string())
}

#[derive(Default)]
struct Counter {
    blocks: usize,
    inlines: usize,
    headings: Vec<(u8, String)>,
}

impl Visitor for Counter {
    fn visit_block(&mut self, block: &Block) {
        self.blocks += 1;
        if let Block::Heading(h) = block {
            self.headings.push((h.level, plain_text(&h.content)));
        }
    }

    fn visit_inline(&mut self, _inline: &Inline) {
        self.inlines += 1;
    }
}

#[test]
fn plain_text_flattens_inline_tree() {
    let inlines = vec![
        text("a "),
        Inline::Strong { delimiter: '*', content: vec![text("b")] },
        Inline::SoftBreak,
        Inline::Link(Box::new(Link {
            text: vec![Inline::Emphasis { delimiter: '_', content: vec![text("c")] }],
            url: "u".to_string(),
            title: None,
            style: LinkStyle::Inline,
        })),
        Inline::Image(Box::new(Image {
            alt: "d".to_string(),
            url: "i.png".to_string(),
            title: None,
            style: LinkStyle::Shortcut,
        })),
        Inline::Code("e".to_string()),
        Inline::Autolink(Autolink {
            url: "mailto:f@g.h".to_string(),
            text: "f@g.h".to_string(),
            bare: false,
        }),
        Inline::HardBreak,
    ];
    assert_eq!(plain_text(&inlines), "a b\ncdef@g.h\n");
    assert_eq!(plain_text(&[]), "");
}

#[test]
fn visitor_walks_pre_order_through_nesting() {
    let doc_block = Block::BlockQuote(vec![
        Block::Heading(Heading {
            level: 2,
            content: vec![text("Title")],
            kind: HeadingKind::Atx { closing: false },
        }),
        Block::List(List {
            ordered: false,
            bullet: '-',
            delimiter: '.',
            start: 1,
            tight: true,
            items: vec![ListItem {
                task: None,
                blocks: vec![Block::Paragraph(vec![
                    text("x"),
                    Inline::Emphasis { delimiter: '*', content: vec![text("y")] },
                ])],
            }],
        }),
    ]);
    let mut c = Counter::default();
    walk_block(&doc_block, &mut c);
    assert_eq!(c.blocks, 4);
    assert_eq!(c.inlines, 4);
    assert_eq!(c.headings, vec![(2, "Title".to_string())]);

    let mut c2 = Counter::default();
    walk_inlines(&[text("a"), Inline::Strikethrough(vec![text("b")])], &mut c2);
    assert_eq!(c2.inlines, 3);
    assert_eq!(c2.blocks, 0);
}

fn doc(blocks: Vec<Block>) -> pagina::ast::Document {
    pagina::ast::Document {
        blocks,
        references: pagina::inline_parser::RefDefs::new(),
        frontmatter: None,
    }
}

fn para(s: &str) -> Block {
    Block::Paragraph(vec![text(s)])
}

#[test]
fn render_html_matches_converter_shapes() {
    let d = doc(vec![
        Block::Heading(Heading {
            level: 1,
            content: vec![text("Hi & bye")],
            kind: HeadingKind::Setext { marker: '=' },
        }),
        Block::List(List {
            ordered: false,
            bullet: '-',
            delimiter: '.',
            start: 1,
            tight: true,
            items: vec![
                ListItem { task: None, blocks: vec![para("a")] },
                ListItem { task: None, blocks: vec![para("b")] },
            ],
        }),
        Block::ThematicBreak(pagina::ast::ThematicBreak { marker: '*' }),
    ]);
    let html = pagina::ast::render_html(&d);
    assert_eq!(
        html,
        "<h1>Hi &amp; bye</h1>\n<ul>\n<li>a</li>\n<li>b</li>\n</ul>\n<hr />\n"
    );
    assert_eq!(
        pagina::markdown_to_html::convert("Hi & bye\n===\n\n- a\n- b\n\n***\n").unwrap(),
        html
    );
}

#[test]
fn render_html_task_items_and_loose_lists() {
    let d = doc(vec![Block::List(List {
        ordered: true,
        bullet: '\0',
        delimiter: '.',
        start: 3,
        tight: false,
        items: vec![
            ListItem { task: Some(true), blocks: vec![para("done")] },
            ListItem { task: Some(false), blocks: vec![] },
            ListItem { task: None, blocks: vec![] },
        ],
    })]);
    assert_eq!(
        pagina::ast::render_html(&d),
        "<ol start=\"3\">\n<li>\n<p><input type=\"checkbox\" checked=\"\" disabled=\"\" /> done</p>\n</li>\n<li>\n<p><input type=\"checkbox\" disabled=\"\" /></p>\n</li>\n<li></li>\n</ol>\n"
    );
    let tight = doc(vec![Block::List(List {
        ordered: false,
        bullet: '*',
        delimiter: '.',
        start: 1,
        tight: true,
        items: vec![ListItem {
            task: Some(false),
            blocks: vec![para("todo"), Block::BlockQuote(vec![para("q")])],
        }],
    })]);
    assert_eq!(
        pagina::ast::render_html(&tight),
        "<ul>\n<li><input type=\"checkbox\" disabled=\"\" /> todo\n<blockquote>\n<p>q</p>\n</blockquote>\n</li>\n</ul>\n"
    );
}

#[test]
fn render_html_code_html_and_tables() {
    let d = doc(vec![
        Block::CodeBlock(pagina::ast::CodeBlock {
            kind: pagina::ast::CodeBlockKind::Fenced { fence_char: '`', fence_len: 3 },
            info: "rust,ignore x".to_string(),
            lines: vec!["a < b".to_string()],
        }),
        Block::HtmlBlock(vec!["<div>".to_string(), "</div>".to_string()]),
        Block::Table(Box::new(pagina::ast::Table {
            header: vec![
                pagina::ast::TableCell { content: vec![text("h")] },
                pagina::ast::TableCell { content: vec![text("k")] },
            ],
            alignments: vec![pagina::ast::Alignment::Left, pagina::ast::Alignment::Unset],
            rows: vec![vec![pagina::ast::TableCell { content: vec![text("x")] }]],
        })),
    ]);
    assert_eq!(
        pagina::ast::render_html(&d),
        "<pre><code class=\"language-rust\">a &lt; b\n</code></pre>\n<div>\n</div>\n<table>\n<thead>\n<tr>\n<th align=\"left\">h</th>\n<th>k</th>\n</tr>\n</thead>\n<tbody>\n<tr>\n<td align=\"left\">x</td>\n</tr>\n</tbody>\n</table>\n"
    );
}

#[derive(Default)]
struct Recorder {
    seen: Vec<String>,
}

impl Visitor for Recorder {
    fn visit_block(&mut self, _block: &Block) {
        self.seen.push("block".to_string());
    }
    fn visit_inline(&mut self, inline: &Inline) {
        self.seen.push(format!("{:?}", inline));
    }
}

#[test]
fn walk_inline_visits_link_then_its_text_in_order() {
    let l = Inline::Link(Box::new(Link {
        text: vec![text("a"), Inline::Code("c".to_string())],
        url: "/u".to_string(),
        title: None,
        style: LinkStyle::Inline,
    }));
    let mut v = Recorder::default();
    walk_inline(&l, &mut v);
    assert_eq!(
        v.seen,
        vec![format!("{:?}", l), format!("{:?}", text("a")), format!("{:?}", Inline::Code("c".to_string()))]
    );
    let img = Inline::Image(Box::new(Image {
        alt: "x".to_string(),
        url: "/i".to_string(),
        title: None,
        style: LinkStyle::Inline,
    }));
    let mut w = Recorder::default();
    walk_inline(&img, &mut w);
    assert_eq!(w.seen, vec![format!("{:?}", img)]);
}
