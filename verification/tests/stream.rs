//! Pull streaming API: event shapes, the pull parser, and rendering from
//! the event stream (which must equal the HTML converter and the AST
//! renderer).

use pagina::ast::{
    self, Alignment, Block, CodeBlock, CodeBlockKind, Document, Heading, HeadingKind, Inline,
    List, ListItem, Table, TableCell, ThematicBreak,
};
use pagina::highlight::SyntaxHighlighter;
use pagina::inline_parser::RefDefs;
use pagina::stream::{
    collect_events, events_from_document, parse_stream, render_events_to_html,
    render_events_to_html_with_highlighter, Event, Parser, Tag, TagEnd,
};
use pagina::{markdown_to_html, Options};

fn events(input: &str) -> Vec<Event> {
    collect_events(input, Options::default())
}

fn events_gfm(input: &str) -> Vec<Event> {
    collect_events(input, Options::gfm())
}

// ---------------------------------------------------------------------------
// Event sequences
// ---------------------------------------------------------------------------

#[test]
fn heading_event_sequence() {
    assert_eq!(
        events("# Hi *em*\n"),
        vec![
            Event::Start(Tag::Heading { level: 1 }),
            Event::Text("Hi ".to_string()),
            Event::Start(Tag::Emphasis),
            Event::Text("em".to_string()),
            Event::End(TagEnd::Emphasis),
            Event::End(TagEnd::Heading),
        ]
    );
}

#[test]
fn task_list_event_sequence() {
    assert_eq!(
        events_gfm("- [x] done\n"),
        vec![
            Event::Start(Tag::List {
                ordered: false,
                start: 0,
                tight: true,
            }),
            Event::Start(Tag::Item),
            Event::TaskListMarker(true),
            Event::Start(Tag::Paragraph),
            Event::Text("done".to_string()),
            Event::End(TagEnd::Paragraph),
            Event::End(TagEnd::Item),
            Event::End(TagEnd::List),
        ]
    );
}

#[test]
fn table_event_sequence() {
    let found = events("| a | b |\n| --- | :-: |\n| 1 | 2 |\n");
    assert!(matches!(
        found.first(),
        Some(Event::Start(Tag::Table { alignments }))
            if *alignments == vec![Alignment::Unset, Alignment::Center]
    ));
    assert!(found.contains(&Event::Start(Tag::TableHead)));
    assert!(found.contains(&Event::End(TagEnd::TableHead)));
    assert!(found.contains(&Event::Start(Tag::TableRow)));
    assert!(found.contains(&Event::End(TagEnd::TableRow)));
    assert_eq!(
        found
            .iter()
            .filter(|e| matches!(e, Event::Start(Tag::TableCell)))
            .count(),
        4
    );
    assert!(matches!(found.last(), Some(Event::End(TagEnd::Table))));
}

#[test]
fn parser_is_a_pull_iterator() {
    let mut parser = parse_stream("- a\n- b\n", Options::default());
    assert_eq!(parser.len(), 12);
    assert!(!parser.is_empty());
    let first = parser.next();
    assert!(matches!(first, Some(Event::Start(Tag::List { .. }))));
    let rest: Vec<Event> = parser.collect();
    assert_eq!(rest.len(), 11);
    assert!(matches!(rest.last(), Some(Event::End(TagEnd::List))));
}

#[test]
fn parser_matches_collected_events() {
    let via_iter: Vec<Event> = parse_stream("# T\n", Options::default()).collect();
    assert_eq!(via_iter, events("# T\n"));
}

// ---------------------------------------------------------------------------
// TagEnd payload-freedom
// ---------------------------------------------------------------------------

fn assert_copy<T: Copy>() {}

#[test]
fn tag_end_is_payload_free() {
    assert_copy::<TagEnd>();
    assert_eq!(std::mem::size_of::<TagEnd>(), 1);
    // Exhaustive match: fails to compile if a variant gains a payload.
    fn name(end: TagEnd) -> &'static str {
        match end {
            TagEnd::Paragraph => "paragraph",
            TagEnd::Heading => "heading",
            TagEnd::BlockQuote => "blockquote",
            TagEnd::CodeBlock => "codeblock",
            TagEnd::HtmlBlock => "htmlblock",
            TagEnd::List => "list",
            TagEnd::Item => "item",
            TagEnd::Table => "table",
            TagEnd::TableHead => "tablehead",
            TagEnd::TableRow => "tablerow",
            TagEnd::TableCell => "tablecell",
            TagEnd::FootnoteDefinition => "footnote",
            TagEnd::DefinitionList => "deflist",
            TagEnd::DefinitionListItem => "defitem",
            TagEnd::DefinitionTerm => "defterm",
            TagEnd::DefinitionDescription => "defdesc",
            TagEnd::Emphasis => "em",
            TagEnd::Strong => "strong",
            TagEnd::Strikethrough => "del",
            TagEnd::Link => "link",
            TagEnd::Image => "image",
        }
    }
    assert_eq!(name(TagEnd::TableCell), "tablecell");
    assert_eq!(name(TagEnd::Image), "image");
}

#[test]
fn events_are_thread_safe() {
    fn assert_send_sync<T: Send + Sync>() {}
    assert_send_sync::<Event>();
    assert_send_sync::<Tag>();
    assert_send_sync::<TagEnd>();
    assert_send_sync::<Parser>();
}

// ---------------------------------------------------------------------------
// Stream-render parity: stream -> html equals convert
// ---------------------------------------------------------------------------

const STREAM_PARITY_CORPUS: &[&str] = &[
    "# Hello\n",
    "## Closed ##\n",
    "Foo\n===\n",
    "Bar\n---\n",
    "Hello *world* **bold** _em_ __strong__\n",
    "***foo** and `code` and <b>raw</b>\n",
    "> quote\n> > nested\n",
    "- a\n- b\n- c\n",
    "1. one\n2. two\n",
    "3) three\n4) four\n",
    "- a\n\n- b\n",
    "- parent\n  - child\n",
    "- empty\n-\n",
    "```rust\nlet x = 1;\n```\n",
    "    indented\n",
    "***\n",
    "- - -\n",
    "[link](/url \"title\") and ![img](/i.png)\n",
    "[foo]: /url \"title\"\n\n[foo] and [t][foo] and [foo][]\n",
    "<http://example.com> and <a@b.com>\n",
    "<div>\nfoo\n</div>\n",
    "| a | b |\n| --- | :-: |\n| 1 | 2 |\n",
    "| a |\n| --- |\n",
    "para one\n\npara two\n",
    "a  \nb\n",
    "a\nb\n",
    "---\ntitle: Hi\n---\n# Hi\n",
    "# H1\n\n> quote with [link](/u)\n\n- item *em*\n\n```\ncode\n```\n",
];

#[test]
fn stream_html_matches_convert() {
    for md in STREAM_PARITY_CORPUS {
        let expected = markdown_to_html::convert(md).expect("convert failed");
        let actual = render_events_to_html(&events(md));
        assert_eq!(actual, expected, "HTML mismatch for {:?}", md);
    }
}

#[test]
fn frontmatter_produces_no_events() {
    // Frontmatter is skipped by design (metadata, never HTML); the stream
    // equals the body-only stream.
    assert_eq!(events("---\ntitle: Hi\n---\n# Hi\n"), events("# Hi\n"));
}

// ---------------------------------------------------------------------------
// Rendering from events of hand-built documents
// ---------------------------------------------------------------------------

fn text(s: &str) -> Inline {
    Inline::Text(s.to_string())
}

fn para(inlines: Vec<Inline>) -> Block {
    Block::Paragraph(inlines)
}

fn document(blocks: Vec<Block>) -> Document {
    Document {
        blocks,
        references: RefDefs::new(),
        frontmatter: None,
    }
}

fn sample_document() -> Document {
    document(vec![
        Block::Heading(Heading {
            level: 2,
            content: vec![
                text("A & B "),
                Inline::Emphasis {
                    delimiter: '_',
                    content: vec![text("em")],
                },
            ],
            kind: HeadingKind::Atx { closing: false },
        }),
        Block::ThematicBreak(ThematicBreak { marker: '*' }),
        Block::CodeBlock(CodeBlock {
            kind: CodeBlockKind::Fenced {
                fence_char: '~',
                fence_len: 4,
            },
            info: "rust,ignore".to_string(),
            lines: vec!["let a = 1 < 2;".to_string(), "".to_string()],
        }),
        Block::CodeBlock(CodeBlock {
            kind: CodeBlockKind::Fenced {
                fence_char: '`',
                fence_len: 3,
            },
            info: String::new(),
            lines: vec![],
        }),
        Block::HtmlBlock(vec!["<div>".to_string(), "</div>".to_string()]),
        Block::BlockQuote(vec![para(vec![text("q"), Inline::HardBreak, text("r")])]),
        Block::List(List {
            ordered: true,
            bullet: '\0',
            delimiter: ')',
            start: 7,
            tight: true,
            items: vec![
                ListItem {
                    task: Some(true),
                    blocks: vec![para(vec![text("done")])],
                },
                ListItem {
                    task: None,
                    blocks: vec![
                        para(vec![text("two")]),
                        Block::List(List {
                            ordered: false,
                            bullet: '-',
                            delimiter: '\0',
                            start: 0,
                            tight: false,
                            items: vec![ListItem {
                                task: Some(false),
                                blocks: vec![para(vec![text("inner")])],
                            }],
                        }),
                    ],
                },
                ListItem {
                    task: Some(false),
                    blocks: vec![],
                },
            ],
        }),
        Block::Table(Box::new(Table {
            header: vec![
                TableCell {
                    content: vec![text("h1")],
                },
                TableCell {
                    content: vec![Inline::Code("c".to_string())],
                },
            ],
            alignments: vec![Alignment::Right],
            rows: vec![vec![
                TableCell {
                    content: vec![Inline::Strong {
                        delimiter: '*',
                        content: vec![text("x")],
                    }],
                },
                TableCell {
                    content: vec![Inline::Image(Box::new(ast::Image {
                        alt: "a\"lt".to_string(),
                        url: "/p q.png".to_string(),
                        title: Some("t".to_string()),
                        style: ast::LinkStyle::Inline,
                    }))],
                },
            ]],
        })),
        para(vec![
            Inline::Link(Box::new(ast::Link {
                text: vec![text("l")],
                url: "/u".to_string(),
                title: None,
                style: ast::LinkStyle::Shortcut,
            })),
            Inline::SoftBreak,
            Inline::Autolink(ast::Autolink {
                url: "mailto:a@b.c".to_string(),
                text: "a@b.c".to_string(),
                bare: false,
            }),
            Inline::RawHtml("<b>".to_string()),
            Inline::Strikethrough(vec![text("gone")]),
        ]),
    ])
}

#[test]
fn events_of_a_document_render_as_the_document() {
    let d = sample_document();
    let evs = events_from_document(&d);
    assert_eq!(render_events_to_html(&evs), ast::render_html(&d));
}

#[test]
fn events_of_a_document_exact_html() {
    let d = document(vec![
        Block::Heading(Heading {
            level: 1,
            content: vec![text("T")],
            kind: HeadingKind::Setext { marker: '=' },
        }),
        Block::List(List {
            ordered: false,
            bullet: '*',
            delimiter: '\0',
            start: 0,
            tight: true,
            items: vec![
                ListItem {
                    task: None,
                    blocks: vec![para(vec![text("a")])],
                },
                ListItem {
                    task: Some(true),
                    blocks: vec![],
                },
            ],
        }),
    ]);
    let html = render_events_to_html(&events_from_document(&d));
    assert_eq!(
        html,
        "<h1>T</h1>\n<ul>\n<li>a</li>\n<li><input type=\"checkbox\" checked=\"\" disabled=\"\" /></li>\n</ul>\n"
    );
}

#[test]
fn events_of_a_document_in_order() {
    let d = document(vec![para(vec![
        text("a"),
        Inline::Autolink(ast::Autolink {
            url: "http://x".to_string(),
            text: "x".to_string(),
            bare: true,
        }),
    ])]);
    assert_eq!(
        events_from_document(&d),
        vec![
            Event::Start(Tag::Paragraph),
            Event::Text("a".to_string()),
            Event::Start(Tag::Link {
                url: "http://x".to_string(),
                title: None,
            }),
            Event::Text("x".to_string()),
            Event::End(TagEnd::Link),
            Event::End(TagEnd::Paragraph),
        ]
    );
}

#[test]
fn parser_over_a_document() {
    let d = document(vec![Block::ThematicBreak(ThematicBreak { marker: '-' })]);
    let mut p = Parser::new(d);
    assert_eq!(p.len(), 1);
    assert_eq!(p.next(), Some(Event::Rule));
    assert!(p.is_empty());
    assert_eq!(p.next(), None);
    assert_eq!(p.len(), 0);
}

#[test]
fn paragraph_in_quote_in_tight_item_keeps_its_p() {
    // Only a tight item's own paragraphs unwrap; one inside a quote in the
    // item keeps `<p>`, as the AST renderer has it.
    let d = document(vec![Block::List(List {
        ordered: false,
        bullet: '-',
        delimiter: '\0',
        start: 0,
        tight: true,
        items: vec![ListItem {
            task: None,
            blocks: vec![Block::BlockQuote(vec![para(vec![text("a")])])],
        }],
    })]);
    let from_events = render_events_to_html(&events_from_document(&d));
    assert_eq!(
        from_events,
        "<ul>\n<li>\n<blockquote>\n<p>a</p>\n</blockquote>\n</li>\n</ul>\n"
    );
    assert_eq!(from_events, ast::render_html(&d));
}

// ---------------------------------------------------------------------------
// Rendering events no document produces
// ---------------------------------------------------------------------------

#[test]
fn footnotes_render_in_the_footer() {
    let evs = vec![
        Event::Start(Tag::Paragraph),
        Event::Text("Hi".to_string()),
        Event::FootnoteReference {
            label: "a".to_string(),
            number: 1,
        },
        Event::FootnoteReference {
            label: "a".to_string(),
            number: 1,
        },
        Event::End(TagEnd::Paragraph),
        Event::Start(Tag::FootnoteDefinition {
            label: "a".to_string(),
            number: 1,
        }),
        Event::Start(Tag::Paragraph),
        Event::Text("note".to_string()),
        Event::End(TagEnd::Paragraph),
        Event::End(TagEnd::FootnoteDefinition),
        Event::Start(Tag::FootnoteDefinition {
            label: "unused".to_string(),
            number: 2,
        }),
        Event::Start(Tag::Paragraph),
        Event::Text("never".to_string()),
        Event::End(TagEnd::Paragraph),
        Event::End(TagEnd::FootnoteDefinition),
    ];
    let html = render_events_to_html(&evs);
    assert_eq!(
        html,
        "<p>Hi<sup class=\"footnote-ref\"><a href=\"#fn-1\" id=\"fnref-1\" data-footnote-ref>1</a></sup>\
<sup class=\"footnote-ref\"><a href=\"#fn-1\" id=\"fnref-1-2\" data-footnote-ref>1</a></sup></p>\n\
<section class=\"footnotes\" data-footnotes>\n<ol>\n<li id=\"fn-1\">\n\
<p>note <a href=\"#fnref-1\" class=\"footnote-backref\" data-footnote-backref aria-label=\"Back to reference 1\">\u{21a9}</a> \
<a href=\"#fnref-1-2\" class=\"footnote-backref\" data-footnote-backref aria-label=\"Back to reference 1\">\u{21a9}<sup>2</sup></a></p>\n\
</li>\n</ol>\n</section>\n"
    );
    assert!(!html.contains("never"));
}

#[test]
fn footnote_without_paragraph_gains_one() {
    let evs = vec![
        Event::FootnoteReference {
            label: "n".to_string(),
            number: 3,
        },
        Event::Start(Tag::FootnoteDefinition {
            label: "n".to_string(),
            number: 3,
        }),
        Event::Rule,
        Event::End(TagEnd::FootnoteDefinition),
    ];
    let html = render_events_to_html(&evs);
    assert!(html.ends_with(
        "<li id=\"fn-3\">\n<hr />\n<p><a href=\"#fnref-3\" class=\"footnote-backref\" data-footnote-backref aria-label=\"Back to reference 3\">\u{21a9}</a></p>\n</li>\n</ol>\n</section>\n"
    ));
}

#[test]
fn definition_lists_render() {
    let evs = vec![
        Event::Start(Tag::DefinitionList { tight: true }),
        Event::Start(Tag::DefinitionListItem),
        Event::Start(Tag::DefinitionTerm),
        Event::Text("Term".to_string()),
        Event::End(TagEnd::DefinitionTerm),
        Event::Start(Tag::DefinitionDescription),
        Event::Start(Tag::Paragraph),
        Event::Text("desc".to_string()),
        Event::End(TagEnd::Paragraph),
        Event::End(TagEnd::DefinitionDescription),
        Event::Start(Tag::DefinitionDescription),
        Event::End(TagEnd::DefinitionDescription),
        Event::End(TagEnd::DefinitionListItem),
        Event::End(TagEnd::DefinitionList),
    ];
    assert_eq!(
        render_events_to_html(&evs),
        "<dl>\n<dt>Term</dt>\n<dd>desc</dd>\n<dd></dd>\n</dl>\n"
    );
}

#[test]
fn math_events_render() {
    let evs = vec![
        Event::Start(Tag::Paragraph),
        Event::MathInline("a<b".to_string()),
        Event::MathDisplay("x".to_string()),
        Event::End(TagEnd::Paragraph),
    ];
    assert_eq!(
        render_events_to_html(&evs),
        "<p><span class=\"math-inline\">a&lt;b</span><div class=\"math-display\">x</div></p>\n"
    );
}

#[test]
fn stray_events_render_harmlessly() {
    // A stray closer at top level ends the walk.
    assert_eq!(
        render_events_to_html(&[Event::Text("a".to_string()), Event::End(TagEnd::Item), Event::Text("b".to_string())]),
        "a"
    );
    // Unclosed openers run to the end of the slice.
    assert_eq!(
        render_events_to_html(&[Event::Start(Tag::BlockQuote), Event::Start(Tag::Paragraph), Event::Text("x".to_string())]),
        "<blockquote>\n<p>x</p>\n</blockquote>\n"
    );
    assert_eq!(
        render_events_to_html(&[Event::Start(Tag::Item), Event::Start(Tag::CodeBlock { info: String::new() })]),
        "<li>\n<pre><code></code></pre>\n</li>\n"
    );
    assert_eq!(render_events_to_html(&[]), "");
}

struct Upper;

impl SyntaxHighlighter for Upper {
    fn write_highlighted(&self, out: &mut String, lang: &str, code: &str) {
        out.push_str("<hl lang=\"");
        out.push_str(lang);
        out.push_str("\">");
        out.push_str(&code.to_uppercase());
        out.push_str("</hl>");
    }
}

#[test]
fn highlighter_sees_language_and_text() {
    let evs = events("```py\nx = 1\n```\n");
    let html = render_events_to_html_with_highlighter(&evs, Some(&Upper));
    assert_eq!(
        html,
        "<pre><code class=\"language-py\"><hl lang=\"py\">X = 1\n</hl></code></pre>\n"
    );
    assert_eq!(
        render_events_to_html_with_highlighter(&evs, None),
        render_events_to_html(&evs)
    );
}

#[test]
fn highlighter_leaves_code_free_streams_alone() {
    let evs = events("# Title\n\n- a\n- b\n\n> quote *em*\n");
    assert_eq!(
        render_events_to_html_with_highlighter(&evs, Some(&Upper)),
        render_events_to_html(&evs)
    );
}

#[test]
fn rule_inside_item_renders_from_events() {
    let md = "- a\n\n  ***\n";
    let evs = collect_events(md, Options::default());
    let html = render_events_to_html(&evs);
    assert_eq!(html, "<ul>\n<li>\n<p>a</p>\n<hr />\n</li>\n</ul>\n");
    assert_eq!(html, ast::render_html(&ast::parse(md, Options::default())));
    assert_eq!(html, markdown_to_html::convert(md).unwrap());
}

#[test]
fn quote_inside_tight_item_renders_from_events_as_the_ast() {
    let md = "- > a\n- b\n";
    let evs = collect_events(md, Options::default());
    assert_eq!(
        render_events_to_html(&evs),
        ast::render_html(&ast::parse(md, Options::default()))
    );
}

const STREAM_PARITY_GFM_CORPUS: &[&str] = &[
    "- [ ] todo\n- [x] done\n- plain\n",
    "- [ ] a\n\n- [x] b\n",
    "- [x] **done** with `code`\n",
    "~~strike~~ and **bold**\n",
    "Visit http://example.com and www.example.com/x and a@b.com\n",
    "Hello[^a] and again[^a]\n\n[^a]: the note\n",
    "Single[^u]\n\n[^u]: alone\n",
    "Unreferenced[^z] stays literal\n",
    "Term\n: description\n",
    "Term\n: para one\n\n  para two\n",
    "# GFM *doc* with ~~strike~~\n\n- [ ] item\n",
    "> - [x] quoted task\n",
    "| *em* | `code` |\n| --- | --- |\n| [l](/u) | ![i](/i.png) |\n",
    "- item with [^fn] footnote\n\n[^fn]: fn body\n",
];

#[test]
fn stream_html_matches_convert_gfm() {
    for md in STREAM_PARITY_GFM_CORPUS {
        let expected = markdown_to_html::convert_gfm(md).expect("convert_gfm failed");
        let actual = render_events_to_html(&events_gfm(md));
        assert_eq!(actual, expected, "GFM HTML mismatch for {:?}", md);
    }
}
