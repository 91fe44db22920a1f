# pagina

A Markdown ⇄ HTML converter written in Verus: every conversion step is an
executable function whose result is stated by its contract and proved.

- `src/markdown_to_html.rs`: CommonMark block parsing (`spec_parse`) and
  HTML rendering; `convert` equals `spec_convert` of its input.
- `src/inline_parser.rs`: inline tokens, delimiters, links and their HTML;
  `src/inline_round_trip.rs` proves that fragments of plain text and code
  spans render back to themselves.
- `src/html_to_markdown.rs`: the reverse direction.
- `src/ast.rs`, `src/stream.rs`, `src/stream_html.rs`, `src/visitor.rs`: the
  document tree, its event stream, rendering from events, and walkers.
- `src/frontmatter.rs`: leading metadata blocks, their key/value data and
  the YAML data of `---` blocks.
- `src/highlight.rs`: the highlighting hook and the `syntect` adapter.
- `src/sanitize.rs`, `src/html_escape.rs`, `src/math.rs`, `src/cli.rs`.
- `app/`: the command line and the WebAssembly bindings.
- `tests/`: ordinary Rust tests of the library.
