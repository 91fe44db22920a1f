use vstd::prelude::*;

pub mod ast;
pub mod ast_markdown;
pub mod cli;
pub mod entities;
pub mod error;
pub mod frontmatter;
pub mod highlight;
pub mod html5_references;
pub mod html_escape;
pub mod html_to_markdown;
pub mod inline_parser;
pub mod inline_round_trip;
pub mod markdown_to_html;
pub mod math;
pub mod sanitize;
pub mod stream;
pub mod stream_html;
pub mod stream_law;
pub mod text;
pub mod visitor;

verus! {

/// Conversion options shared by both directions.
#[derive(Clone, Copy, Debug)]
pub struct Options {
    /// Enable GFM extensions.
    pub gfm: bool,
}

impl Options {
    /// Options with GFM extensions enabled.
    pub fn gfm() -> (o: Self)
        ensures
            o.gfm,
    {
        Options { gfm: true }
    }
}

impl Default for Options {
    /// CommonMark only: GFM extensions off.
    fn default() -> (o: Self)
        ensures
            !o.gfm,
    {
        Options { gfm: false }
    }
}

} // verus!
