//! The chunkers and document parsers that `ragrig` brings along.

use vstd::prelude::*;
use crate::text::texts;

verus! {

/// A document parser: its name and the file extensions that it handles.
pub struct ParserInfo {
    pub name: String,
    pub extensions: Vec<String>,
}

/// A [`ParserInfo`] with its texts as character sequences.
pub struct ParserView {
    pub name: Seq<char>,
    pub extensions: Seq<Seq<char>>,
}

impl View for ParserInfo {
    type V = ParserView;

    open spec fn view(&self) -> ParserView {
        ParserView { name: self.name@, extensions: texts(self.extensions@) }
    }
}

/// The views of a list of parsers.
pub open spec fn parser_views(v: Seq<ParserInfo>) -> Seq<ParserView> {
    Seq::new(v.len(), |i: int| v[i]@)
}

/// The names of the chunkers of this build, in the order of the registry.
pub open spec fn chunker_registry() -> Seq<Seq<char>> {
    seq![
        "markdown"@,
        "token"@,
        "chunkedrs-recursive"@,
        "chunkedrs-markdown"@,
        "chunkedrs-code"@,
        "chunkedrs-html"@,
    ]
}

/// Calls `ragrig::available_chunkers` and takes the name of each chunker.
/// Claimed of it: with the features that the manifest selects, the registry
/// holds the six built-in chunkers in this order, and no feature-gated one.
#[verifier::external_body]
pub(crate) fn available_chunkers() -> (r: Vec<String>)
    ensures
        texts(r@) == chunker_registry(),
{
    ragrig::available_chunkers().iter().map(|c| c.name().to_string()).collect()
}

/// The parsers of this build, in the order of the registry.
pub open spec fn parser_registry() -> Seq<ParserView> {
    seq![
        ParserView { name: "unpdf"@, extensions: seq!["pdf"@] },
        ParserView { name: "pdfsink"@, extensions: seq!["pdf"@] },
        ParserView { name: "pdf-extract"@, extensions: seq!["pdf"@] },
        ParserView { name: "sloppy-pdf"@, extensions: seq!["pdf"@] },
        ParserView { name: "epub-parser"@, extensions: seq!["epub"@] },
        ParserView { name: "html"@, extensions: seq!["html"@, "htm"@] },
        ParserView { name: "docx"@, extensions: seq!["docx"@] },
        ParserView {
            name: "markdown"@,
            extensions: seq!["md"@, "rmd"@, "qmd"@, "Rmd"@, "Qmd"@],
        },
    ]
}

/// Calls `ragrig::parsers::build_parsers` and takes the name and the
/// extensions of each parser.  Claimed of it: with the features that the
/// manifest selects, the registry holds these eight parsers in this order,
/// with these extensions.
#[verifier::external_body]
pub(crate) fn build_parsers() -> (r: Vec<ParserInfo>)
    ensures
        parser_views(r@) == parser_registry(),
{
    ragrig::parsers::build_parsers()
        .iter()
        .map(|p| ParserInfo {
            name: p.name().to_string(),
            extensions: p.extensions().iter().map(|e| e.to_string()).collect(),
        })
        .collect()
}

} // verus!
