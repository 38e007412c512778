//! What can be wrong with a benchmark configuration.

use vstd::prelude::*;
use vstd::string::StringExecFns;
use crate::number::NumberError;

verus! {

/// A configuration that cannot be run.
#[derive(Clone, Debug)]
pub enum BenchError {
    /// Neither `queries` nor `chat` is set.
    NoQuestions,
    /// Both `queries` and `chat` are set.
    TwoModes,
    /// There is no agent.
    NoAgents,
    /// There is no corpus.
    NoCorpora,
    /// A corpus entry holds no `=`.
    MalformedCorpus { spec: String },
    /// The size of a synthetic corpus is no number.
    MockCorpusSize { count: String, spec: String, reason: NumberError },
    /// No chunker has this name.
    UnknownChunker { name: String, available: String },
    /// No PDF parser has this name.
    UnknownPdfParser { name: String, available: String },
    /// No ranker has this name.
    UnknownRanker { name: String },
    /// The chat provider has no backend here.
    UnsupportedChatProvider { provider: String },
    /// The embedding backend was refused, with this explanation.
    Embedder { explanation: String },
}

/// A [`BenchError`] with its texts as character sequences.
pub enum BenchErrorView {
    NoQuestions,
    TwoModes,
    NoAgents,
    NoCorpora,
    MalformedCorpus { spec: Seq<char> },
    MockCorpusSize { count: Seq<char>, spec: Seq<char>, reason: NumberError },
    UnknownChunker { name: Seq<char>, available: Seq<char> },
    UnknownPdfParser { name: Seq<char>, available: Seq<char> },
    UnknownRanker { name: Seq<char> },
    UnsupportedChatProvider { provider: Seq<char> },
    Embedder { explanation: Seq<char> },
}

impl View for BenchError {
    type V = BenchErrorView;

    open spec fn view(&self) -> BenchErrorView {
        match self {
            BenchError::NoQuestions => BenchErrorView::NoQuestions,
            BenchError::TwoModes => BenchErrorView::TwoModes,
            BenchError::NoAgents => BenchErrorView::NoAgents,
            BenchError::NoCorpora => BenchErrorView::NoCorpora,
            BenchError::MalformedCorpus { spec } => BenchErrorView::MalformedCorpus {
                spec: spec@,
            },
            BenchError::MockCorpusSize { count, spec, reason } => BenchErrorView::MockCorpusSize {
                count: count@,
                spec: spec@,
                reason: *reason,
            },
            BenchError::UnknownChunker { name, available } => BenchErrorView::UnknownChunker {
                name: name@,
                available: available@,
            },
            BenchError::UnknownPdfParser { name, available } => BenchErrorView::UnknownPdfParser {
                name: name@,
                available: available@,
            },
            BenchError::UnknownRanker { name } => BenchErrorView::UnknownRanker { name: name@ },
            BenchError::UnsupportedChatProvider { provider } => {
                BenchErrorView::UnsupportedChatProvider { provider: provider@ }
            },
            BenchError::Embedder { explanation } => BenchErrorView::Embedder {
                explanation: explanation@,
            },
        }
    }
}

impl BenchErrorView {
    /// The message for the user.
    pub open spec fn message(self) -> Seq<char> {
        match self {
            BenchErrorView::NoQuestions => "config must contain 'queries' or 'chat'."@,
            BenchErrorView::TwoModes => {
                "config must not contain both 'queries' and 'chat' — pick one."@
            },
            BenchErrorView::NoAgents => "config must contain at least one [[agents]] entry."@,
            BenchErrorView::NoCorpora => "config must contain at least one 'corpus_dirs' entry."@,
            BenchErrorView::MalformedCorpus { spec } => "corpus '"@ + spec
                + "' must have the form 'name=path'"@,
            BenchErrorView::MockCorpusSize { count, spec, .. } => "mock corpus size '"@ + count
                + "' in corpus '"@ + spec + "'"@,
            BenchErrorView::UnknownChunker { name, available } => "unknown chunker '"@ + name
                + "'. Available: "@ + available,
            BenchErrorView::UnknownPdfParser { name, available } => "unknown PDF parser '"@ + name
                + "'. Available: "@ + available,
            BenchErrorView::UnknownRanker { name } => "unknown ranker '"@ + name
                + "'. Available: rrf, cosine, bm25, weighted, mmr"@,
            BenchErrorView::UnsupportedChatProvider { provider } => "chat provider "@ + provider
                + " is not supported by this build"@,
            BenchErrorView::Embedder { explanation } => explanation,
        }
    }
}

/// The explanation of a number that could not be read.
pub open spec fn number_cause(e: NumberError) -> Seq<char> {
    match e {
        NumberError::Empty => "cannot parse integer from empty string"@,
        NumberError::InvalidDigit => "invalid digit found in string"@,
        NumberError::TooLarge => "number too large to fit in target type"@,
    }
}

impl BenchErrorView {
    /// What lies behind the error, where it has a cause of its own.
    pub open spec fn source(self) -> Option<Seq<char>> {
        match self {
            BenchErrorView::MockCorpusSize { reason, .. } => Some(number_cause(reason)),
            _ => None,
        }
    }
}

impl BenchError {
    /// The message for the user.
    pub fn message(&self) -> (r: String)
        ensures
            r@ == self@.message(),
    {
        match self {
            BenchError::NoQuestions => String::from_str("config must contain 'queries' or 'chat'."),
            BenchError::TwoModes => String::from_str(
                "config must not contain both 'queries' and 'chat' — pick one.",
            ),
            BenchError::NoAgents => String::from_str(
                "config must contain at least one [[agents]] entry.",
            ),
            BenchError::NoCorpora => String::from_str(
                "config must contain at least one 'corpus_dirs' entry.",
            ),
            BenchError::MalformedCorpus { spec } => {
                let mut m: String = String::from_str("corpus '");
                m.append(spec.as_str());
                m.append("' must have the form 'name=path'");
                m
            },
            BenchError::MockCorpusSize { count, spec, .. } => {
                let mut m: String = String::from_str("mock corpus size '");
                m.append(count.as_str());
                m.append("' in corpus '");
                m.append(spec.as_str());
                m.append("'");
                m
            },
            BenchError::UnknownChunker { name, available } => {
                let mut m: String = String::from_str("unknown chunker '");
                m.append(name.as_str());
                m.append("'. Available: ");
                m.append(available.as_str());
                m
            },
            BenchError::UnknownPdfParser { name, available } => {
                let mut m: String = String::from_str("unknown PDF parser '");
                m.append(name.as_str());
                m.append("'. Available: ");
                m.append(available.as_str());
                m
            },
            BenchError::UnknownRanker { name } => {
                let mut m: String = String::from_str("unknown ranker '");
                m.append(name.as_str());
                m.append("'. Available: rrf, cosine, bm25, weighted, mmr");
                m
            },
            BenchError::UnsupportedChatProvider { provider } => {
                let mut m: String = String::from_str("chat provider ");
                m.append(provider.as_str());
                m.append(" is not supported by this build");
                m
            },
            BenchError::Embedder { explanation } => explanation.clone(),
        }
    }

    /// What lies behind the error, where it has a cause of its own.
    pub fn source(&self) -> (r: Option<String>)
        ensures
            crate::text::opt_text(r) == self@.source(),
    {
        match self {
            BenchError::MockCorpusSize { reason, .. } => Some(
                match reason {
                    NumberError::Empty => String::from_str(
                        "cannot parse integer from empty string",
                    ),
                    NumberError::InvalidDigit => String::from_str("invalid digit found in string"),
                    NumberError::TooLarge => String::from_str(
                        "number too large to fit in target type",
                    ),
                },
            ),
            _ => None,
        }
    }
}

/// A result with a text, as character sequences.
pub open spec fn text_result(r: Result<String, BenchError>) -> Result<Seq<char>, BenchErrorView> {
    match r {
        Ok(s) => Ok(s@),
        Err(e) => Err(e@),
    }
}

/// A result with a list of texts, as character sequences.
pub open spec fn texts_result(r: Result<Vec<String>, BenchError>) -> Result<
    Seq<Seq<char>>,
    BenchErrorView,
> {
    match r {
        Ok(v) => Ok(crate::text::texts(v@)),
        Err(e) => Err(e@),
    }
}

} // verus!
