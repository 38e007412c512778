//! Provenance names: the seam between ingestion and interaction.
//!
//! Both sides derive the names of corpora and pipelines from the shared
//! configuration, so what one indexes the other finds.

use vstd::prelude::*;
use vstd::string::StringExecFns;
use crate::config::{PipelineConfig, PipelineConfigView};
use crate::error::{text_result, texts_result, BenchError, BenchErrorView};
use crate::registry::{available_chunkers, chunker_registry};
use crate::text::{collected, join, joined, same_text, split_at_first, split_once, texts};

verus! {

// ── Corpus names ────────────────────────────────────────────────────────────

/// The corpus name of a `name=path` entry: what precedes the first `=`.
pub open spec fn name_of_corpus(spec: Seq<char>) -> Result<Seq<char>, BenchErrorView> {
    match split_once(spec, seq!['=']) {
        Some((name, _)) => Ok(name),
        None => Err(BenchErrorView::MalformedCorpus { spec }),
    }
}

/// The corpus name part of a `name=path` entry.
pub fn corpus_name(spec: &str) -> (r: Result<String, BenchError>)
    ensures
        text_result(r) == name_of_corpus(spec@),
{
    match split_at_first(spec, '=') {
        Some((name, _)) => Ok(name),
        None => Err(BenchError::MalformedCorpus { spec: String::from_str(spec) }),
    }
}

/// The names of all entries, or the error of the first malformed one.
pub open spec fn names_of_corpora(specs: Seq<Seq<char>>) -> Result<
    Seq<Seq<char>>,
    BenchErrorView,
> {
    collected(Seq::new(specs.len(), |i: int| name_of_corpus(specs[i])))
}

/// All corpus names from the configuration, in order.
pub fn corpus_names(specs: &[String]) -> (r: Result<Vec<String>, BenchError>)
    ensures
        texts_result(r) == names_of_corpora(texts(specs@)),
{
    let ghost results = Seq::new(specs@.len(), |i: int| name_of_corpus(texts(specs@)[i]));
    let mut names: Vec<String> = Vec::new();
    let mut i: usize = 0;
    assert(texts(names@) =~= Seq::empty());
    while i < specs.len()
        invariant
            i <= specs@.len(),
            results == Seq::new(specs@.len(), |i: int| name_of_corpus(texts(specs@)[i])),
            collected(results.take(i as int)) == Ok::<Seq<Seq<char>>, BenchErrorView>(
                texts(names@),
            ),
        decreases specs@.len() - i,
    {
        let ghost before = texts(names@);
        proof {
            crate::text::lemma_collected_step(results, i as int);
        }
        match corpus_name(specs[i].as_str()) {
            Ok(name) => {
                names.push(name);
                assert(texts(names@) =~= before.push(name@));
            },
            Err(e) => {
                proof {
                    crate::text::lemma_collected_error(results, i + 1);
                }
                return Err(e);
            },
        }
        i += 1;
    }
    assert(results.take(specs@.len() as int) =~= results);
    assert(results =~= Seq::new(texts(specs@).len(), |i: int| name_of_corpus(texts(specs@)[i])));
    Ok(names)
}

// ── Pipeline labels ─────────────────────────────────────────────────────────

/// The views of a list of pipelines.
pub open spec fn pipeline_views(v: Seq<PipelineConfig>) -> Seq<PipelineConfigView> {
    Seq::new(v.len(), |i: int| v[i]@)
}

/// The pipelines that a list stands for: itself, or the one default pipeline
/// where it is empty.
pub open spec fn effective_pipelines(specs: Seq<PipelineConfigView>) -> Seq<PipelineConfigView> {
    if specs.len() == 0 {
        seq![PipelineConfigView::default_pipeline()]
    } else {
        specs
    }
}

/// The parser part of a label.
pub open spec fn parser_label(parser: Option<Seq<char>>) -> Seq<char> {
    match parser {
        Some(name) => name,
        None => "all-parsers"@,
    }
}

/// The chunker part of a label.
pub open spec fn chunker_label(chunker: Option<Seq<char>>) -> Seq<char> {
    match chunker {
        Some(name) => name,
        None => "markdown"@,
    }
}

/// The label of a pipeline.
pub open spec fn label_text(p: PipelineConfigView) -> Seq<char> {
    parser_label(p.parser) + " · "@ + chunker_label(p.chunker)
}

/// The error for a chunker that is not in the registry.
pub open spec fn unknown_chunker(name: Seq<char>, chunkers: Seq<Seq<char>>) -> BenchErrorView {
    BenchErrorView::UnknownChunker { name, available: joined(chunkers, ", "@) }
}

/// The label of a pipeline where these chunkers are available.
pub open spec fn label_among(
    p: PipelineConfigView,
    chunkers: Seq<Seq<char>>,
) -> Result<Seq<char>, BenchErrorView> {
    match p.chunker {
        Some(name) => if chunkers.contains(name) {
            Ok(label_text(p))
        } else {
            Err(unknown_chunker(name, chunkers))
        },
        None => Ok(label_text(p)),
    }
}

/// The position of the first of `names` that is `name`.
pub(crate) fn position_of(names: &Vec<String>, name: &str) -> (r: Option<usize>)
    ensures
        match r {
            Some(i) => i < names@.len() && texts(names@)[i as int] == name@ && forall|k: int|
                0 <= k < i ==> texts(names@)[k] != name@,
            None => !texts(names@).contains(name@),
        },
{
    let mut i: usize = 0;
    while i < names.len()
        invariant
            i <= names@.len(),
            forall|k: int| 0 <= k < i ==> texts(names@)[k] != name@,
        decreases names@.len() - i,
    {
        if same_text(names[i].as_str(), name) {
            return Some(i);
        }
        i += 1;
    }
    None
}

/// The label of a pipeline where these chunkers are available.
pub fn pipeline_label_among(spec: &PipelineConfig, chunkers: &Vec<String>) -> (r: Result<
    String,
    BenchError,
>)
    ensures
        text_result(r) == label_among(spec@, texts(chunkers@)),
{
    let mut label: String = match &spec.parser {
        Some(name) => name.clone(),
        None => String::from_str("all-parsers"),
    };
    label.append(" · ");
    match &spec.chunker {
        Some(name) => {
            match position_of(chunkers, name.as_str()) {
                Some(i) => {
                    assert(texts(chunkers@)[i as int] == name@);
                },
                None => {
                    return Err(
                        BenchError::UnknownChunker {
                            name: name.clone(),
                            available: join(chunkers, ", "),
                        },
                    );
                },
            }
            label.append(name.as_str());
        },
        None => {
            label.append("markdown");
        },
    }
    Ok(label)
}

/// The stable pipeline label, shared by ingestion and interaction so that the
/// provenance names they derive always match.
pub fn pipeline_label(spec: &PipelineConfig) -> (r: Result<String, BenchError>)
    ensures
        text_result(r) == label_among(spec@, chunker_registry()),
{
    let chunkers: Vec<String> = available_chunkers();
    pipeline_label_among(spec, &chunkers)
}

/// The labels of a list of pipelines where these chunkers are available.
pub open spec fn labels_among(
    specs: Seq<PipelineConfigView>,
    chunkers: Seq<Seq<char>>,
) -> Result<Seq<Seq<char>>, BenchErrorView> {
    let all = effective_pipelines(specs);
    collected(Seq::new(all.len(), |i: int| label_among(all[i], chunkers)))
}

/// All pipeline labels where these chunkers are available, in order.
pub fn pipeline_labels_among(specs: &[PipelineConfig], chunkers: &Vec<String>) -> (r: Result<
    Vec<String>,
    BenchError,
>)
    ensures
        texts_result(r) == labels_among(pipeline_views(specs@), texts(chunkers@)),
{
    let ghost all = effective_pipelines(pipeline_views(specs@));
    let ghost results = Seq::new(all.len(), |i: int| label_among(all[i], texts(chunkers@)));
    let mut labels: Vec<String> = Vec::new();
    assert(texts(labels@) =~= Seq::empty());
    if specs.len() == 0 {
        let single: PipelineConfig = PipelineConfig { parser: None, chunker: None };
        proof {
            assert(results.take(0) =~= Seq::empty());
            assert(results.take(1) =~= results);
            crate::text::lemma_collected_step(results, 0);
        }
        return match pipeline_label_among(&single, chunkers) {
            Ok(label) => {
                labels.push(label);
                assert(texts(labels@) =~= Seq::empty().push(label@));
                Ok(labels)
            },
            Err(e) => Err(e),
        };
    }
    let mut i: usize = 0;
    while i < specs.len()
        invariant
            i <= specs@.len(),
            specs@.len() > 0,
            all == effective_pipelines(pipeline_views(specs@)),
            results == Seq::new(all.len(), |i: int| label_among(all[i], texts(chunkers@))),
            collected(results.take(i as int)) == Ok::<Seq<Seq<char>>, BenchErrorView>(
                texts(labels@),
            ),
        decreases specs@.len() - i,
    {
        let ghost before = texts(labels@);
        proof {
            crate::text::lemma_collected_step(results, i as int);
        }
        match pipeline_label_among(&specs[i], chunkers) {
            Ok(label) => {
                labels.push(label);
                assert(texts(labels@) =~= before.push(label@));
            },
            Err(e) => {
                proof {
                    crate::text::lemma_collected_error(results, i + 1);
                }
                return Err(e);
            },
        }
        i += 1;
    }
    assert(results.take(specs@.len() as int) =~= results);
    Ok(labels)
}

/// All pipeline labels, in order.  An empty list yields the single default
/// pipeline.
pub fn pipeline_labels(specs: &[PipelineConfig]) -> (r: Result<Vec<String>, BenchError>)
    ensures
        texts_result(r) == labels_among(pipeline_views(specs@), chunker_registry()),
{
    let chunkers: Vec<String> = available_chunkers();
    pipeline_labels_among(specs, &chunkers)
}

// ── Scoped names and filters ────────────────────────────────────────────────

/// The corpus name for one (corpus, pipeline) pair.
pub open spec fn scoped(corpus: Seq<char>, pipeline: Seq<char>) -> Seq<char> {
    corpus + "::"@ + pipeline
}

/// The store-level corpus name for one (corpus, pipeline) pair: the provenance
/// by which interaction addresses what ingestion built.
pub fn scoped_corpus_name(corpus: &str, pipeline: &str) -> (r: String)
    ensures
        r@ == scoped(corpus@, pipeline@),
{
    let mut name: String = String::from_str(corpus);
    name.append("::");
    name.append(pipeline);
    name
}

/// What a stored chunk says of where it comes from.
pub struct ChunkOrigin {
    /// The corpus that it was indexed from.
    pub corpus: Seq<char>,
    /// The pipeline that it was stamped with.
    pub pipeline: Seq<char>,
}

/// The restriction of a search to one cell of the matrix.
pub struct CellFilter {
    pub corpus: String,
    pub pipeline: String,
}

impl CellFilter {
    /// Whether the search may return a chunk of this origin.
    pub open spec fn selects(&self, chunk: ChunkOrigin) -> bool {
        self.corpus@ == chunk.corpus && self.pipeline@ == chunk.pipeline
    }
}

/// The filter that selects the chunks of one pipeline and one corpus.
pub fn cell_filter(corpus: &str, pipeline: &str) -> (r: CellFilter)
    ensures
        r.corpus@ == corpus@,
        r.pipeline@ == pipeline@,
        forall|chunk: ChunkOrigin| #[trigger]
            r.selects(chunk) <==> chunk.corpus == corpus@ && chunk.pipeline == pipeline@,
{
    CellFilter { corpus: String::from_str(corpus), pipeline: String::from_str(pipeline) }
}

} // verus!
